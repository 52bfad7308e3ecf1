//! The decoder registry: which module instances get a decode capability.
use vstd::prelude::*;

verus! {

/// The closed set of module kinds this service holds a decoder for.
#[derive(PartialEq, Eq, Structural, Clone, Copy, Debug)]
pub enum KnownKind {
    Lightning,
    Wallet,
    Mint,
}

/// The decode capability of a module-kind tag: one of the known kinds, or
/// none at all for any tag outside the closed set.
pub open spec fn known_kind(tag: Seq<char>) -> Option<KnownKind> {
    if tag == "ln"@ {
        Some(KnownKind::Lightning)
    } else if tag == "wallet"@ {
        Some(KnownKind::Wallet)
    } else if tag == "mint"@ {
        Some(KnownKind::Mint)
    } else {
        None
    }
}

/// Executable form of `known_kind`.
pub fn known_kind_exec(tag: &String) -> (r: Option<KnownKind>)
    ensures
        r == known_kind(tag@),
{
    if tag.eq(&"ln".to_owned()) {
        Some(KnownKind::Lightning)
    } else if tag.eq(&"wallet".to_owned()) {
        Some(KnownKind::Wallet)
    } else if tag.eq(&"mint".to_owned()) {
        Some(KnownKind::Mint)
    } else {
        None
    }
}

/// A decode capability per module instance: present exactly for the
/// instances whose kind tag is in the known set.
pub struct DecoderRegistry {
    entries: Vec<(u16, KnownKind)>,
}

/// The mapping a list of capability entries denotes, later entries winning.
pub open spec fn registry_map(entries: Seq<(u16, KnownKind)>) -> Map<u16, KnownKind>
    decreases entries.len(),
{
    if entries.len() == 0 {
        Map::empty()
    } else {
        registry_map(entries.drop_last()).insert(entries.last().0, entries.last().1)
    }
}

impl View for DecoderRegistry {
    type V = Map<u16, KnownKind>;

    closed spec fn view(&self) -> Map<u16, KnownKind> {
        registry_map(self.entries@)
    }
}

/// The registry that a list of (instance id, kind tag) pairs yields: each
/// instance whose tag is known is mapped to that capability; instances with
/// an unknown tag are simply absent, which is no error.
pub open spec fn registry_of(pairs: Seq<(u16, Seq<char>)>) -> Map<u16, KnownKind>
    decreases pairs.len(),
{
    if pairs.len() == 0 {
        Map::empty()
    } else {
        let rest = registry_of(pairs.drop_last());
        match known_kind(pairs.last().1) {
            Some(k) => rest.insert(pairs.last().0, k),
            None => rest,
        }
    }
}

/// The models of (instance id, kind tag) pairs.
pub open spec fn pairs_model(pairs: Seq<(u16, String)>) -> Seq<(u16, Seq<char>)> {
    pairs.map_values(|p: (u16, String)| (p.0, p.1@))
}

impl DecoderRegistry {
    /// Build the registry from the (instance id, kind tag) pairs of a raw
    /// document: a capability exactly for each instance with a known tag.
    pub fn get_decoders(pairs: &Vec<(u16, String)>) -> (r: DecoderRegistry)
        ensures
            r@ == registry_of(pairs_model(pairs@)),
    {
        let ghost pm = pairs_model(pairs@);
        let mut entries: Vec<(u16, KnownKind)> = Vec::new();
        let mut i: usize = 0;
        proof {
            assert(pm.take(0) =~= Seq::<(u16, Seq<char>)>::empty());
        }
        while i < pairs.len()
            invariant
                pm == pairs_model(pairs@),
                i <= pairs@.len(),
                registry_map(entries@) == registry_of(pm.take(i as int)),
            decreases pairs@.len() - i,
        {
            let p = &pairs[i];
            let id = p.0;
            let tag = &p.1;
            let ghost entries_before = entries@;
            proof {
                assert(pm.take(i as int + 1).drop_last() =~= pm.take(i as int));
                assert(pm.take(i as int + 1).last() == pm[i as int]);
                assert(pm[i as int] == (pairs@[i as int].0, pairs@[i as int].1@));
            }
            match known_kind_exec(tag) {
                Some(k) => {
                    entries.push((id, k));
                    proof {
                        assert(entries@.drop_last() =~= entries_before);
                    }
                },
                None => {
                },
            }
            i = i + 1;
        }
        proof {
            assert(pm.take(pairs@.len() as int) =~= pm);
        }
        DecoderRegistry { entries }
    }

    /// Whether an instance has a decode capability.
    pub fn has_decoder(&self, id: u16) -> (r: bool)
        ensures
            r == self@.dom().contains(id),
    {
        proof {
            lemma_registry_map_dom(self.entries@);
        }
        let mut i: usize = 0;
        while i < self.entries.len()
            invariant
                i <= self.entries@.len(),
                forall|j: int| 0 <= j < i ==> (#[trigger] self.entries@[j]).0 != id,
            decreases self.entries@.len() - i,
        {
            if self.entries[i].0 == id {
                proof {
                    lemma_registry_map_dom(self.entries@);
                    assert((self.entries@[i as int]).0 == id);
                }
                return true;
            }
            i = i + 1;
        }
        false
    }
}

/// With distinct instance ids the registry's content depends only on which
/// (instance id, kind tag) pairs are present, not on the order they came
/// in: an instance is mapped exactly when some pair names it with a known
/// tag, and then to that tag's capability.
pub proof fn lemma_registry_content(pairs: Seq<(u16, Seq<char>)>)
    requires
        forall|a: int, b: int|
            0 <= a < b < pairs.len() ==> (#[trigger] pairs[a]).0 != (#[trigger] pairs[b]).0,
    ensures
        forall|id: u16|
            (#[trigger] registry_of(pairs).dom().contains(id)) <==> (exists|j: int|
                0 <= j < pairs.len() && (#[trigger] pairs[j]).0 == id && known_kind(pairs[j].1)
                    is Some),
        forall|j: int|
            0 <= j < pairs.len() && known_kind((#[trigger] pairs[j]).1) is Some ==> registry_of(
                pairs,
            )[pairs[j].0] == known_kind(pairs[j].1)->0,
    decreases pairs.len(),
{
    if pairs.len() > 0 {
        let rest = pairs.drop_last();
        let last = pairs.last();
        assert forall|a: int, b: int|
            0 <= a < b < rest.len() implies (#[trigger] rest[a]).0 != (#[trigger] rest[b]).0 by {
            assert((pairs[a]).0 != (pairs[b]).0);
        }
        lemma_registry_content(rest);
        assert forall|id: u16| #[trigger]
            registry_of(pairs).dom().contains(id) implies (exists|j: int|
            0 <= j < pairs.len() && (#[trigger] pairs[j]).0 == id && known_kind(pairs[j].1)
                is Some) by {
            if known_kind(last.1) is Some && id == last.0 {
                assert((pairs[pairs.len() - 1]).0 == id);
            } else {
                assert(registry_of(rest).dom().contains(id));
                let j = choose|j: int|
                    0 <= j < rest.len() && (#[trigger] rest[j]).0 == id && known_kind(rest[j].1)
                        is Some;
                assert((pairs[j]).0 == id);
            }
        }
        assert forall|id: u16|
            (exists|j: int|
                0 <= j < pairs.len() && (#[trigger] pairs[j]).0 == id && known_kind(pairs[j].1)
                    is Some) implies #[trigger] registry_of(pairs).dom().contains(id) by {
            let j = choose|j: int|
                0 <= j < pairs.len() && (#[trigger] pairs[j]).0 == id && known_kind(pairs[j].1)
                    is Some;
            if j < pairs.len() - 1 {
                assert((rest[j]).0 == id && known_kind(rest[j].1) is Some);
                assert(registry_of(rest).dom().contains(id));
            }
        }
        assert forall|j: int|
            0 <= j < pairs.len() && known_kind((#[trigger] pairs[j]).1)
                is Some implies registry_of(pairs)[pairs[j].0] == known_kind(pairs[j].1)->0 by {
            if j < pairs.len() - 1 {
                assert(rest[j] == pairs[j]);
                assert(registry_of(rest)[pairs[j].0] == known_kind(pairs[j].1)->0);
                assert((pairs[j]).0 != (pairs[pairs.len() - 1]).0);
            }
        }
    }
}

/// An instance is in the registry's domain exactly when some entry names it.
proof fn lemma_registry_map_dom(entries: Seq<(u16, KnownKind)>)
    ensures
        forall|id: u16|
            (#[trigger] registry_map(entries).dom().contains(id)) <==> (exists|j: int|
                0 <= j < entries.len() && (#[trigger] entries[j]).0 == id),
    decreases entries.len(),
{
    if entries.len() > 0 {
        lemma_registry_map_dom(entries.drop_last());
        assert forall|id: u16| #[trigger]
            registry_map(entries).dom().contains(id) implies (exists|j: int|
            0 <= j < entries.len() && (#[trigger] entries[j]).0 == id) by {
            if id == entries.last().0 {
                assert((entries[entries.len() - 1]).0 == id);
            } else {
                assert(registry_map(entries.drop_last()).dom().contains(id));
                let j = choose|j: int|
                    0 <= j < entries.drop_last().len() && (#[trigger] entries.drop_last()[j]).0
                        == id;
                assert((entries[j]).0 == id);
            }
        }
        assert forall|id: u16|
            (exists|j: int|
                0 <= j < entries.len() && (#[trigger] entries[j]).0 == id) implies #[trigger]
            registry_map(entries).dom().contains(id) by {
            let j = choose|j: int| 0 <= j < entries.len() && (#[trigger] entries[j]).0 == id;
            if j < entries.len() - 1 {
                assert((entries.drop_last()[j]).0 == id);
                assert(registry_map(entries.drop_last()).dom().contains(id));
            }
        }
    }
}

} // verus!
