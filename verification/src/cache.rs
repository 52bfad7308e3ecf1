//! The memoizing store of fetched configuration documents.
//!
//! The embedding keeps one store per process behind a reader/writer lock and
//! never holds that lock across a network fetch: a cached fetch first runs
//! the optimistic read phase (`lookup`) under the shared lock, fetches with
//! no lock held on a miss, and then runs the commit phase (`commit`) under
//! the exclusive lock. The store itself guarantees at most one document per
//! federation identity, last write winning.
use vstd::prelude::*;

use crate::document::clone_document;
use crate::document::doc_eq;
use crate::document::ConfigDocument;
use crate::document::DocModel;

verus! {

/// An opaque fixed-size federation identity: thirty-two bytes carried as
/// four words, derived by the embedding from the invite locator.
#[derive(PartialEq, Eq, Structural, Clone, Copy, Debug, Hash)]
pub struct FederationId {
    pub w0: u64,
    pub w1: u64,
    pub w2: u64,
    pub w3: u64,
}

/// Whether committing a freshly fetched document for an identity drifts
/// from what the store held: an entry was present and differed.
pub open spec fn drift_of(m: Map<FederationId, DocModel>, id: FederationId, d: DocModel) -> bool {
    m.dom().contains(id) && m[id] != d
}

/// No identity twice in the backing entries.
spec fn unique_ids(entries: Seq<(FederationId, ConfigDocument)>) -> bool {
    forall|a: int, b: int|
        0 <= a < b < entries.len() ==> (#[trigger] entries[a]).0 != (#[trigger] entries[b]).0
}

/// Some entry carries the identity.
spec fn contains_id(entries: Seq<(FederationId, ConfigDocument)>, id: FederationId) -> bool {
    exists|j: int| 0 <= j < entries.len() && (#[trigger] entries[j]).0 == id
}

/// The mapping the backing entries denote, later entries winning.
spec fn cache_map(entries: Seq<(FederationId, ConfigDocument)>) -> Map<FederationId, DocModel>
    decreases entries.len(),
{
    if entries.len() == 0 {
        Map::empty()
    } else {
        cache_map(entries.drop_last()).insert(entries.last().0, entries.last().1@)
    }
}

/// The store of fetched configuration documents: at most one document per
/// federation identity.
#[derive(Debug)]
pub struct FederationConfigCache {
    entries: Vec<(FederationId, ConfigDocument)>,
}

impl View for FederationConfigCache {
    type V = Map<FederationId, DocModel>;

    closed spec fn view(&self) -> Map<FederationId, DocModel> {
        cache_map(self.entries@)
    }
}

proof fn lemma_cache_map_char(entries: Seq<(FederationId, ConfigDocument)>)
    ensures
        forall|k: FederationId|
            (#[trigger] cache_map(entries).dom().contains(k)) <==> contains_id(entries, k),
        unique_ids(entries) ==> forall|j: int|
            0 <= j < entries.len() ==> cache_map(entries)[(#[trigger] entries[j]).0] == entries[j].1@,
    decreases entries.len(),
{
    if entries.len() > 0 {
        let rest = entries.drop_last();
        lemma_cache_map_char(rest);
        assert forall|k: FederationId| #[trigger]
            cache_map(entries).dom().contains(k) implies contains_id(entries, k) by {
            if k == entries.last().0 {
                assert((entries[entries.len() - 1]).0 == k);
            } else {
                assert(cache_map(rest).dom().contains(k));
                let j = choose|j: int| 0 <= j < rest.len() && (#[trigger] rest[j]).0 == k;
                assert((entries[j]).0 == k);
            }
        }
        assert forall|k: FederationId|
            contains_id(entries, k) implies #[trigger] cache_map(entries).dom().contains(k) by {
            let j = choose|j: int| 0 <= j < entries.len() && (#[trigger] entries[j]).0 == k;
            if j < entries.len() - 1 {
                assert((rest[j]).0 == k);
                assert(contains_id(rest, k));
            }
        }
        if unique_ids(entries) {
            assert(unique_ids(rest)) by {
                assert forall|a: int, b: int|
                    0 <= a < b < rest.len() implies (#[trigger] rest[a]).0 != (
                    #[trigger] rest[b]).0 by {
                    assert((entries[a]).0 != (entries[b]).0);
                }
            }
            assert forall|j: int|
                0 <= j < entries.len() implies cache_map(entries)[(#[trigger] entries[j]).0]
                == entries[j].1@ by {
                if j < entries.len() - 1 {
                    assert(rest[j] == entries[j]);
                    assert(cache_map(rest)[(entries[j]).0] == entries[j].1@);
                    assert((entries[j]).0 != (entries[entries.len() - 1]).0);
                }
            }
        }
    }
}

impl FederationConfigCache {
    /// Well-formed: at most one entry per identity.
    pub closed spec fn inv(&self) -> bool {
        unique_ids(self.entries@)
    }

    /// A fresh store holding nothing.
    pub fn empty() -> (r: Self)
        ensures
            r.inv(),
            r@ == Map::<FederationId, DocModel>::empty(),
    {
        FederationConfigCache { entries: Vec::new() }
    }

    /// The optimistic read phase of a cached fetch, run under the shared
    /// lock: the document stored for the identity, copied, with no network
    /// touched; nothing on a miss.
    pub fn lookup(&self, id: FederationId) -> (r: Option<ConfigDocument>)
        requires
            self.inv(),
        ensures
            match r {
                Some(d) => self@.dom().contains(id) && d@ == self@[id],
                None => !self@.dom().contains(id),
            },
    {
        let mut i: usize = 0;
        while i < self.entries.len()
            invariant
                self.inv(),
                i <= self.entries@.len(),
                forall|j: int| 0 <= j < i ==> (#[trigger] self.entries@[j]).0 != id,
            decreases self.entries@.len() - i,
        {
            let p = &self.entries[i];
            if p.0 == id {
                proof {
                    lemma_cache_map_char(self.entries@);
                    assert((self.entries@[i as int]).0 == id);
                    assert(contains_id(self.entries@, id));
                    assert(self@ == cache_map(self.entries@));
                    assert(cache_map(self.entries@).dom().contains(id));
                    assert(unique_ids(self.entries@));
                    assert(cache_map(self.entries@)[(self.entries@[i as int]).0]
                        == self.entries@[i as int].1@);
                }
                return Some(clone_document(&p.1));
            }
            i = i + 1;
        }
        proof {
            lemma_cache_map_char(self.entries@);
            assert(!contains_id(self.entries@, id)) by {
                if contains_id(self.entries@, id) {
                    let j = choose|j: int|
                        0 <= j < self.entries@.len() && (#[trigger] self.entries@[j]).0 == id;
                }
            }
            assert(self@ == cache_map(self.entries@));
        }
        None
    }

    /// The commit phase of a cached fetch, run under the exclusive lock:
    /// store the freshly fetched document for the identity, overwriting
    /// unconditionally, and report whether the store already held a
    /// different document — the drift diagnostic, never an error.
    pub fn commit(&mut self, id: FederationId, doc: ConfigDocument) -> (drift: bool)
        requires
            old(self).inv(),
        ensures
            final(self).inv(),
            final(self)@ == old(self)@.insert(id, doc@),
            drift == drift_of(old(self)@, id, doc@),
    {
        let ghost e0 = self.entries@;
        let n = self.entries.len();
        let mut i: usize = 0;
        while i < n
            invariant
                self.inv(),
                self.entries@ == e0,
                old(self).entries@ == e0,
                n == e0.len(),
                i <= n,
                forall|j: int| 0 <= j < i ==> (#[trigger] e0[j]).0 != id,
            decreases n - i,
        {
            if self.entries[i].0 == id {
                let same = doc_eq(&self.entries[i].1, &doc);
                self.entries[i] = (id, doc);
                proof {
                    let e1 = self.entries@;
                    let m1 = cache_map(e1);
                    let mt = cache_map(e0).insert(id, doc@);
                    assert(e1 == e0.update(i as int, (id, doc)));
                    assert((e0[i as int]).0 == id);
                    assert forall|a: int, b: int|
                        0 <= a < b < e1.len() implies (#[trigger] e1[a]).0 != (
                    #[trigger] e1[b]).0 by {
                        assert((e1[a]).0 == (e0[a]).0);
                        assert((e1[b]).0 == (e0[b]).0);
                    }
                    lemma_cache_map_char(e0);
                    lemma_cache_map_char(e1);
                    assert forall|k: FederationId| #[trigger]
                        m1.dom().contains(k) implies mt.dom().contains(k) by {
                        assert(contains_id(e1, k));
                        let j = choose|j: int| 0 <= j < e1.len() && (#[trigger] e1[j]).0 == k;
                        assert((e0[j]).0 == k);
                        assert(contains_id(e0, k));
                        assert(cache_map(e0).dom().contains(k));
                    }
                    assert forall|k: FederationId| #[trigger]
                        mt.dom().contains(k) implies m1.dom().contains(k) by {
                        if k == id {
                            assert((e1[i as int]).0 == id);
                        } else {
                            assert(cache_map(e0).dom().contains(k));
                            assert(contains_id(e0, k));
                            let j = choose|j: int| 0 <= j < e0.len() && (#[trigger] e0[j]).0 == k;
                            assert((e1[j]).0 == k);
                        }
                        assert(contains_id(e1, k));
                        assert(cache_map(e1).dom().contains(k));
                    }
                    assert forall|k: FederationId| #[trigger]
                        m1.dom().contains(k) implies m1[k] == mt[k] by {
                        assert(contains_id(e1, k));
                        let j = choose|j: int| 0 <= j < e1.len() && (#[trigger] e1[j]).0 == k;
                        assert(m1[(e1[j]).0] == e1[j].1@);
                        if k == id {
                            assert(j == i as int) by {
                                if j != i as int {
                                    assert((e1[j]).0 != (e1[i as int]).0);
                                }
                            }
                        } else {
                            assert(j != i as int);
                            assert(e1[j] == e0[j]);
                            assert(cache_map(e0)[(e0[j]).0] == e0[j].1@);
                        }
                    }
                    assert(m1 =~= mt);
                    assert(m1 == mt);
                    assert(self@ == m1);
                    assert(old(self)@ == cache_map(e0));
                    assert(contains_id(e0, id));
                    assert(cache_map(e0).dom().contains(id));
                    assert(cache_map(e0)[(e0[i as int]).0] == e0[i as int].1@);
                    assert(cache_map(e0)[id] == e0[i as int].1@);
                }
                return !same;
            }
            i = i + 1;
        }
        self.entries.push((id, doc));
        proof {
            let e1 = self.entries@;
            assert(e1.drop_last() =~= e0);
            assert(e1.last() == (id, doc));
            assert forall|a: int, b: int|
                0 <= a < b < e1.len() implies (#[trigger] e1[a]).0 != (#[trigger] e1[b]).0 by {
                if b < e1.len() - 1 {
                    assert((e1[a]).0 == (e0[a]).0);
                    assert((e1[b]).0 == (e0[b]).0);
                } else {
                    assert((e1[a]).0 == (e0[a]).0);
                    assert((e0[a]).0 != id);
                }
            }
            assert(!contains_id(e0, id)) by {
                if contains_id(e0, id) {
                    let j = choose|j: int| 0 <= j < e0.len() && (#[trigger] e0[j]).0 == id;
                }
            }
            lemma_cache_map_char(e0);
            assert(!cache_map(e0).dom().contains(id));
            assert(cache_map(e1) == cache_map(e0).insert(id, doc@));
            assert(self@ == cache_map(e1));
            assert(old(self)@ == cache_map(e0));
        }
        false
    }
}

impl Default for FederationConfigCache {
    /// A fresh store holding nothing.
    fn default() -> (r: Self)
        ensures
            r.inv(),
            r@ == Map::<FederationId, DocModel>::empty(),
    {
        FederationConfigCache::empty()
    }
}

/// The store after a run of commits of fetched documents for one identity,
/// in the order the exclusive lock serialized them.
pub open spec fn commit_all(
    m: Map<FederationId, DocModel>,
    id: FederationId,
    ds: Seq<DocModel>,
) -> Map<FederationId, DocModel>
    decreases ds.len(),
{
    if ds.len() == 0 {
        m
    } else {
        commit_all(m, id, ds.drop_last()).insert(id, ds.last())
    }
}

/// After one successful fetch for an identity is committed, the store holds
/// that very document, a fetch served from the store returns it unchanged,
/// and committing an unchanged re-fetch reports no drift.
pub proof fn lemma_repeat_fetch_no_drift(
    m: Map<FederationId, DocModel>,
    id: FederationId,
    d: DocModel,
)
    ensures
        m.insert(id, d).dom().contains(id),
        m.insert(id, d)[id] == d,
        !drift_of(m.insert(id, d), id, d),
{
}

/// When the remote document changed between two fetches for one identity,
/// the second commit reports drift exactly when the two documents differ,
/// and the store afterwards holds the newer document.
pub proof fn lemma_drift_on_change(
    m: Map<FederationId, DocModel>,
    id: FederationId,
    d1: DocModel,
    d2: DocModel,
)
    ensures
        drift_of(m.insert(id, d1), id, d2) == (d1 != d2),
        m.insert(id, d1).insert(id, d2)[id] == d2,
{
}

/// Racing first-time fetches for one identity: in whatever order the
/// exclusive lock serialized their commits, the store afterwards holds for
/// the identity exactly one document, the last committed, which is one of
/// the fetched ones.
pub proof fn lemma_racing_commits(
    m: Map<FederationId, DocModel>,
    id: FederationId,
    ds: Seq<DocModel>,
)
    requires
        ds.len() > 0,
    ensures
        commit_all(m, id, ds).dom().contains(id),
        commit_all(m, id, ds)[id] == ds.last(),
        ds.contains(commit_all(m, id, ds)[id]),
{
    assert(ds[ds.len() - 1] == ds.last());
}

} // verus!
