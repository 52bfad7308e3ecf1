//! Configuration documents: assembly from a fetched raw document, payload
//! rendering, structural equality and copying.
use vstd::prelude::*;

use crate::errors::ObserverError;
use crate::hexcode::hex_decode_spec;
use crate::hexcode::hex_encode;
use crate::hexcode::hex_of;
use crate::hexcode::lemma_hex_round_trip;
use crate::registry::known_kind;
use crate::registry::known_kind_exec;

verus! {

/// One module's configuration payload: decoded to the decoder's own JSON
/// text where a decoder resolved the kind, the opaque raw bytes otherwise.
#[derive(Debug)]
pub enum ModulePayload {
    RawBytes(Vec<u8>),
    Decoded(String),
}

/// The mathematical model of a `ModulePayload`.
pub enum PayloadModel {
    RawBytes(Seq<u8>),
    Decoded(Seq<char>),
}

impl View for ModulePayload {
    type V = PayloadModel;

    open spec fn view(&self) -> PayloadModel {
        match self {
            ModulePayload::RawBytes(b) => PayloadModel::RawBytes(b@),
            ModulePayload::Decoded(s) => PayloadModel::Decoded(s@),
        }
    }
}

/// One module of a configuration document: its kind tag and its payload.
#[derive(Debug)]
pub struct ModuleConfigEntry {
    pub kind: String,
    pub payload: ModulePayload,
}

/// The mathematical model of a `ModuleConfigEntry`.
pub struct EntryModel {
    pub kind: Seq<char>,
    pub payload: PayloadModel,
}

impl View for ModuleConfigEntry {
    type V = EntryModel;

    open spec fn view(&self) -> EntryModel {
        EntryModel { kind: self.kind@, payload: self.payload@ }
    }
}

/// A resolved configuration document: the global parameters' JSON text and
/// the modules by instance id, in the raw document's order.
#[derive(Debug)]
pub struct ConfigDocument {
    pub global: String,
    pub modules: Vec<(u16, ModuleConfigEntry)>,
}

/// The mathematical model of a `ConfigDocument`.
pub struct DocModel {
    pub global: Seq<char>,
    pub modules: Seq<(u16, EntryModel)>,
}

impl View for ConfigDocument {
    type V = DocModel;

    open spec fn view(&self) -> DocModel {
        DocModel {
            global: self.global@,
            modules: self.modules@.map_values(|p: (u16, ModuleConfigEntry)| (p.0, p.1@)),
        }
    }
}

/// One module of a fetched raw document: instance id, kind tag, the raw
/// payload bytes, and the decoder's JSON text where the embedding ran a
/// decoder for this instance.
#[derive(Debug)]
pub struct RawModule {
    pub id: u16,
    pub kind: String,
    pub raw: Vec<u8>,
    pub decoded: Option<String>,
}

/// The mathematical model of a `RawModule`.
pub struct RawModuleModel {
    pub id: u16,
    pub kind: Seq<char>,
    pub raw: Seq<u8>,
    pub decoded: Option<Seq<char>>,
}

impl View for RawModule {
    type V = RawModuleModel;

    open spec fn view(&self) -> RawModuleModel {
        RawModuleModel {
            id: self.id,
            kind: self.kind@,
            raw: self.raw@,
            decoded: match self.decoded {
                Some(s) => Some(s@),
                None => None,
            },
        }
    }
}

/// A raw module decodes cleanly: where its kind has a decode capability,
/// the decoder produced a value.
pub open spec fn module_ok(m: RawModuleModel) -> bool {
    known_kind(m.kind) is Some ==> m.decoded is Some
}

/// The document entry one raw module yields: the decoded JSON where the
/// registry resolved the kind and the decoder answered, the raw bytes for
/// any kind outside the known set.
pub open spec fn module_entry(m: RawModuleModel) -> EntryModel {
    EntryModel {
        kind: m.kind,
        payload: if known_kind(m.kind) is Some && m.decoded is Some {
            PayloadModel::Decoded(m.decoded->0)
        } else {
            PayloadModel::RawBytes(m.raw)
        },
    }
}

/// The JSON payload text of one module entry: the decoder's own JSON for a
/// decoded module, the lowercase hex of the raw bytes otherwise.
pub open spec fn payload_json_of(p: PayloadModel) -> Seq<char> {
    match p {
        PayloadModel::RawBytes(b) => hex_of(b),
        PayloadModel::Decoded(s) => s,
    }
}

/// Render one module's payload to its JSON text.
pub fn render_payload(p: &ModulePayload) -> (r: String)
    ensures
        r@ == payload_json_of(p@),
{
    match p {
        ModulePayload::RawBytes(b) => hex_encode(b),
        ModulePayload::Decoded(s) => s.clone(),
    }
}

/// A module whose kind tag is outside the known set keeps its raw bytes:
/// its JSON payload is their lowercase hex encoding, and decoding that hex
/// text reproduces the original bytes exactly.
pub proof fn lemma_unknown_kind_round_trip(m: RawModuleModel)
    requires
        known_kind(m.kind) is None,
    ensures
        module_entry(m).payload == PayloadModel::RawBytes(m.raw),
        payload_json_of(module_entry(m).payload) == hex_of(m.raw),
        hex_decode_spec(hex_of(m.raw)) == Some(m.raw),
{
    lemma_hex_round_trip(m.raw);
}

/// Payload rendering is value-stable: one payload model has one JSON text,
/// however often it is rendered.
pub proof fn lemma_render_stable(p: PayloadModel, q: PayloadModel)
    requires
        p == q,
    ensures
        payload_json_of(p) == payload_json_of(q),
{
}

/// Document assembly is value-stable: two documents assembled from the same
/// raw input — the same global text and the same module models — have the
/// very same model, however often the resolver runs.
pub proof fn lemma_assembly_stable(
    ms: Seq<RawModuleModel>,
    g: Seq<char>,
    d1: DocModel,
    d2: DocModel,
)
    requires
        d1.global == g,
        d2.global == g,
        d1.modules.len() == ms.len(),
        d2.modules.len() == ms.len(),
        forall|i: int|
            0 <= i < ms.len() ==> d1.modules[i] == ((#[trigger] ms[i]).id, module_entry(ms[i])),
        forall|i: int|
            0 <= i < ms.len() ==> d2.modules[i] == ((#[trigger] ms[i]).id, module_entry(ms[i])),
    ensures
        d1 == d2,
{
    assert forall|i: int| 0 <= i < ms.len() implies d1.modules[i] == d2.modules[i] by {
        assert(d1.modules[i] == ((ms[i]).id, module_entry(ms[i])));
    }
    assert(d1.modules =~= d2.modules);
}

/// Assemble the document for a fetched raw document. Each module with a
/// known kind must carry its decoder's value, else the whole document is a
/// decode failure; a module with an unknown kind degrades to its raw bytes
/// and is never an error.
pub fn assemble_document(global: String, modules: &Vec<RawModule>) -> (r: Result<
    ConfigDocument,
    ObserverError,
>)
    ensures
        (forall|i: int| 0 <= i < modules@.len() ==> module_ok(#[trigger] modules@[i]@)) <==> r
            is Ok,
        r matches Ok(doc) ==> {
            &&& doc@.global == global@
            &&& doc@.modules.len() == modules@.len()
            &&& forall|i: int|
                0 <= i < modules@.len() ==> doc@.modules[i] == (
                    (#[trigger] modules@[i]@).id,
                    module_entry(modules@[i]@),
                )
        },
        r is Err ==> r == Err::<ConfigDocument, ObserverError>(ObserverError::Decode),
{
    let mut out: Vec<(u16, ModuleConfigEntry)> = Vec::new();
    let mut i: usize = 0;
    while i < modules.len()
        invariant
            i <= modules@.len(),
            out@.len() == i,
            forall|j: int| 0 <= j < i ==> module_ok(#[trigger] modules@[j]@),
            forall|j: int|
                0 <= j < i ==> (#[trigger] out@[j].0, out@[j].1@) == (
                    modules@[j]@.id,
                    module_entry(modules@[j]@),
                ),
        decreases modules@.len() - i,
    {
        let m = &modules[i];
        match known_kind_exec(&m.kind) {
            Some(_) => {
                match &m.decoded {
                    Some(d) => {
                        let entry = ModuleConfigEntry {
                            kind: m.kind.clone(),
                            payload: ModulePayload::Decoded(d.clone()),
                        };
                        out.push((m.id, entry));
                    },
                    None => {
                        assert(!module_ok(modules@[i as int]@));
                        return Err(ObserverError::Decode);
                    },
                }
            },
            None => {
                let entry = ModuleConfigEntry {
                    kind: m.kind.clone(),
                    payload: ModulePayload::RawBytes(clone_bytes(&m.raw)),
                };
                out.push((m.id, entry));
            },
        }
        i = i + 1;
    }
    let doc = ConfigDocument { global, modules: out };
    Ok(doc)
}

/// A copy of a byte vector with the very same contents.
pub fn clone_bytes(v: &Vec<u8>) -> (r: Vec<u8>)
    ensures
        r@ == v@,
{
    let mut r: Vec<u8> = Vec::new();
    let mut i: usize = 0;
    while i < v.len()
        invariant
            i <= v@.len(),
            r@ == v@.take(i as int),
        decreases v@.len() - i,
    {
        r.push(v[i]);
        proof {
            assert(r@ =~= v@.take(i as int + 1));
        }
        i = i + 1;
    }
    proof {
        assert(v@.take(v@.len() as int) =~= v@);
    }
    r
}

/// Structural equality of two byte vectors, decided on the models.
pub fn bytes_eq(a: &Vec<u8>, b: &Vec<u8>) -> (r: bool)
    ensures
        r == (a@ == b@),
{
    if a.len() != b.len() {
        return false;
    }
    let mut i: usize = 0;
    while i < a.len()
        invariant
            a@.len() == b@.len(),
            i <= a@.len(),
            forall|j: int| 0 <= j < i ==> a@[j] == b@[j],
        decreases a@.len() - i,
    {
        if a[i] != b[i] {
            return false;
        }
        i = i + 1;
    }
    proof {
        assert(a@ =~= b@);
    }
    true
}

/// Structural equality of two payloads, decided on the models.
pub fn payload_eq(a: &ModulePayload, b: &ModulePayload) -> (r: bool)
    ensures
        r == (a@ == b@),
{
    match (a, b) {
        (ModulePayload::RawBytes(x), ModulePayload::RawBytes(y)) => bytes_eq(x, y),
        (ModulePayload::Decoded(x), ModulePayload::Decoded(y)) => x.eq(y),
        _ => false,
    }
}

/// Structural equality of two module entries, decided on the models.
pub fn entry_eq(a: &ModuleConfigEntry, b: &ModuleConfigEntry) -> (r: bool)
    ensures
        r == (a@ == b@),
{
    a.kind.eq(&b.kind) && payload_eq(&a.payload, &b.payload)
}

/// Structural equality of two documents, decided on the models. Drift
/// detection between two fetches of one federation rests on this.
pub fn doc_eq(a: &ConfigDocument, b: &ConfigDocument) -> (r: bool)
    ensures
        r == (a@ == b@),
{
    if !a.global.eq(&b.global) {
        return false;
    }
    if a.modules.len() != b.modules.len() {
        proof {
            assert(a@.modules.len() == a.modules@.len());
            assert(b@.modules.len() == b.modules@.len());
        }
        return false;
    }
    let mut i: usize = 0;
    while i < a.modules.len()
        invariant
            a@.modules.len() == b@.modules.len(),
            a@.modules.len() == a.modules@.len(),
            b@.modules.len() == b.modules@.len(),
            i <= a.modules@.len(),
            forall|j: int| 0 <= j < i ==> a@.modules[j] == b@.modules[j],
        decreases a.modules@.len() - i,
    {
        let pa = &a.modules[i];
        let pb = &b.modules[i];
        if pa.0 != pb.0 {
            assert(a@.modules[i as int] != b@.modules[i as int]);
            return false;
        }
        if !entry_eq(&pa.1, &pb.1) {
            assert(a@.modules[i as int] != b@.modules[i as int]);
            return false;
        }
        assert(a@.modules[i as int] == b@.modules[i as int]);
        i = i + 1;
    }
    proof {
        assert(a@.modules =~= b@.modules);
    }
    true
}

/// A copy of a module entry whose model is the very same.
pub fn clone_entry(e: &ModuleConfigEntry) -> (r: ModuleConfigEntry)
    ensures
        r@ == e@,
{
    ModuleConfigEntry {
        kind: e.kind.clone(),
        payload: match &e.payload {
            ModulePayload::RawBytes(b) => ModulePayload::RawBytes(clone_bytes(b)),
            ModulePayload::Decoded(s) => ModulePayload::Decoded(s.clone()),
        },
    }
}

/// A copy of a document whose model is the very same.
pub fn clone_document(d: &ConfigDocument) -> (r: ConfigDocument)
    ensures
        r@ == d@,
{
    let mut modules: Vec<(u16, ModuleConfigEntry)> = Vec::new();
    let mut i: usize = 0;
    while i < d.modules.len()
        invariant
            i <= d.modules@.len(),
            modules@.len() == i,
            forall|j: int|
                0 <= j < i ==> (#[trigger] modules@[j].0, modules@[j].1@) == (
                    d.modules@[j].0,
                    d.modules@[j].1@,
                ),
        decreases d.modules@.len() - i,
    {
        let p = &d.modules[i];
        modules.push((p.0, clone_entry(&p.1)));
        i = i + 1;
    }
    let r = ConfigDocument { global: d.global.clone(), modules };
    proof {
        assert(r@.modules =~= d@.modules);
    }
    r
}

} // verus!
