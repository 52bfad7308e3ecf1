//! The JSON-compatible cell values that the query projector produces.
use vstd::prelude::*;

verus! {

/// A JSON-compatible scalar as the query projector produces it. A floating
/// value is carried as the bit pattern of the driver's eight-byte reading;
/// only the embedding turns it into a printed number.
#[derive(Debug)]
pub enum JsonValue {
    Null,
    Bool(bool),
    Int(i64),
    Float(u64),
    Str(String),
}

/// The mathematical model of a `JsonValue`.
pub enum JsonModel {
    Null,
    Bool(bool),
    Int(int),
    Float(u64),
    Str(Seq<char>),
}

impl View for JsonValue {
    type V = JsonModel;

    open spec fn view(&self) -> JsonModel {
        match self {
            JsonValue::Null => JsonModel::Null,
            JsonValue::Bool(b) => JsonModel::Bool(*b),
            JsonValue::Int(i) => JsonModel::Int(*i as int),
            JsonValue::Float(bits) => JsonModel::Float(*bits),
            JsonValue::Str(s) => JsonModel::Str(s@),
        }
    }
}

/// Structural equality of two JSON values, decided on the models.
pub fn json_eq(a: &JsonValue, b: &JsonValue) -> (r: bool)
    ensures
        r == (a@ == b@),
{
    match (a, b) {
        (JsonValue::Null, JsonValue::Null) => true,
        (JsonValue::Bool(x), JsonValue::Bool(y)) => x == y,
        (JsonValue::Int(x), JsonValue::Int(y)) => x == y,
        (JsonValue::Float(x), JsonValue::Float(y)) => x == y,
        (JsonValue::Str(x), JsonValue::Str(y)) => x.eq(y),
        _ => false,
    }
}

} // verus!
