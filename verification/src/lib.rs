//! A gateway service core: a memoizing cache of remotely fetched federation
//! configuration documents with drift detection, a decoder registry with a
//! closed set of known module kinds, document assembly where unknown kinds
//! degrade to hex-rendered raw bytes, and a type-directed projector that
//! turns heterogeneous query rows into JSON-ready values.
use vstd::prelude::*;

pub mod cache;
pub mod document;
pub mod errors;
pub mod hexcode;
pub mod json;
pub mod query;
pub mod registry;

verus! {

} // verus!
