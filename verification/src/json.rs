//! A structural model of JSON documents, holding as plain values exactly what
//! the pipeline reads and writes: strings, arrays, objects, booleans and
//! null. Anything else a document may carry (numbers, in particular) plays no
//! part in any decision and is folded into one opaque variant.

use vstd::prelude::*;

verus! {

/// One JSON value.
#[derive(Debug)]
pub enum Json {
    Null,
    Bool(bool),
    Str(String),
    Arr(Vec<Json>),
    Obj(Vec<(String, Json)>),
    Other,
}

} // verus!
