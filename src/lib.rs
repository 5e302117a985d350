//! Structured, serializable forms of instrumentation records.
//!
//! Every record comes in two shapes: a live one that borrows from the source
//! for the length of a callback, and a materialized one that owns its data.
use vstd::prelude::*;

pub mod cow_string;
pub mod fields;
pub mod id;
pub mod level;
pub mod metadata;
pub mod record_map;
pub mod value;
pub mod visitor;

verus! {

} // verus!
