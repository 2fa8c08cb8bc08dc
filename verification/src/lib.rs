//! A small library around one idea: pulling a statically typed record out of a
//! loosely typed, string-keyed value map, validating each field along the way.
//!
//! [`state_map::GroomingStateMap`] is the dynamic side: an owned mapping from
//! string keys to JSON-like [`value::DynValue`]s. [`record::GroomingRecord`] is
//! the static side: five named fields with fixed primitive types. The
//! extraction in [`extract`] walks the field schema in declaration order and
//! either builds a full record or reports the first missing or ill-typed field.

pub mod describe;
pub mod extract;
pub mod record;
pub mod schema;
pub mod state_map;
pub mod value;
