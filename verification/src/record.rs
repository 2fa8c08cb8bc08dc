//! The statically typed side: a grooming record with five fixed fields, and
//! the predicate tying a record to the dynamic map it was read from.

use vstd::prelude::*;

use crate::value::{bool_of, i32_of, str_of, u8_of, DynValue};

verus! {

/// One cat's grooming record: the fixed-shape, statically typed aggregate
/// that extraction produces from a dynamic map.
#[derive(Debug, Clone)]
pub struct GroomingRecord {
    /// Measured length of the cat's fur, in centimeters.
    pub fur_length_cm: i32,
    /// The brush used, e.g. "slicker", "pin", "metal".
    pub brush_type: String,
    /// A 0-10 shedding rating by intent; only the type shape is checked, so
    /// any 8-bit value is accepted.
    pub shedding_score: u8,
    /// Whether the nail trimming was done.
    pub nail_trimmed: bool,
    /// Where the cat likes to be groomed.
    pub favorite_spot: String,
}

/// Whether `rec` holds exactly the converted values of the five schema fields
/// of the map `m`: each field name maps to a value that converts, and the
/// record holds the conversion.
pub open spec fn record_of(m: Map<Seq<char>, DynValue>, rec: GroomingRecord) -> bool {
    &&& m.contains_key("fur_length_cm"@) && i32_of(m["fur_length_cm"@]) == Some(
        rec.fur_length_cm,
    )
    &&& m.contains_key("brush_type"@) && str_of(m["brush_type"@]) == Some(rec.brush_type@)
    &&& m.contains_key("shedding_score"@) && u8_of(m["shedding_score"@]) == Some(
        rec.shedding_score,
    )
    &&& m.contains_key("nail_trimmed"@) && bool_of(m["nail_trimmed"@]) == Some(rec.nail_trimmed)
    &&& m.contains_key("favorite_spot"@) && str_of(m["favorite_spot"@]) == Some(
        rec.favorite_spot@,
    )
}

} // verus!
