//! The dynamic value type: a tagged, JSON-like value, together with the
//! spec-level conversions that say which values can be read back as which
//! primitive types.

use vstd::prelude::*;

verus! {

/// A dynamically typed, JSON-like value: null, boolean, number, string, or a
/// nested array or object.
///
/// Numbers keep the split between non-negative and negative integer storage
/// that a JSON representation uses: `Int` holds any signed 64-bit value,
/// `UInt` holds values up to 64 unsigned bits. `Float` stands for a number
/// that is not an integer; it carries the IEEE-754 bit pattern of the value
/// so that distinct floats stay distinct, but no conversion ever reads it as
/// a number.
#[derive(Debug)]
pub enum DynValue {
    Null,
    Bool(bool),
    Int(i64),
    UInt(u64),
    Float(u64),
    Str(String),
    Arr(Vec<DynValue>),
    Obj(Vec<(String, DynValue)>),
}

/// The 32-bit signed integer a dynamic value converts to, if any: an integer
/// number in range. Booleans, strings, floats and containers do not convert.
pub open spec fn i32_of(v: DynValue) -> Option<i32> {
    match v {
        DynValue::Int(i) => if i32::MIN <= i && i <= i32::MAX {
            Some(i as i32)
        } else {
            None
        },
        DynValue::UInt(u) => if u <= i32::MAX as u64 {
            Some(u as i32)
        } else {
            None
        },
        _ => None,
    }
}

/// The 8-bit unsigned integer a dynamic value converts to, if any.
pub open spec fn u8_of(v: DynValue) -> Option<u8> {
    match v {
        DynValue::Int(i) => if 0 <= i && i <= u8::MAX {
            Some(i as u8)
        } else {
            None
        },
        DynValue::UInt(u) => if u <= u8::MAX as u64 {
            Some(u as u8)
        } else {
            None
        },
        _ => None,
    }
}

/// The boolean a dynamic value converts to, if any: only a boolean converts.
pub open spec fn bool_of(v: DynValue) -> Option<bool> {
    match v {
        DynValue::Bool(b) => Some(b),
        _ => None,
    }
}

/// The character sequence a dynamic value converts to, if any: only a string
/// converts, and it converts to its own contents.
pub open spec fn str_of(v: DynValue) -> Option<Seq<char>> {
    match v {
        DynValue::Str(s) => Some(s@),
        _ => None,
    }
}

} // verus!
