//! The extraction itself: a generic, per-type conversion primitive, the
//! field-by-field walk over the schema, and the round-trip law.

use vstd::prelude::*;

use crate::record::{record_of, GroomingRecord};
use crate::schema::{
    all_fields_pass, field_name, field_passes, first_invalid, first_missing, schema,
};
use crate::state_map::GroomingStateMap;
use crate::value::{bool_of, i32_of, str_of, u8_of, DynValue};

verus! {

/// Why an extraction failed, with the name of the offending field.
#[derive(Debug, Clone)]
pub enum ExtractionError {
    /// The named schema field is absent from the map.
    Missing(String),
    /// The named schema field is present, but its value has the wrong shape;
    /// the second member is a human-readable conversion diagnostic.
    Invalid(String, String),
}

/// A primitive type a dynamic value can be converted into. `of_dyn` is the
/// mathematical conversion; `from_dyn` performs it, succeeding exactly where
/// `of_dyn` is defined.
pub trait FromDyn: View + Sized {
    /// What the conversion yields on each dynamic value, if anything.
    spec fn of_dyn(v: DynValue) -> Option<Self::V>;

    /// Converts a dynamic value, or reports a conversion diagnostic.
    fn from_dyn(v: &DynValue) -> (r: Result<Self, String>)
        ensures
            match r {
                Ok(t) => Self::of_dyn(*v) == Some(t@),
                Err(_) => Self::of_dyn(*v) is None,
            },
    ;
}

impl FromDyn for i32 {
    open spec fn of_dyn(v: DynValue) -> Option<i32> {
        i32_of(v)
    }

    fn from_dyn(v: &DynValue) -> (r: Result<Self, String>) {
        match v {
            DynValue::Int(i) => {
                let i = *i;
                if i32::MIN as i64 <= i && i <= i32::MAX as i64 {
                    Ok(i as i32)
                } else {
                    Err("number out of range of a 32-bit signed integer".to_owned())
                }
            },
            DynValue::UInt(u) => {
                let u = *u;
                if u <= i32::MAX as u64 {
                    Ok(u as i32)
                } else {
                    Err("number out of range of a 32-bit signed integer".to_owned())
                }
            },
            _ => Err("expected a 32-bit signed integer".to_owned()),
        }
    }
}

impl FromDyn for u8 {
    open spec fn of_dyn(v: DynValue) -> Option<u8> {
        u8_of(v)
    }

    fn from_dyn(v: &DynValue) -> (r: Result<Self, String>) {
        match v {
            DynValue::Int(i) => {
                let i = *i;
                if 0 <= i && i <= u8::MAX as i64 {
                    Ok(i as u8)
                } else {
                    Err("number out of range of an 8-bit unsigned integer".to_owned())
                }
            },
            DynValue::UInt(u) => {
                let u = *u;
                if u <= u8::MAX as u64 {
                    Ok(u as u8)
                } else {
                    Err("number out of range of an 8-bit unsigned integer".to_owned())
                }
            },
            _ => Err("expected an 8-bit unsigned integer".to_owned()),
        }
    }
}

impl FromDyn for bool {
    open spec fn of_dyn(v: DynValue) -> Option<bool> {
        bool_of(v)
    }

    fn from_dyn(v: &DynValue) -> (r: Result<Self, String>) {
        match v {
            DynValue::Bool(b) => Ok(*b),
            _ => Err("expected a boolean".to_owned()),
        }
    }
}

impl FromDyn for String {
    open spec fn of_dyn(v: DynValue) -> Option<Seq<char>> {
        str_of(v)
    }

    fn from_dyn(v: &DynValue) -> (r: Result<Self, String>) {
        match v {
            DynValue::Str(s) => Ok(s.clone()),
            _ => Err("expected a string".to_owned()),
        }
    }
}

/// Pulls one typed value out of the map: absence of the key is a `Missing`
/// error, a value of the wrong shape an `Invalid` error.
pub fn extract_field<T: FromDyn>(source: &GroomingStateMap, key: &str) -> (r: Result<
    T,
    ExtractionError,
>)
    requires
        source.wf(),
    ensures
        match r {
            Ok(t) => source@.contains_key(key@) && T::of_dyn(source@[key@]) == Some(t@),
            Err(e) => match e {
                ExtractionError::Missing(k) => k@ == key@ && !source@.contains_key(key@),
                ExtractionError::Invalid(k, _) => k@ == key@ && source@.contains_key(key@)
                    && T::of_dyn(source@[key@]) is None,
            },
        },
{
    match source.get(key) {
        None => Err(ExtractionError::Missing(key.to_owned())),
        Some(v) => match T::from_dyn(v) {
            Ok(t) => Ok(t),
            Err(msg) => Err(ExtractionError::Invalid(key.to_owned(), msg)),
        },
    }
}

impl GroomingStateMap {
    /// Extracts the typed grooming record this map describes.
    ///
    /// The schema fields are checked in declaration order and the first
    /// failure wins: the result is `Ok` exactly when every field is present
    /// with a value of the right shape, a `Missing` error names the first
    /// field whose key is absent, and an `Invalid` error names the first
    /// field whose value has the wrong shape. The map itself is not changed.
    pub fn to_typed(&self) -> (r: Result<GroomingRecord, ExtractionError>)
        requires
            self.wf(),
        ensures
            r is Ok <==> all_fields_pass(self@),
            r matches Ok(rec) ==> record_of(self@, rec),
            forall|i: int|
                first_missing(self@, i) ==> (r matches Err(ExtractionError::Missing(k))
                    && k@ == field_name(i)),
            forall|i: int|
                first_invalid(self@, i) ==> (r matches Err(ExtractionError::Invalid(k, _))
                    && k@ == field_name(i)),
            r matches Err(ExtractionError::Missing(k)) ==> exists|i: int|
                first_missing(self@, i) && k@ == field_name(i),
            r matches Err(ExtractionError::Invalid(k, _)) ==> exists|i: int|
                first_invalid(self@, i) && k@ == field_name(i),
    {
        let fur_length_cm: i32 = match extract_field(self, "fur_length_cm") {
            Ok(v) => v,
            Err(e) => {
                proof {
                    fail_at(self@, 0);
                }
                return Err(e);
            },
        };
        let brush_type: String = match extract_field(self, "brush_type") {
            Ok(v) => v,
            Err(e) => {
                proof {
                    fail_at(self@, 1);
                }
                return Err(e);
            },
        };
        let shedding_score: u8 = match extract_field(self, "shedding_score") {
            Ok(v) => v,
            Err(e) => {
                proof {
                    fail_at(self@, 2);
                }
                return Err(e);
            },
        };
        let nail_trimmed: bool = match extract_field(self, "nail_trimmed") {
            Ok(v) => v,
            Err(e) => {
                proof {
                    fail_at(self@, 3);
                }
                return Err(e);
            },
        };
        let favorite_spot: String = match extract_field(self, "favorite_spot") {
            Ok(v) => v,
            Err(e) => {
                proof {
                    fail_at(self@, 4);
                }
                return Err(e);
            },
        };
        proof {
            assert forall|i: int| 0 <= i < schema().len() implies field_passes(self@, i) by {
                assert(field_passes(self@, 0));
                assert(field_passes(self@, 1));
                assert(field_passes(self@, 2));
                assert(field_passes(self@, 3));
                assert(field_passes(self@, 4));
            }
        }
        Ok(GroomingRecord { fur_length_cm, brush_type, shedding_score, nail_trimmed, favorite_spot })
    }
}

/// When fields before `at` pass and field `at` fails, `at` is the one and
/// only first failure: no other position is a first missing or invalid field.
proof fn fail_at(m: Map<Seq<char>, DynValue>, at: int)
    requires
        0 <= at < schema().len(),
        forall|j: int| 0 <= j < at ==> field_passes(m, j),
        !field_passes(m, at),
    ensures
        !all_fields_pass(m),
        forall|i: int| first_missing(m, i) ==> i == at,
        forall|i: int| first_invalid(m, i) ==> i == at,
        !m.contains_key(field_name(at)) ==> first_missing(m, at),
        m.contains_key(field_name(at)) ==> first_invalid(m, at),
{
    assert forall|i: int| first_missing(m, i) implies i == at by {
        if i < at {
            assert(field_passes(m, i));
        }
        if at < i {
            assert(field_passes(m, at));
        }
    }
    assert forall|i: int| first_invalid(m, i) implies i == at by {
        if i < at {
            assert(field_passes(m, i));
        }
        if at < i {
            assert(field_passes(m, at));
        }
    }
}

impl GroomingRecord {
    /// Writes the record back out as a dynamic map: one entry per schema
    /// field, holding the field's value in dynamic form.
    pub fn to_state_map(&self) -> (m: GroomingStateMap)
        ensures
            m.wf(),
            record_of(m@, *self),
            all_fields_pass(m@),
    {
        let mut m = GroomingStateMap::empty();
        m.set("fur_length_cm".to_owned(), DynValue::Int(self.fur_length_cm as i64));
        m.set("brush_type".to_owned(), DynValue::Str(self.brush_type.clone()));
        m.set("shedding_score".to_owned(), DynValue::Int(self.shedding_score as i64));
        m.set("nail_trimmed".to_owned(), DynValue::Bool(self.nail_trimmed));
        m.set("favorite_spot".to_owned(), DynValue::Str(self.favorite_spot.clone()));
        proof {
            crate::schema::lemma_schema_names_distinct();
            assert forall|i: int| 0 <= i < schema().len() implies field_passes(m@, i) by {
                assert(field_passes(m@, 0));
                assert(field_passes(m@, 1));
                assert(field_passes(m@, 2));
                assert(field_passes(m@, 3));
                assert(field_passes(m@, 4));
            }
        }
        m
    }
}

/// The round trip is lossless: any two records that both read back the same
/// dynamic map — in particular a record and the one extracted from the map it
/// was written to — agree on every field.
pub proof fn lemma_round_trip(
    m: Map<Seq<char>, DynValue>,
    rec1: GroomingRecord,
    rec2: GroomingRecord,
)
    requires
        record_of(m, rec1),
        record_of(m, rec2),
    ensures
        rec1.fur_length_cm == rec2.fur_length_cm,
        rec1.brush_type@ == rec2.brush_type@,
        rec1.shedding_score == rec2.shedding_score,
        rec1.nail_trimmed == rec2.nail_trimmed,
        rec1.favorite_spot@ == rec2.favorite_spot@,
{
}

} // verus!
