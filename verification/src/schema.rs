//! The field schema: the ordered list of (field name, expected type) pairs
//! that drives extraction, and the predicates that say how a given dynamic
//! map fares against it.

use vstd::prelude::*;

use crate::value::{bool_of, i32_of, str_of, u8_of, DynValue};

verus! {

/// The primitive type a schema field expects.
#[derive(Clone, Copy, Debug, PartialEq, Eq, Structural)]
pub enum FieldKind {
    Int32,
    UInt8,
    Boolean,
    Text,
}

/// The record's schema: its five field names with their expected types, in
/// declaration order. Extraction walks this list front to back.
pub open spec fn schema() -> Seq<(Seq<char>, FieldKind)> {
    seq![
        ("fur_length_cm"@, FieldKind::Int32),
        ("brush_type"@, FieldKind::Text),
        ("shedding_score"@, FieldKind::UInt8),
        ("nail_trimmed"@, FieldKind::Boolean),
        ("favorite_spot"@, FieldKind::Text),
    ]
}

/// The name of the schema field at position `i`.
pub open spec fn field_name(i: int) -> Seq<char> {
    schema()[i].0
}

/// Whether a dynamic value converts to the given expected type.
pub open spec fn kind_ok(v: DynValue, k: FieldKind) -> bool {
    match k {
        FieldKind::Int32 => i32_of(v) is Some,
        FieldKind::UInt8 => u8_of(v) is Some,
        FieldKind::Boolean => bool_of(v) is Some,
        FieldKind::Text => str_of(v) is Some,
    }
}

/// Whether schema field `i` passes against the map `m`: its name is present
/// and its value converts to the expected type.
pub open spec fn field_passes(m: Map<Seq<char>, DynValue>, i: int) -> bool {
    m.contains_key(field_name(i)) && kind_ok(m[field_name(i)], schema()[i].1)
}

/// Whether every schema field passes against the map `m`: exactly the maps on
/// which extraction succeeds.
pub open spec fn all_fields_pass(m: Map<Seq<char>, DynValue>) -> bool {
    forall|i: int| 0 <= i < schema().len() ==> field_passes(m, i)
}

/// Whether schema field `i` is the first failure against `m`, and fails by
/// being absent: every earlier field passes, and `i`'s name is not a key.
pub open spec fn first_missing(m: Map<Seq<char>, DynValue>, i: int) -> bool {
    &&& 0 <= i < schema().len()
    &&& !m.contains_key(field_name(i))
    &&& forall|j: int| 0 <= j < i ==> field_passes(m, j)
}

/// Whether schema field `i` is the first failure against `m`, and fails by
/// holding a value of the wrong shape: every earlier field passes, `i`'s name
/// is a key, but its value does not convert.
pub open spec fn first_invalid(m: Map<Seq<char>, DynValue>, i: int) -> bool {
    &&& 0 <= i < schema().len()
    &&& m.contains_key(field_name(i))
    &&& !kind_ok(m[field_name(i)], schema()[i].1)
    &&& forall|j: int| 0 <= j < i ==> field_passes(m, j)
}

/// The five schema field names are pairwise distinct.
pub proof fn lemma_schema_names_distinct()
    ensures
        forall|i: int, j: int| 0 <= i < j < schema().len() ==> field_name(i) != field_name(j),
        "fur_length_cm"@ != "brush_type"@,
        "fur_length_cm"@ != "shedding_score"@,
        "fur_length_cm"@ != "nail_trimmed"@,
        "fur_length_cm"@ != "favorite_spot"@,
        "brush_type"@ != "shedding_score"@,
        "brush_type"@ != "nail_trimmed"@,
        "brush_type"@ != "favorite_spot"@,
        "shedding_score"@ != "nail_trimmed"@,
        "shedding_score"@ != "favorite_spot"@,
        "nail_trimmed"@ != "favorite_spot"@,
{
    reveal_strlit("fur_length_cm");
    reveal_strlit("brush_type");
    reveal_strlit("shedding_score");
    reveal_strlit("nail_trimmed");
    reveal_strlit("favorite_spot");
    assert("fur_length_cm"@.len() == 13);
    assert("brush_type"@.len() == 10);
    assert("shedding_score"@.len() == 14);
    assert("nail_trimmed"@.len() == 12);
    assert("favorite_spot"@.len() == 13);
    assert("fur_length_cm"@[0] == 'f' && "fur_length_cm"@[1] == 'u');
    assert("favorite_spot"@[0] == 'f' && "favorite_spot"@[1] == 'a');
    assert(forall|i: int, j: int|
        0 <= i < j < schema().len() ==> field_name(i) != field_name(j));
}

/// A map on which not every field passes has a first failure: some position
/// is first missing or first invalid, so extraction always has a definite
/// field to report.
pub proof fn lemma_first_failure_exists(m: Map<Seq<char>, DynValue>)
    requires
        !all_fields_pass(m),
    ensures
        exists|i: int| first_missing(m, i) || first_invalid(m, i),
{
    if !field_passes(m, 0) {
        assert(first_missing(m, 0) || first_invalid(m, 0));
    } else if !field_passes(m, 1) {
        assert(first_missing(m, 1) || first_invalid(m, 1));
    } else if !field_passes(m, 2) {
        assert(first_missing(m, 2) || first_invalid(m, 2));
    } else if !field_passes(m, 3) {
        assert(first_missing(m, 3) || first_invalid(m, 3));
    } else {
        assert(!field_passes(m, 4)) by {
            if field_passes(m, 4) {
                assert(all_fields_pass(m));
            }
        }
        assert(first_missing(m, 4) || first_invalid(m, 4));
    }
}

/// At most one schema field is the first failure: whichever way two positions
/// fail first, they are the same position.
pub proof fn lemma_first_failure_unique(m: Map<Seq<char>, DynValue>, i: int, j: int)
    requires
        first_missing(m, i) || first_invalid(m, i),
        first_missing(m, j) || first_invalid(m, j),
    ensures
        i == j,
{
    if i < j {
        assert(field_passes(m, i));
        assert(!field_passes(m, i));
    }
    if j < i {
        assert(field_passes(m, j));
        assert(!field_passes(m, j));
    }
}

/// If two schema fields are both absent and everything before the earlier one
/// passes, the earlier one is the first failure, not the later one.
pub proof fn lemma_earlier_missing_wins(m: Map<Seq<char>, DynValue>, i: int, j: int)
    requires
        0 <= i < j < schema().len(),
        !m.contains_key(field_name(i)),
        !m.contains_key(field_name(j)),
        forall|k: int| 0 <= k < i ==> field_passes(m, k),
    ensures
        first_missing(m, i),
        !first_missing(m, j),
{
    assert(!field_passes(m, i));
}

/// Removing any one schema field from a map on which every field passes makes
/// that field the first failure, reported as missing, whatever the other
/// fields hold.
pub proof fn lemma_removed_field(m: Map<Seq<char>, DynValue>, i: int)
    requires
        all_fields_pass(m),
        0 <= i < schema().len(),
    ensures
        first_missing(m.remove(field_name(i)), i),
{
    lemma_schema_names_distinct();
    assert forall|j: int| 0 <= j < i implies field_passes(m.remove(field_name(i)), j) by {
        assert(field_passes(m, j));
        assert(field_name(j) != field_name(i));
    }
}

/// Replacing any one schema field's value with one of the wrong shape, in a
/// map on which every field passes, makes that field the first failure,
/// reported as invalid.
pub proof fn lemma_replaced_field(m: Map<Seq<char>, DynValue>, i: int, v: DynValue)
    requires
        all_fields_pass(m),
        0 <= i < schema().len(),
        !kind_ok(v, schema()[i].1),
    ensures
        first_invalid(m.insert(field_name(i), v), i),
{
    lemma_schema_names_distinct();
    assert forall|j: int| 0 <= j < i implies field_passes(m.insert(field_name(i), v), j) by {
        assert(field_passes(m, j));
        assert(field_name(j) != field_name(i));
    }
}

} // verus!
