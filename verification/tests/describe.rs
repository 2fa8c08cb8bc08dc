use cat_grooming::describe::{Describe, TypeShape};
use cat_grooming::record::GroomingRecord;
use cat_grooming::schema::FieldKind;
use cat_grooming::state_map::GroomingStateMap;

#[test]
fn state_map_is_described_as_opaque() {
    // External type tooling must see the dynamic map as an opaque
    // string-typed primitive, not as a structured record.
    assert!(matches!(GroomingStateMap::describe(), TypeShape::Opaque));
}

#[test]
fn record_is_described_with_its_schema() {
    match GroomingRecord::describe() {
        TypeShape::Record(fields) => {
            let names: Vec<&str> = fields.iter().map(|p| p.0.as_str()).collect();
            assert_eq!(
                names,
                ["fur_length_cm", "brush_type", "shedding_score", "nail_trimmed", "favorite_spot"]
            );
            let kinds: Vec<FieldKind> = fields.iter().map(|p| p.1).collect();
            assert_eq!(
                kinds,
                [
                    FieldKind::Int32,
                    FieldKind::Text,
                    FieldKind::UInt8,
                    FieldKind::Boolean,
                    FieldKind::Text,
                ]
            );
        },
        TypeShape::Opaque => panic!("the record must be described with field-level typing"),
    }
}
