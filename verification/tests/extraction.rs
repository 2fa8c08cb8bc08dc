use cat_grooming::extract::ExtractionError;
use cat_grooming::state_map::GroomingStateMap;
use cat_grooming::value::DynValue;

/// Builds the example map, leaving out any field named in `skip`.
fn example_map_without(skip: &[&str]) -> GroomingStateMap {
    let mut m = GroomingStateMap::empty();
    let fields: [(&str, DynValue); 5] = [
        ("fur_length_cm", DynValue::Int(2)),
        ("brush_type", DynValue::Str("slicker".to_string())),
        ("shedding_score", DynValue::Int(7)),
        ("nail_trimmed", DynValue::Bool(true)),
        ("favorite_spot", DynValue::Str("chin".to_string())),
    ];
    for (name, value) in fields {
        if !skip.contains(&name) {
            m.set(name.to_string(), value);
        }
    }
    m
}

fn assert_missing(r: Result<cat_grooming::record::GroomingRecord, ExtractionError>, field: &str) {
    match r {
        Err(ExtractionError::Missing(k)) => assert_eq!(k, field),
        other => panic!("expected Missing({field}), got {other:?}"),
    }
}

fn assert_invalid(r: Result<cat_grooming::record::GroomingRecord, ExtractionError>, field: &str) {
    match r {
        Err(ExtractionError::Invalid(k, _)) => assert_eq!(k, field),
        other => panic!("expected Invalid({field}, ..), got {other:?}"),
    }
}

#[test]
fn grooming_state_types_match() {
    // The example map holds, for every declared field, a value of the
    // declared type, so extraction into the typed record succeeds.
    let map = GroomingStateMap::new();
    let rec = map.to_typed().unwrap();
    assert_eq!(rec.fur_length_cm, 2);
    assert_eq!(rec.brush_type, "slicker");
    assert_eq!(rec.shedding_score, 7);
    assert!(rec.nail_trimmed);
    assert_eq!(rec.favorite_spot, "chin");
}

#[test]
fn extract_succeeds_on_full_valid_map() {
    let rec = example_map_without(&[]).to_typed().unwrap();
    assert_eq!(rec.fur_length_cm, 2);
    assert_eq!(rec.brush_type, "slicker");
    assert_eq!(rec.shedding_score, 7);
    assert!(rec.nail_trimmed);
    assert_eq!(rec.favorite_spot, "chin");
}

#[test]
fn missing_brush_type_reported() {
    let r = example_map_without(&["brush_type"]).to_typed();
    assert_missing(r, "brush_type");
}

#[test]
fn each_missing_field_reported() {
    for field in ["fur_length_cm", "brush_type", "shedding_score", "nail_trimmed", "favorite_spot"]
    {
        let r = example_map_without(&[field]).to_typed();
        assert_missing(r, field);
    }
}

#[test]
fn first_missing_field_wins() {
    let r = example_map_without(&["brush_type", "nail_trimmed"]).to_typed();
    assert_missing(r, "brush_type");
    let r = example_map_without(&["favorite_spot", "fur_length_cm"]).to_typed();
    assert_missing(r, "fur_length_cm");
    let r = example_map_without(&["shedding_score", "favorite_spot"]).to_typed();
    assert_missing(r, "shedding_score");
}

#[test]
fn string_for_number_is_invalid() {
    let mut m = GroomingStateMap::new();
    m.set("shedding_score".to_string(), DynValue::Str("high".to_string()));
    assert_invalid(m.to_typed(), "shedding_score");
}

#[test]
fn each_wrong_shape_reported() {
    let cases: [(&str, DynValue); 5] = [
        ("fur_length_cm", DynValue::Str("two".to_string())),
        ("brush_type", DynValue::Int(4)),
        ("shedding_score", DynValue::Bool(false)),
        ("nail_trimmed", DynValue::Str("yes".to_string())),
        ("favorite_spot", DynValue::Null),
    ];
    for (field, bad) in cases {
        let mut m = GroomingStateMap::new();
        m.set(field.to_string(), bad);
        assert_invalid(m.to_typed(), field);
    }
}

#[test]
fn invalid_beats_later_missing() {
    // An ill-typed early field is reported before a missing later one.
    let mut m = example_map_without(&["favorite_spot"]);
    m.set("brush_type".to_string(), DynValue::Int(0));
    assert_invalid(m.to_typed(), "brush_type");
}

#[test]
fn out_of_range_numbers_are_invalid() {
    let mut m = GroomingStateMap::new();
    m.set("fur_length_cm".to_string(), DynValue::Int(1 << 40));
    assert_invalid(m.to_typed(), "fur_length_cm");

    let mut m = GroomingStateMap::new();
    m.set("fur_length_cm".to_string(), DynValue::Int(-(1 << 40)));
    assert_invalid(m.to_typed(), "fur_length_cm");

    let mut m = GroomingStateMap::new();
    m.set("fur_length_cm".to_string(), DynValue::UInt(u64::MAX));
    assert_invalid(m.to_typed(), "fur_length_cm");

    let mut m = GroomingStateMap::new();
    m.set("shedding_score".to_string(), DynValue::Int(-1));
    assert_invalid(m.to_typed(), "shedding_score");

    let mut m = GroomingStateMap::new();
    m.set("shedding_score".to_string(), DynValue::UInt(256));
    assert_invalid(m.to_typed(), "shedding_score");
}

#[test]
fn boundary_numbers_convert() {
    let mut m = GroomingStateMap::new();
    m.set("fur_length_cm".to_string(), DynValue::Int(i32::MIN as i64));
    m.set("shedding_score".to_string(), DynValue::UInt(255));
    let rec = m.to_typed().unwrap();
    assert_eq!(rec.fur_length_cm, i32::MIN);
    assert_eq!(rec.shedding_score, 255);

    let mut m = GroomingStateMap::new();
    m.set("fur_length_cm".to_string(), DynValue::UInt(i32::MAX as u64));
    let rec = m.to_typed().unwrap();
    assert_eq!(rec.fur_length_cm, i32::MAX);
}

#[test]
fn floats_and_containers_are_invalid() {
    let mut m = GroomingStateMap::new();
    m.set("fur_length_cm".to_string(), DynValue::Float(0x4000000000000000));
    assert_invalid(m.to_typed(), "fur_length_cm");

    let mut m = GroomingStateMap::new();
    m.set("shedding_score".to_string(), DynValue::Arr(vec![DynValue::Int(7)]));
    assert_invalid(m.to_typed(), "shedding_score");

    let mut m = GroomingStateMap::new();
    m.set(
        "brush_type".to_string(),
        DynValue::Obj(vec![("kind".to_string(), DynValue::Str("slicker".to_string()))]),
    );
    assert_invalid(m.to_typed(), "brush_type");
}

#[test]
fn round_trip_preserves_record() {
    let rec = GroomingStateMap::new().to_typed().unwrap();
    let again = rec.to_state_map().to_typed().unwrap();
    assert_eq!(rec.fur_length_cm, again.fur_length_cm);
    assert_eq!(rec.brush_type, again.brush_type);
    assert_eq!(rec.shedding_score, again.shedding_score);
    assert_eq!(rec.nail_trimmed, again.nail_trimmed);
    assert_eq!(rec.favorite_spot, again.favorite_spot);

    // Writing the re-extracted record out again yields the same map content.
    let third = again.to_state_map().to_typed().unwrap();
    assert_eq!(again.fur_length_cm, third.fur_length_cm);
    assert_eq!(again.brush_type, third.brush_type);
    assert_eq!(again.shedding_score, third.shedding_score);
    assert_eq!(again.nail_trimmed, third.nail_trimmed);
    assert_eq!(again.favorite_spot, third.favorite_spot);
}

#[test]
fn empty_map_reports_first_schema_field() {
    let r = GroomingStateMap::empty().to_typed();
    assert_missing(r, "fur_length_cm");
}

#[test]
fn extraction_leaves_map_usable() {
    // Extraction borrows the map read-only; repeating it gives the same record.
    let map = GroomingStateMap::new();
    let a = map.to_typed().unwrap();
    let b = map.to_typed().unwrap();
    assert_eq!(a.fur_length_cm, b.fur_length_cm);
    assert_eq!(a.brush_type, b.brush_type);
    assert_eq!(a.shedding_score, b.shedding_score);
    assert_eq!(a.nail_trimmed, b.nail_trimmed);
    assert_eq!(a.favorite_spot, b.favorite_spot);
}
