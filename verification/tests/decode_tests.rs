use themacfiles::category::Category;
use themacfiles::decode::{build_lookup, decode, list_events, zip_fields, zip_parsed, TransformLookup};
use themacfiles::json::{parse_json, JsonNumber, JsonValue};
use themacfiles::schema::{ConfigInfo, DecodedRecord, Dimension, Measure, TransformDef, TransformStateRow};

fn dim(name: &str) -> Dimension {
    Dimension { name: name.into(), dim_type: "string".into() }
}

fn measure(name: &str, function: &str) -> Measure {
    Measure { name: name.into(), function: function.into(), value_type: "int".into() }
}

fn uint(v: u64) -> JsonValue {
    JsonValue::Number(JsonNumber::UInt(v))
}

fn text(v: &str) -> JsonValue {
    JsonValue::Str(v.into())
}

fn array(items: Vec<JsonValue>, json: &str) -> JsonValue {
    JsonValue::Array(items, json.into())
}

fn row(uuid: &str, key: &str, value: &str, event_count: u64) -> TransformStateRow {
    TransformStateRow {
        transform_uuid: uuid.into(),
        transform_key: key.into(),
        transform_value: value.into(),
        event_count,
    }
}

/// The config side of the fixture: two events, two transforms, a Main and
/// an OptOut config.
fn fixture_lookup() -> Vec<TransformLookup> {
    let app_def = TransformDef {
        name: "AppUsage_Aggregate".into(),
        uuid: "test-uuid-app-1".into(),
        transform_type: "aggregate".into(),
        dimensions: vec![dim("appDescription"), dim("foreground")],
        measures: vec![measure("sum_of_activeTime", "sum"), measure("Count", "count")],
    };
    let loc_def = TransformDef {
        name: "LocationVisits_Sample".into(),
        uuid: "test-uuid-loc-1".into(),
        transform_type: "sample".into(),
        dimensions: vec![dim("locationType")],
        measures: vec![measure("visitCount", "sum")],
    };
    build_lookup(
        vec![(1, app_def), (2, loc_def)],
        &vec![(1, "test-uuid-app-1".into()), (2, "test-uuid-loc-1".into())],
        &vec![
            (1, "com.apple.osanalytics.appUsage".into()),
            (2, "com.apple.locationd.visits".into()),
        ],
        &vec![(1, vec![1]), (2, vec![2])],
        &vec![
            (1, ConfigInfo { config_type: "Main".into(), config_enabled: true }),
            (2, ConfigInfo { config_type: "OptOut".into(), config_enabled: true }),
        ],
    )
}

/// The state side of the fixture: one row per transform.
fn fixture_rows() -> Vec<TransformStateRow> {
    vec![
        row("test-uuid-app-1", r#"["Safari.app", "true"]"#, "[3600, 15]", 42),
        row("test-uuid-loc-1", r#"["home"]"#, "[5]", 7),
    ]
}

#[test]
fn test_decode_joins_config_and_state() {
    let records = decode(&fixture_lookup(), fixture_rows());
    assert_eq!(records.len(), 2);

    // Find the app usage record
    let app: &DecodedRecord = records
        .iter()
        .find(|r| r.transform_name == "AppUsage_Aggregate")
        .expect("missing app record");

    assert_eq!(app.category, Category::Apps);
    assert_eq!(app.config_type, "Main");
    assert!(app.config_enabled);
    assert_eq!(app.event_count, 42);
    assert_eq!(app.fields.len(), 4); // 2 dimensions + 2 measures
    assert_eq!(app.fields[0].0, "appDescription");
    assert_eq!(app.fields[0].1, text("Safari.app"));
    assert_eq!(app.fields[2].0, "sum_of_activeTime");
    assert_eq!(app.fields[2].1, uint(3600));
}

#[test]
fn test_decode_location_record() {
    let records = decode(&fixture_lookup(), fixture_rows());

    let loc = records
        .iter()
        .find(|r| r.transform_name == "LocationVisits_Sample")
        .expect("missing location record");

    assert_eq!(loc.category, Category::Location);
    assert_eq!(loc.config_type, "OptOut");
    assert_eq!(loc.fields.len(), 2); // 1 dimension + 1 measure
    assert_eq!(loc.fields[0].0, "locationType");
    assert_eq!(loc.fields[0].1, text("home"));
    assert_eq!(loc.fields[1].0, "visitCount");
    assert_eq!(loc.fields[1].1, uint(5));
}

#[test]
fn test_decode_skips_unknown_uuid() {
    let rows = vec![row("nonexistent-uuid", r#"["x"]"#, "[1]", 1)];
    let records = decode(&fixture_lookup(), rows);
    assert!(records.is_empty(), "unknown UUID should be skipped");
}

#[test]
fn test_decode_handles_malformed_key_json() {
    let rows = vec![row("test-uuid-app-1", "not json{", "[1]", 1)];
    let records = decode(&fixture_lookup(), rows);
    assert!(records.is_empty(), "malformed JSON should be skipped");
}

#[test]
fn test_decode_handles_dimension_count_mismatch() {
    // Only 1 key value but transform expects 2 dimensions
    let rows = vec![row("test-uuid-app-1", r#"["Safari.app"]"#, "[3600, 15]", 1)];
    let records = decode(&fixture_lookup(), rows);
    assert_eq!(records.len(), 1);
    // Should have 1 dimension (shorter) + 2 measures = 3 fields
    assert_eq!(records[0].fields.len(), 3);
}

#[test]
fn test_transform_without_uuid_is_left_out() {
    let def = TransformDef {
        name: "Orphan".into(),
        uuid: "x".into(),
        transform_type: "sample".into(),
        dimensions: vec![],
        measures: vec![],
    };
    let lookup = build_lookup(vec![(9, def)], &vec![], &vec![], &vec![], &vec![]);
    assert!(lookup.is_empty());
}

#[test]
fn test_missing_config_is_unknown_and_no_events_is_other() {
    let def = TransformDef {
        name: "Bare".into(),
        uuid: "u".into(),
        transform_type: "sample".into(),
        dimensions: vec![dim("d")],
        measures: vec![],
    };
    let lookup = build_lookup(vec![(3, def)], &vec![(3, "u".into())], &vec![], &vec![], &vec![]);
    let rows = vec![row("u", r#"["v"]"#, "[]", 2)];
    let records = decode(&lookup, rows);
    assert_eq!(records.len(), 1);
    assert_eq!(records[0].category, Category::Other);
    assert_eq!(records[0].config_type, "Unknown");
    assert!(!records[0].config_enabled);
    assert!(records[0].event_names.is_empty());
}

#[test]
fn test_zip_fields_scalar_is_one_item() {
    let def = TransformDef {
        name: "T".into(),
        uuid: "u".into(),
        transform_type: "sample".into(),
        dimensions: vec![dim("a")],
        measures: vec![measure("m", "sum")],
    };
    let fields = zip_fields(&def, r#""scalar""#, "[1]").expect("both parsed");
    assert_eq!(fields, vec![("a".to_string(), text("scalar")), ("m".to_string(), uint(1))]);
    assert!(zip_fields(&def, "[1", "[1]").is_none());
    assert!(zip_fields(&def, "null", "[1, 2]").expect("parsed").len() == 1);
    let parsed = zip_parsed(&def, Some(text("scalar")), Some(array(vec![uint(1)], "[1]"))).expect("both parsed");
    assert_eq!(parsed, fields);
    assert!(zip_parsed(&def, None, Some(uint(1))).is_none());
}

#[test]
fn test_list_events_categorizes() {
    let events = list_events(vec![("com.apple.Siri.request".into(), 4)]);
    assert_eq!(events.len(), 1);
    assert_eq!(events[0].category, Category::Comms);
    assert_eq!(events[0].transform_count, 4);
}

#[test]
fn test_parse_json_models_every_kind() {
    assert_eq!(parse_json("not json"), None);
    assert_eq!(parse_json("null"), Some(JsonValue::Null));
    assert_eq!(parse_json("true"), Some(JsonValue::Bool(true)));
    assert_eq!(parse_json("-3"), Some(JsonValue::Number(JsonNumber::Int(-3))));
    assert_eq!(parse_json("7"), Some(uint(7)));
    assert_eq!(parse_json("0.5"), Some(JsonValue::Number(JsonNumber::Float("0.5".into()))));
    assert_eq!(parse_json(r#""hi""#), Some(text("hi")));
    assert_eq!(parse_json("[1, \"a\"]"), Some(array(vec![uint(1), text("a")], "[1,\"a\"]")));
    assert_eq!(parse_json(r#"{"k": 1}"#), Some(JsonValue::Object(r#"{"k":1}"#.into())));
}
