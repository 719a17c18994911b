use themacfiles::category::Category;
use themacfiles::json::{JsonNumber, JsonValue};
use themacfiles::output::{
    days_to_ymd, format_app_profile, format_decode_table, format_duration, format_events_table,
    format_fields, format_timestamp,
};
use themacfiles::output_summary::{
    format_apps_section, format_ml_section, format_short_date, format_summary, parse_u32,
    prediction_group, wifi_label,
};
use themacfiles::schema::{
    AppInsight, AppProfile, DecodedRecord, EventInfo, Insights, MlModelInsight, Summary,
};

#[test]
fn test_format_decode_table_empty() {
    let result = format_decode_table(&[]);
    assert_eq!(result, "No records found.");
}

#[test]
fn test_format_decode_table_with_records() {
    let records = vec![DecodedRecord {
        event_names: vec!["com.apple.osanalytics.appUsage".into()],
        transform_name: "AppUsage_Aggregate".into(),
        category: Category::Apps,
        config_type: "Main".into(),
        config_enabled: true,
        fields: vec![
            ("appDescription".into(), JsonValue::Str("Safari.app".into())),
            ("Count".into(), JsonValue::Number(JsonNumber::UInt(15))),
        ],
        event_count: 42,
    }];

    let table = format_decode_table(&records);
    assert!(table.contains("Apps"));
    assert!(table.contains("AppUsage_Aggregate"));
    assert!(table.contains("appDescription=Safari.app"));
    assert!(table.contains("Count=15"));
}

#[test]
fn test_format_events_table_empty() {
    let result = format_events_table(&[]);
    assert_eq!(result, "No events found.");
}

#[test]
fn test_format_events_table_with_data() {
    let events = vec![EventInfo {
        event_name: "com.apple.osanalytics.appUsage".into(),
        category: Category::Apps,
        transform_count: 3,
    }];

    let table = format_events_table(&events);
    assert!(table.contains("com.apple.osanalytics.appUsage"));
    assert!(table.contains("Apps"));
}

#[test]
fn test_format_summary() {
    let summary = Summary {
        category_counts: vec![(Category::Apps, 10), (Category::Location, 5)],
        opt_out_count: 3,
        main_count: 12,
        total_records: 15,
        top_events: vec![("com.apple.test".into(), 8)],
        collection_periods: vec![],
        queried_states: vec![("lowPowerModeEnabled".into(), "false".into())],
        insights: Insights::default(),
    };

    let output = format_summary(&summary);
    assert!(output.contains("Total decoded records: 15"));
    assert!(output.contains("OptOut records: 3"));
    assert!(output.contains("Apps"));
    assert!(output.contains("lowPowerModeEnabled"));
}

#[test]
fn test_format_fields_empty() {
    assert_eq!(format_fields(&vec![]), "(empty)");
}

#[test]
fn test_format_fields_mixed_types() {
    let fields = vec![
        ("name".into(), JsonValue::Str("Safari".into())),
        ("count".into(), JsonValue::Number(JsonNumber::UInt(42))),
        ("active".into(), JsonValue::Bool(true)),
        ("data".into(), JsonValue::Null),
    ];
    let result = format_fields(&fields);
    assert!(result.contains("name=Safari"));
    assert!(result.contains("count=42"));
    assert!(result.contains("active=true"));
    assert!(result.contains("data=null"));
}

#[test]
fn test_format_timestamp() {
    // 1700000000 seconds = 2023-11-14
    let result = format_timestamp(1_700_000_000_000_000);
    assert!(result.contains("2023"));
    assert!(result.contains("UTC"));
}

#[test]
fn test_format_timestamp_exact() {
    assert_eq!(format_timestamp(1_700_000_000_000_000), "2023-11-14 22:13 UTC");
    assert_eq!(format_timestamp(0), "1970-01-01 00:00 UTC");
}

#[test]
fn test_days_to_ymd_known_dates() {
    assert_eq!(days_to_ymd(0), (1970, 1, 1));
    assert_eq!(days_to_ymd(19_675), (2023, 11, 14));
    assert_eq!(days_to_ymd(-1), (1969, 12, 31));
    assert_eq!(days_to_ymd(11_016), (2000, 2, 29));
}

#[test]
fn test_format_duration_cases() {
    assert_eq!(format_duration(0), "0s");
    assert_eq!(format_duration(-5), "0s");
    assert_eq!(format_duration(45), "45s");
    assert_eq!(format_duration(125), "2m 5s");
    assert_eq!(format_duration(3_725), "1h 2m");
}

#[test]
fn test_format_fields_joins_in_order() {
    let fields = vec![
        ("a".into(), JsonValue::Number(JsonNumber::Int(-3))),
        ("b".into(), JsonValue::Str("x".into())),
    ];
    assert_eq!(format_fields(&fields), "a=-3, b=x");
}

#[test]
fn test_format_app_profile_empty_and_full() {
    assert_eq!(format_app_profile(&[]), "No matching app profiles found.");
    let p = AppProfile {
        bundle_id: "com.a.A".into(),
        version: "1.0".into(),
        active_seconds: 65,
        uptime_seconds: 3_600,
        foreground: true,
        activations: 3,
        launches: 2,
        capabilities: vec![],
        binaries: vec![],
        security_apis: vec![],
        network: themacfiles::schema::AppNetworkInfo {
            interface: String::new(),
            bytes_values: vec![2000, 3000],
        },
        hardware: vec![("GPU".into(), "Metal".into())],
        record_count: 4,
    };
    let text = format_app_profile(&[p]);
    assert_eq!(
        text,
        "=== com.a.A ===\n  Version: 1.0\n  Records: 4\n  Active: 1m 5s  Uptime: 1h 0m  Foreground: yes\n  Activations: 3  Launches: 2\n\n  Network:\n    Byte values: [2000, 3000]\n\n  Hardware:\n    GPU: Metal\n\n"
    );
}

#[test]
fn test_short_date_and_parse() {
    assert_eq!(format_short_date("2026-03-30T00:09:02"), "Mar 30");
    assert_eq!(format_short_date("2026-13-x"), "13 0");
    assert_eq!(format_short_date("garbage"), "garbage");
    assert_eq!(parse_u32("+07"), Some(7));
    assert_eq!(parse_u32("4294967296"), None);
    assert_eq!(parse_u32(""), None);
    assert_eq!(parse_u32("+"), None);
}

#[test]
fn test_wifi_label_and_prediction_group() {
    assert_eq!(wifi_label("11AX"), "11AX (WiFi 6)");
    assert_eq!(wifi_label("LTE"), "LTE");
    assert_eq!(prediction_group("ITDFoo"), "Index / Storage");
    assert_eq!(prediction_group("personRelevance"), "Entity Relevance");
    assert_eq!(prediction_group("xyz"), "Other");
}

#[test]
fn test_tables_are_drawn_with_rounded_borders() {
    let events = vec![EventInfo {
        event_name: "com.apple.test".into(),
        category: Category::System,
        transform_count: 2,
    }];
    let table = format_events_table(&events);
    assert!(table.starts_with('\u{256d}'));
    assert!(table.contains('\u{2502}'));
    assert!(table.contains("Transforms"));
    assert!(table.contains("com.apple.test"));
}

#[test]
fn test_apps_table_has_no_index_row() {
    let mut ins = Insights::default();
    ins.apps.push(AppInsight {
        name: "com.a.A".into(),
        version: "1.0".into(),
        active_seconds: 90,
        uptime_seconds: 3700,
        foreground: true,
        activations: 2,
        launches: 1,
        caps: String::new(),
    });
    let mut out = String::new();
    format_apps_section(&mut out, &ins);
    assert!(out.starts_with("--- Apps You Used (1 foreground, 0 background) ---\n"));
    assert!(out.contains('\u{256d}'));
    assert!(out.contains("*com.a.A"));
    assert!(out.contains("1h 1m"));
    assert!(out.contains("1m 30s"));
    assert!(!out.contains("\u{2502} 0 "));
}

#[test]
fn test_ml_models_sorted_ignoring_case() {
    let mut ins = Insights::default();
    for name in ["Beta", "alpha", "Gamma"] {
        ins.ml_models.push(MlModelInsight {
            name: name.into(),
            bundle: "com.x".into(),
            compute_unit: String::new(),
        });
    }
    let mut out = String::new();
    format_ml_section(&mut out, &ins);
    assert_eq!(
        out,
        "\n--- 3 ML Models Running On Your Data ---\n  alpha (com.x)\n  Beta (com.x)\n  Gamma (com.x)\n"
    );
}
