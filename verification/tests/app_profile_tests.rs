use themacfiles::app_profile::{
    build_app_profiles, extract_bundle_id, looks_like_bundle_id, merge_related_profiles,
};
use themacfiles::category::Category;
use themacfiles::json::{JsonNumber, JsonValue};
use themacfiles::schema::{AppCapability, AppNetworkInfo, AppProfile, DecodedRecord};

fn s(v: &str) -> JsonValue {
    JsonValue::Str(v.to_string())
}

fn n(v: i64) -> JsonValue {
    if v >= 0 {
        JsonValue::Number(JsonNumber::UInt(v as u64))
    } else {
        JsonValue::Number(JsonNumber::Int(v))
    }
}

fn make_record(event: &str, fields: Vec<(&str, JsonValue)>) -> DecodedRecord {
    DecodedRecord {
        event_names: vec![event.into()],
        transform_name: "test".into(),
        category: Category::Other,
        config_type: "Main".into(),
        config_enabled: true,
        fields: fields
            .into_iter()
            .map(|(k, v)| (k.to_string(), v))
            .collect(),
        event_count: 1,
    }
}

#[test]
fn test_extract_bundle_id_from_app_description() {
    let r = make_record(
        "com.apple.osanalytics.appUsage",
        vec![
            (
                "appDescription",
                s("com.example.MyApp ||| 2.1.0"),
            ),
            ("foreground", s("YES")),
            ("sum_of_activeTime", n(120)),
            ("sum_of_uptime", n(300)),
        ],
    );
    let bid = extract_bundle_id(&r);
    assert_eq!(bid.as_deref(), Some("com.example.MyApp"));
}

#[test]
fn test_extract_bundle_id_from_app_identifier() {
    let r = make_record(
        "com.apple.appkit.app_config",
        vec![("appIdentifier", s("com.apple.Safari"))],
    );
    let bid = extract_bundle_id(&r);
    assert_eq!(bid.as_deref(), Some("com.apple.Safari"));
}

#[test]
fn test_extract_bundle_id_from_bundle_identifier() {
    let r = make_record(
        "com.apple.CoreML.MLLoader",
        vec![
            ("bundleIdentifier", s("com.apple.Photos")),
            ("modelName", s("faces")),
        ],
    );
    let bid = extract_bundle_id(&r);
    assert_eq!(bid.as_deref(), Some("com.apple.Photos"));
}

#[test]
fn test_extract_bundle_id_from_signing_identifier() {
    let r = make_record(
        "com.apple.syspolicy.ExecutableMeasurement",
        vec![
            ("signingIdentifier", s("dev.zed.Zed")),
            ("cdhash", s("abc123")),
        ],
    );
    let bid = extract_bundle_id(&r);
    assert_eq!(bid.as_deref(), Some("dev.zed.Zed"));
}

#[test]
fn test_extract_bundle_id_from_path_fallback() {
    let r = make_record(
        "com.apple.tle.constraints.usage",
        vec![(
            "constraint",
            s("/Applications/Zed.app/Contents/MacOS/zed"),
        )],
    );
    let bid = extract_bundle_id(&r);
    assert_eq!(bid.as_deref(), Some("Zed.app"));
}

#[test]
fn test_extract_bundle_id_none_for_garbage() {
    let r = make_record(
        "com.apple.something",
        vec![("random_field", n(42))],
    );
    assert!(extract_bundle_id(&r).is_none());
}

#[test]
fn test_looks_like_bundle_id() {
    assert!(looks_like_bundle_id("com.apple.Safari"));
    assert!(looks_like_bundle_id("dev.zed.Zed"));
    assert!(!looks_like_bundle_id("Safari"));
    assert!(!looks_like_bundle_id(""));
    assert!(!looks_like_bundle_id("some thing with spaces.app"));
}

#[test]
fn test_build_app_profiles_groups_by_bundle() {
    let records = vec![
        make_record(
            "com.apple.osanalytics.appUsage",
            vec![
                (
                    "appDescription",
                    s("com.apple.Safari ||| 18.0"),
                ),
                ("foreground", s("YES")),
                ("sum_of_activeTime", n(100)),
                ("sum_of_uptime", n(200)),
                ("sum_of_activations", n(5)),
                ("sum_of_activityPeriods", n(2)),
            ],
        ),
        make_record(
            "com.apple.osanalytics.appUsage",
            vec![
                (
                    "appDescription",
                    s("com.apple.Safari ||| 18.0"),
                ),
                ("foreground", s("NO")),
                ("sum_of_activeTime", n(50)),
                ("sum_of_uptime", n(500)),
                ("sum_of_activations", n(0)),
                ("sum_of_activityPeriods", n(0)),
            ],
        ),
        make_record(
            "com.apple.appkit.app_config",
            vec![("appIdentifier", s("dev.zed.Zed"))],
        ),
    ];

    let profiles = build_app_profiles(&records, None);
    assert_eq!(profiles.len(), 2);

    let safari = profiles.iter().find(|p| p.bundle_id == "com.apple.Safari");
    assert!(safari.is_some());
    let safari = safari.expect("safari profile missing");
    assert_eq!(safari.record_count, 2);
    assert_eq!(safari.active_seconds, 150);
    assert_eq!(safari.uptime_seconds, 700);
    assert!(safari.foreground);
    assert_eq!(safari.version, "18.0");
}

#[test]
fn test_build_app_profiles_query_filter() {
    let records = vec![
        make_record(
            "com.apple.appkit.app_config",
            vec![("appIdentifier", s("com.apple.Safari"))],
        ),
        make_record(
            "com.apple.appkit.app_config",
            vec![("appIdentifier", s("dev.zed.Zed"))],
        ),
    ];

    let profiles = build_app_profiles(&records, Some("zed"));
    assert_eq!(profiles.len(), 1);
    assert_eq!(profiles[0].bundle_id, "dev.zed.Zed");
}

#[test]
fn test_build_app_profiles_query_case_insensitive() {
    let records = vec![make_record(
        "com.apple.appkit.app_config",
        vec![("appIdentifier", s("dev.zed.Zed"))],
    )];

    let profiles = build_app_profiles(&records, Some("ZED"));
    assert_eq!(profiles.len(), 1);
}

#[test]
fn test_capability_detection_clipboard() {
    let records = vec![make_record(
        "com.apple.tle.constraints.usage",
        vec![
            (
                "constraint",
                s("/Applications/Zed.app/Contents/MacOS/zed"),
            ),
            ("category", s("DataExfil.Clipboard.Read")),
        ],
    )];

    let profiles = build_app_profiles(&records, None);
    assert_eq!(profiles.len(), 1);
    assert_eq!(profiles[0].capabilities.len(), 1);
    assert_eq!(profiles[0].capabilities[0].kind, "Clipboard");
}

#[test]
fn test_capability_detection_keychain() {
    let records = vec![make_record(
        "com.apple.tle.constraints.usage",
        vec![
            ("appIdentifier", s("com.app.Test")),
            ("category", s("DataExfil.Keychain.Access")),
        ],
    )];

    let profiles = build_app_profiles(&records, None);
    assert_eq!(profiles.len(), 1);
    assert!(
        profiles[0]
            .capabilities
            .iter()
            .any(|c| c.kind == "Keychain"),
        "should detect keychain capability"
    );
}

#[test]
fn test_capability_detection_network() {
    let records = vec![make_record(
        "com.apple.tle.constraints.usage",
        vec![
            ("appIdentifier", s("com.app.Test")),
            ("category", s("Network.Outgoing.Connection")),
        ],
    )];

    let profiles = build_app_profiles(&records, None);
    assert_eq!(profiles.len(), 1);
    assert!(
        profiles[0]
            .capabilities
            .iter()
            .any(|c| c.kind == "NetworkOutgoing"),
        "should detect network capability"
    );
}

#[test]
fn test_caps_string_all() {
    let mut profile = AppProfile {
        bundle_id: "test".into(),
        version: String::new(),
        active_seconds: 0,
        uptime_seconds: 0,
        foreground: false,
        activations: 0,
        launches: 0,
        capabilities: vec![
            AppCapability {
                kind: "Clipboard".into(),
                source_event: "test".into(),
            },
            AppCapability {
                kind: "Keychain".into(),
                source_event: "test".into(),
            },
            AppCapability {
                kind: "NetworkOutgoing".into(),
                source_event: "test".into(),
            },
        ],
        binaries: Vec::new(),
        security_apis: vec!["SecItemCopyMatching".into()],
        network: AppNetworkInfo::default(),
        hardware: Vec::new(),
        record_count: 1,
    };

    assert_eq!(profile.caps_string(), "CKNS");

    profile.capabilities.clear();
    profile.security_apis.clear();
    assert_eq!(profile.caps_string(), "");
}

#[test]
fn test_binary_fingerprint_extraction() {
    let records = vec![make_record(
        "com.apple.syspolicy.ExecutableMeasurement",
        vec![
            ("signingIdentifier", s("dev.zed.Zed")),
            ("cdhash", s("deadbeef")),
        ],
    )];

    let profiles = build_app_profiles(&records, None);
    assert_eq!(profiles.len(), 1);
    assert_eq!(profiles[0].binaries.len(), 1);
    assert_eq!(profiles[0].binaries[0].cdhash, "deadbeef");
    assert_eq!(profiles[0].binaries[0].signing_id, "dev.zed.Zed");
}

#[test]
fn test_empty_records_empty_profiles() {
    let profiles = build_app_profiles(&[], None);
    assert!(profiles.is_empty());
}

#[test]
fn test_query_merges_related_profiles() {
    let records = vec![
        make_record(
            "com.apple.tle.constraints.usage",
            vec![("constraint", s("/Applications/Zed.app/Contents/MacOS/zed"))],
        ),
        make_record(
            "com.apple.appkit.app_config",
            vec![("appIdentifier", s("dev.zed.Zed"))],
        ),
        make_record(
            "com.apple.appkit.app_config",
            vec![("appIdentifier", s("com.apple.Safari"))],
        ),
    ];
    let profiles = build_app_profiles(&records, Some("zed"));
    assert_eq!(profiles.len(), 1);
    assert_eq!(profiles[0].bundle_id, "dev.zed.Zed");
    assert_eq!(profiles[0].record_count, 2);
}

#[test]
fn test_profiles_ordered_by_count_then_id() {
    let records = vec![
        make_record("e", vec![("appIdentifier", s("com.b.B"))]),
        make_record("e", vec![("appIdentifier", s("com.a.A"))]),
        make_record("e", vec![("appIdentifier", s("com.c.C"))]),
        make_record("e", vec![("appIdentifier", s("com.c.C"))]),
    ];
    let profiles = build_app_profiles(&records, None);
    let ids: Vec<&str> = profiles.iter().map(|p| p.bundle_id.as_str()).collect();
    assert_eq!(ids, vec!["com.c.C", "com.a.A", "com.b.B"]);
}

#[test]
fn test_records_without_app_are_dropped_but_counted_elsewhere() {
    let records = vec![
        make_record("e", vec![("x", n(1))]),
        make_record("e", vec![("appIdentifier", s("com.a.A"))]),
    ];
    let profiles = build_app_profiles(&records, None);
    assert_eq!(profiles.len(), 1);
    let total: usize = profiles.iter().map(|p| p.record_count).sum();
    assert_eq!(total, 1);
}

#[test]
fn test_every_record_counted_once() {
    let records = vec![
        make_record("e", vec![("appIdentifier", s("com.a.A"))]),
        make_record("e", vec![("appIdentifier", s("com.b.B"))]),
        make_record("e", vec![("appIdentifier", s("com.a.A"))]),
    ];
    let profiles = build_app_profiles(&records, None);
    let total: usize = profiles.iter().map(|p| p.record_count).sum();
    assert_eq!(total, records.len());
}

#[test]
fn test_hardware_and_network_classification() {
    let records = vec![
        make_record(
            "com.apple.memorytools.stats.footprint",
            vec![
                ("appIdentifier", s("com.a.A")),
                ("bucketed_app_footprint_kb", n(2048)),
            ],
        ),
        make_record(
            "com.apple.net",
            vec![
                ("appIdentifier", s("com.a.A")),
                ("iface", s("WiFi")),
                ("bytes", n(5000)),
                ("small", n(10)),
            ],
        ),
    ];
    let profiles = build_app_profiles(&records, None);
    assert_eq!(profiles.len(), 1);
    let p = &profiles[0];
    assert_eq!(p.hardware, vec![("Memory".to_string(), "2048 KB".to_string())]);
    assert_eq!(p.network.interface, "WiFi");
    assert_eq!(p.network.bytes_values, vec![5000]);
}

#[test]
fn test_security_api_detection() {
    let records = vec![make_record(
        "com.apple.security.LegacyAPICounts",
        vec![
            ("appIdentifier", s("com.a.A")),
            ("api", s("SecItemCopyMatching called")),
        ],
    )];
    let profiles = build_app_profiles(&records, None);
    assert_eq!(profiles[0].security_apis, vec!["SecItemCopyMatching".to_string()]);
    assert_eq!(profiles[0].caps_string(), "S");
}

fn profile(id: &str, count: usize) -> AppProfile {
    AppProfile {
        bundle_id: id.into(),
        version: String::new(),
        active_seconds: 0,
        uptime_seconds: 0,
        foreground: false,
        activations: 0,
        launches: 0,
        capabilities: Vec::new(),
        binaries: Vec::new(),
        security_apis: Vec::new(),
        network: AppNetworkInfo::default(),
        hardware: Vec::new(),
        record_count: count,
    }
}

#[test]
fn test_merge_keeps_count_and_leaves_one_match() {
    let groups = vec![
        profile("zed", 1),
        profile("com.apple.Safari", 4),
        profile("dev.zed.Zed", 2),
        profile("zed.helper", 3),
    ];
    let merged = merge_related_profiles(groups, "ZED");
    let total: usize = merged.iter().map(|p| p.record_count).sum();
    assert_eq!(total, 10);
    assert_eq!(merged.len(), 2);
    assert_eq!(merged[0].bundle_id, "com.apple.Safari");
    assert_eq!(merged[1].bundle_id, "dev.zed.Zed");
    assert_eq!(merged[1].record_count, 6);
}

#[test]
fn test_merge_without_match_changes_nothing() {
    let groups = vec![profile("com.a.A", 1), profile("com.b.B", 2)];
    let merged = merge_related_profiles(groups, "zed");
    assert_eq!(merged.len(), 2);
    assert_eq!(merged[0].bundle_id, "com.a.A");
    assert_eq!(merged[1].bundle_id, "com.b.B");
}

#[test]
fn test_value_with_spaces_is_not_a_bundle_id() {
    let r = make_record("e", vec![("msg", s("status.ok now"))]);
    assert_eq!(extract_bundle_id(&r), None);
    let r = make_record("e", vec![("msg", s("dev.zed.Zed"))]);
    assert_eq!(extract_bundle_id(&r), Some("dev.zed.Zed".to_string()));
}

#[test]
fn test_app_profiles_for_keeps_only_matching_bundle_ids() {
    let records = vec![
        make_record(
            "com.apple.appkit.app_config",
            vec![("appIdentifier", s("com.apple.Safari")), ("note", s("opened zed docs"))],
        ),
        make_record("com.apple.appkit.app_config", vec![("appIdentifier", s("dev.zed.Zed"))]),
    ];
    let all = build_app_profiles(&records, Some("zed"));
    assert_eq!(all.len(), 2);
    let profiles = themacfiles::app_profiles_for(&records, Some("ZED"));
    assert_eq!(profiles.len(), 1);
    assert_eq!(profiles[0].bundle_id, "dev.zed.Zed");
    let unfiltered = themacfiles::app_profiles_for(&records, None);
    assert_eq!(unfiltered.len(), 2);
}
