use themacfiles::category::Category;
use themacfiles::extract::{extract_device_insights, extract_insights, insights_inputs_ok, parse_tips_url};
use themacfiles::json::{JsonNumber, JsonValue};
use themacfiles::output_summary::format_summary;
use themacfiles::schema::{CollectionPeriod, DecodedRecord, DeviceInsight};
use themacfiles::summary;

fn s(v: &str) -> JsonValue {
    JsonValue::Str(v.to_string())
}

fn n(v: u64) -> JsonValue {
    JsonValue::Number(JsonNumber::UInt(v))
}

fn rec(event: &str, transform: &str, config: &str, category: Category, fields: Vec<(&str, JsonValue)>) -> DecodedRecord {
    DecodedRecord {
        event_names: if event.is_empty() { vec![] } else { vec![event.into()] },
        transform_name: transform.into(),
        category,
        config_type: config.into(),
        config_enabled: true,
        fields: fields.into_iter().map(|(k, v)| (k.to_string(), v)).collect(),
        event_count: 1,
    }
}

fn sample_records() -> Vec<DecodedRecord> {
    vec![
        rec(
            "com.apple.osanalytics.appUsage",
            "AppUsage",
            "Main",
            Category::Apps,
            vec![
                ("appDescription", s("com.a.A ||| 1.0")),
                ("foreground", s("YES")),
                ("sum_of_activeTime", n(100)),
                ("sum_of_uptime", n(200)),
            ],
        ),
        rec(
            "com.apple.osanalytics.appUsage",
            "AppUsage",
            "OptOut",
            Category::Apps,
            vec![
                ("appDescription", s("com.b.B ||| 2.0")),
                ("foreground", s("NO")),
                ("sum_of_uptime", n(900)),
            ],
        ),
        rec(
            "com.apple.osanalytics.appUsage",
            "AppUsage",
            "Main",
            Category::Apps,
            vec![
                ("appDescription", s("com.c.C ||| 3.0")),
                ("foreground", s("YES")),
                ("sum_of_activeTime", n(500)),
                ("category", s("DataExfil.Clipboard.Read")),
            ],
        ),
        rec("com.apple.wifi.scanResults", "Scan", "Main", Category::Network, vec![]),
        rec("com.apple.wifi.scanResults", "Scan", "OptOut", Category::Network, vec![]),
        rec(
            "com.apple.Bluetooth.LEScanSession",
            "BT",
            "Main",
            Category::Network,
            vec![
                ("BundleID", s("com.x.Scanner")),
                ("NumberOfUniqueDevicesFound", n(12)),
                ("CBUseCase", s("Unspecified")),
            ],
        ),
        rec(
            "com.apple.Bluetooth.LEScanSession",
            "BT",
            "Main",
            Category::Network,
            vec![
                ("BundleID", s("com.x.Scanner")),
                ("NumberOfUniqueDevicesFound", n(3)),
                ("Count", n(4)),
                ("CBUseCase", s("Proximity")),
            ],
        ),
        rec(
            "com.apple.syspolicy.ExecutableMeasurement",
            "Exec",
            "Main",
            Category::Security,
            vec![("cdhash", s("abcd")), ("signingIdentifier", s("com.a.A"))],
        ),
        rec(
            "com.apple.CoreML.MLLoader",
            "ML",
            "Main",
            Category::Ai,
            vec![("modelName", s("faces")), ("bundleIdentifier", s("com.apple.Photos"))],
        ),
        rec(
            "com.apple.Espresso.SegmentationAnalytics",
            "Esp",
            "Main",
            Category::Ai,
            vec![("computeUnit", s("ANE")), ("modelHash", s("0123456789abcdef"))],
        ),
        rec("", "FeedbackFiles", "Main", Category::Other, vec![("client", s("zeta"))]),
        rec("", "FeedbackFiles", "Main", Category::Other, vec![("client", s("alpha"))]),
    ]
}

#[test]
fn test_extract_insights_counts_and_orders() {
    let records = sample_records();
    assert!(insights_inputs_ok(&records));
    let ins = extract_insights(&records);
    let names: Vec<&str> = ins.apps.iter().map(|a| a.name.as_str()).collect();
    // Foreground first by active time, then background by uptime.
    assert_eq!(names, vec!["com.c.C", "com.a.A", "com.b.B"]);
    assert_eq!(ins.wifi_scans, 2);
    assert_eq!(ins.bt_devices_found, 12);
    assert_eq!(ins.executables_measured, 1);
    assert_eq!(ins.fingerprinted_binaries.len(), 1);
    assert_eq!(ins.ml_models.len(), 2);
    assert_eq!(ins.ml_models[1].name, "espresso:01234567");
    assert_eq!(ins.bt_scans.len(), 1);
    assert_eq!(ins.bt_scans[0].scan_count, 5);
    assert_eq!(ins.bt_scans[0].use_case, "Proximity");
    assert_eq!(ins.behavioral_domains, vec!["alpha".to_string(), "zeta".to_string()]);
}

#[test]
fn test_espresso_hash_boundary_checked() {
    let records = vec![rec(
        "com.apple.Espresso.SegmentationAnalytics",
        "Esp",
        "Main",
        Category::Ai,
        vec![("computeUnit", s("ANE")), ("modelHash", s("abcdefg\u{e9}xyz"))],
    )];
    assert!(!insights_inputs_ok(&records));
}

#[test]
fn test_summary_totals_and_tallies() {
    let records = sample_records();
    let sm = summary(
        &records,
        vec![CollectionPeriod {
            start_timestamp: "2026-03-30T00:09:02".into(),
            end_boundary: "2026-03-31T00:00:00".into(),
            period_type: 0,
        }],
        vec![("lowPowerModeEnabled".into(), "\"false\"".into()), ("wiFiRadioTech".into(), "11AX".into())],
        vec![("Daily".into(), 7)],
        (3, 2, 1),
        4,
        99,
        vec!["T1".into()],
    );
    assert_eq!(sm.total_records, records.len());
    assert_eq!(sm.opt_out_count, 2);
    assert_eq!(sm.main_count + sm.opt_out_count, sm.total_records);
    let total: usize = sm.category_counts.iter().map(|c| c.1).sum();
    assert_eq!(total, sm.total_records);
    assert_eq!(sm.category_counts[0], (Category::Network, 4));
    assert_eq!(sm.top_events[0], ("com.apple.osanalytics.appUsage".to_string(), 3));
    assert_eq!(sm.insights.device.low_power_mode, "false");
    assert_eq!(sm.insights.device.wifi_radio, "11AX");
    assert_eq!(sm.insights.sampling.collecting, 3);
    assert_eq!(sm.insights.data_sinks[0].transform_count, 7);
    let c = sm.insights.apps.iter().find(|a| a.name == "com.c.C").expect("app C");
    assert_eq!(c.caps, "C");

    let text = format_summary(&sm);
    assert!(text.contains("Tracking you since Mar 30 through Mar 31 \u{2014} daily\n"));
    assert!(text.contains("2 records collected DESPITE analytics being disabled"));
    assert!(text.contains("  WiFi: 11AX (WiFi 6)\n"));
    assert!(text.contains("  7 transforms -> Daily (submitted to Apple every day)\n"));
    assert!(text.contains("  espresso (1) ANE \u{00d7}1\n"));
    assert!(text.contains("  faces (com.apple.Photos)\n"));
    assert!(text.contains("  Behavioral feedback loops: alpha, zeta\n"));
}

#[test]
fn test_top_events_keep_twenty() {
    let mut records = Vec::new();
    for i in 0..25 {
        records.push(rec(&format!("ev{i}"), "T", "Main", Category::Other, vec![]));
    }
    let sm = summary(&records, vec![], vec![], vec![], (0, 0, 0), 0, 0, vec![]);
    assert_eq!(sm.top_events.len(), 20);
    // Ties keep the order of first occurrence.
    assert_eq!(sm.top_events[0].0, "ev0");
    assert_eq!(sm.top_events[19].0, "ev19");
}

#[test]
fn test_parse_tips_url_fills_unset_fields() {
    let mut d = DeviceInsight::default();
    d.platform = "macOS".into();
    parse_tips_url(
        "https://ipcdn.apple.com/tips?osVersion=26.0-26.1&platform=iOS&model=abc123&osVersion=27",
        &mut d,
    );
    assert_eq!(d.os_version, "26.0-26.1");
    assert_eq!(d.platform, "macOS");
    assert_eq!(d.model_hash, "abc123");
}

#[test]
fn test_device_insights_from_records() {
    let records = vec![
        rec(
            "com.apple.Safari.usage",
            "SafariStats",
            "Main",
            Category::Safari,
            vec![("safariClient", s("Mac Safari")), ("safariVersion", s("622.2"))],
        ),
        rec(
            "com.apple.AppleIntelligenceReporting.x",
            "AI",
            "Main",
            Category::Ai,
            vec![("AppleIntelligenceLocale", s("en_US"))],
        ),
    ];
    let mut d = DeviceInsight::default();
    extract_device_insights(&records, &mut d);
    assert_eq!(d.platform, "macOS");
    assert_eq!(d.safari_version, "622.2");
    assert_eq!(d.ai_locale, "en_US");
}

#[test]
fn test_main_count_counts_only_main_configs() {
    let records = vec![
        rec("ev", "T", "Main", Category::Other, vec![]),
        rec("ev", "T", "OptOut", Category::Other, vec![]),
        rec("ev", "T", "Unknown", Category::Other, vec![]),
    ];
    let sm = summary(&records, vec![], vec![], vec![], (0, 0, 0), 0, 0, vec![]);
    assert_eq!(sm.total_records, 3);
    assert_eq!(sm.opt_out_count, 1);
    assert_eq!(sm.main_count, 1);
}
