use themacfiles::category::Category;
use themacfiles::filter::{filter_events, filter_records};
use themacfiles::schema::{DecodedRecord, EventInfo};

fn rec(event: &str, config: &str, category: Category) -> DecodedRecord {
    DecodedRecord {
        event_names: vec![event.into()],
        transform_name: "T".into(),
        category,
        config_type: config.into(),
        config_enabled: true,
        fields: vec![],
        event_count: 1,
    }
}

#[test]
fn test_filter_records_all_filters_and_limit() {
    let records = vec![
        rec("com.apple.wifi.scan", "Main", Category::Network),
        rec("com.apple.wifi.link", "OptOut", Category::Network),
        rec("com.apple.bt.scan", "OptOut", Category::Network),
        rec("com.apple.wifi.x", "OptOut", Category::Other),
    ];
    let out = filter_records(records, Some(Category::Network), Some("wifi"), true, None);
    assert_eq!(out.len(), 1);
    assert_eq!(out[0].event_names[0], "com.apple.wifi.link");
}

#[test]
fn test_filter_records_limit_truncates() {
    let records = vec![
        rec("a", "Main", Category::Other),
        rec("b", "Main", Category::Other),
        rec("c", "Main", Category::Other),
    ];
    let out = filter_records(records, None, None, false, Some(2));
    assert_eq!(out.len(), 2);
    assert_eq!(out[1].event_names[0], "b");
}

#[test]
fn test_filter_events_by_category() {
    let events = vec![
        EventInfo { event_name: "a".into(), category: Category::Apps, transform_count: 1 },
        EventInfo { event_name: "b".into(), category: Category::Ai, transform_count: 2 },
    ];
    let out = filter_events(events, Some(Category::Ai));
    assert_eq!(out.len(), 1);
    assert_eq!(out[0].event_name, "b");
}
