//! Insight extraction from decoded telemetry records.
use crate::app_profile::{any_cdhash, contains_string, desc_parts, first_event, first_event_name, has_cdhash, parse_app_description};
use crate::json::JsonValue;
use crate::fields::{field_i64, field_int, field_is, field_nat, field_str, field_str_or_empty, field_text, field_text_or_empty, field_u64};
use crate::schema::{AppInsight, BinaryFingerprint, BluetoothScanInsight, DecodedRecord, DeviceInsight, Insights, LocationInsight, MlModelInsight, PhotosInsight, PrivacyInsight, SafariInsight, SecurityApiInsight, WifiSessionInsight};
use crate::schema::device_is_empty;
use crate::sort::{lemma_lex_total, lemma_lex_trans, insertion_sort, lemma_sort_map, lex_le, sort_by_order, str_le, LexOrder, Order, Preorder, StringOrder};
use crate::text::{split_char, split_on, split_once, lemma_split_nonempty, contains, contains_str, is_prefix, push_str, starts_with, str_eq, string_of};
use vstd::prelude::*;

verus! {

broadcast use vstd::string::group_string_axioms;

/// What an app insight holds, as plain values.
pub struct AppInsightView {
    /// Bundle identifier or description.
    pub name: Seq<char>,
    /// App version.
    pub version: Seq<char>,
    /// Seconds of active use.
    pub active_seconds: i64,
    /// Total uptime in seconds.
    pub uptime_seconds: i64,
    /// Used in the foreground.
    pub foreground: bool,
    /// Activation count.
    pub activations: i64,
    /// Launch count.
    pub launches: i64,
    /// Capability indicators.
    pub caps: Seq<char>,
}

impl View for AppInsight {
    type V = AppInsightView;

    open spec fn view(&self) -> AppInsightView {
        AppInsightView {
            name: self.name@,
            version: self.version@,
            active_seconds: self.active_seconds,
            uptime_seconds: self.uptime_seconds,
            foreground: self.foreground,
            activations: self.activations,
            launches: self.launches,
            caps: self.caps@,
        }
    }
}

/// The views of app insights.
pub open spec fn app_views(v: Seq<AppInsight>) -> Seq<AppInsightView> {
    v.map_values(|a: AppInsight| a@)
}

/// The views of ML models as (name, bundle, compute unit).
pub open spec fn model_views(v: Seq<MlModelInsight>) -> Seq<(Seq<char>, Seq<char>, Seq<char>)> {
    v.map_values(|m: MlModelInsight| (m.name@, m.bundle@, m.compute_unit@))
}

/// The views of strings.
pub open spec fn str_views(v: Seq<String>) -> Seq<Seq<char>> {
    v.map_values(|s: String| s@)
}

/// The views of fingerprints as (cdhash, signing id).
pub open spec fn binary_views(v: Seq<BinaryFingerprint>) -> Seq<(Seq<char>, Seq<char>)> {
    v.map_values(|b: BinaryFingerprint| (b.cdhash@, b.signing_id@))
}

/// App usage: the first record of each app description adds an app.
pub open spec fn app_usage_gather(
    ev: Seq<char>,
    f: Seq<(String, JsonValue)>,
    apps: Seq<AppInsightView>,
    seen: Seq<Seq<char>>,
) -> (Seq<AppInsightView>, Seq<Seq<char>>) {
    if ev != "com.apple.osanalytics.appUsage"@ {
        (apps, seen)
    } else {
        match field_text(f, "appDescription"@) {
            None => (apps, seen),
            Some(desc) => if seen.contains(desc) {
                (apps, seen)
            } else {
                (
                    apps.push(
                        AppInsightView {
                            name: desc_parts(desc).0,
                            version: desc_parts(desc).1,
                            active_seconds: field_int(f, "sum_of_activeTime"@),
                            uptime_seconds: field_int(f, "sum_of_uptime"@),
                            foreground: field_text(f, "foreground"@) == Some("YES"@),
                            activations: field_int(f, "sum_of_activations"@),
                            launches: field_int(f, "sum_of_activityPeriods"@),
                            caps: Seq::empty(),
                        },
                    ),
                    seen.push(desc),
                )
            },
        }
    }
}

/// Extract app usage from `com.apple.osanalytics.appUsage` events.
fn extract_app_usage(ev: &str, fields: &Vec<(String, JsonValue)>, apps: &mut Vec<AppInsight>, seen: &mut Vec<String>)
    ensures
        (app_views(final(apps)@), str_views(final(seen)@)) == app_usage_gather(
            ev@,
            fields@,
            app_views(old(apps)@),
            str_views(old(seen)@),
        ),
{
    proof {
        reveal_strlit("com.apple.osanalytics.appUsage");
        reveal_strlit("appDescription");
    }
    if !str_eq(ev, "com.apple.osanalytics.appUsage") {
        return;
    }
    let desc = match field_str(fields, "appDescription") {
        Some(d) => d,
        None => {
            return;
        },
    };
    if contains_string(seen, desc.as_str()) {
        assert(str_views(seen@) == seen@.map_values(|x: String| x@));
        return;
    }
    let is_fg = field_is(fields, "foreground", "YES");
    let (name, version) = parse_app_description(desc.as_str());
    let a = AppInsight {
        name,
        version,
        active_seconds: field_i64(fields, "sum_of_activeTime"),
        uptime_seconds: field_i64(fields, "sum_of_uptime"),
        foreground: is_fg,
        activations: field_i64(fields, "sum_of_activations"),
        launches: field_i64(fields, "sum_of_activityPeriods"),
        caps: String::new(),
    };
    let ghost av = a@;
    let ghost old_apps = app_views(apps@);
    let ghost old_seen = str_views(seen@);
    let ghost dv = desc@;
    apps.push(a);
    seen.push(desc);
    assert(app_views(apps@) =~= old_apps.push(av));
    assert(str_views(seen@) =~= old_seen.push(dv));
    assert(str_views(old(seen)@) == old(seen)@.map_values(|x: String| x@));
}


/// Bytes that a character takes in UTF-8.
pub open spec fn char_width(c: char) -> nat {
    if (c as u32) < 0x80 {
        1
    } else if (c as u32) < 0x800 {
        2
    } else if (c as u32) < 0x10000 {
        3
    } else {
        4
    }
}

/// The first `n` bytes of `s` (all of it when shorter), or `None` when
/// byte `n` falls inside a character.
pub open spec fn head_bytes(s: Seq<char>, n: nat) -> Option<Seq<char>>
    decreases s.len(),
{
    if n == 0 || s.len() == 0 {
        Some(Seq::empty())
    } else if char_width(s[0]) <= n {
        match head_bytes(s.drop_first(), (n - char_width(s[0])) as nat) {
            Some(t) => Some(seq![s[0]] + t),
            None => None,
        }
    } else {
        None
    }
}

/// Bytes that a character takes in UTF-8.
fn width_of(c: char) -> (w: usize)
    ensures
        w == char_width(c),
{
    let v = c as u32;
    if v < 0x80 {
        1
    } else if v < 0x800 {
        2
    } else if v < 0x10000 {
        3
    } else {
        4
    }
}

/// The first `n` bytes of `s`, or `None` when byte `n` falls inside a character.
fn head_of(s: &str, n: usize) -> (r: Option<String>)
    ensures
        match (r, head_bytes(s@, n as nat)) {
            (Some(a), Some(b)) => a@ == b,
            (None, None) => true,
            _ => false,
        },
{
    let cs = crate::text::chars_of(s);
    let mut out = String::new();
    let mut left: usize = n;
    let mut i: usize = 0;
    assert(cs@.skip(0) =~= cs@);
    while i < cs.len() && left > 0
        invariant
            cs@ == s@,
            i <= cs.len(),
            left <= n,
            head_bytes(s@, n as nat) == match head_bytes(cs@.skip(i as int), left as nat) {
                Some(t) => Some(out@ + t),
                None => None,
            },
        decreases cs.len() - i,
    {
        let ghost rest = cs@.skip(i as int);
        assert(rest[0] == cs@[i as int]);
        assert(rest.drop_first() =~= cs@.skip(i + 1));
        let w = width_of(cs[i]);
        if w > left {
            return None;
        }
        let ghost before = out@;
        crate::text::push_char(&mut out, cs[i]);
        proof {
            match head_bytes(cs@.skip(i + 1), (left - w) as nat) {
                Some(t) => {
                    assert(before + (seq![cs@[i as int]] + t) =~= out@ + t);
                },
                None => {},
            }
        }
        left = left - w;
        i = i + 1;
    }
    Some(out)
}

/// CoreML and Espresso models: one entry per distinct model key.
pub open spec fn ml_gather(
    ev: Seq<char>,
    f: Seq<(String, JsonValue)>,
    models: Seq<(Seq<char>, Seq<char>, Seq<char>)>,
    seen: Seq<Seq<char>>,
) -> (Seq<(Seq<char>, Seq<char>, Seq<char>)>, Seq<Seq<char>>) {
    let after_coreml = if ev == "com.apple.CoreML.MLLoader"@ {
        match field_text(f, "modelName"@) {
            Some(m) => {
                let bundle = field_text_or_empty(f, "bundleIdentifier"@);
                let key = m + ":"@ + bundle;
                if seen.contains(key) {
                    (models, seen)
                } else {
                    (models.push((m, bundle, Seq::empty())), seen.push(key))
                }
            },
            None => (models, seen),
        }
    } else {
        (models, seen)
    };
    let (models, seen) = after_coreml;
    if ev == "com.apple.Espresso.SegmentationAnalytics"@ {
        match field_text(f, "computeUnit"@) {
            Some(cu) => {
                let bundle = field_text_or_empty(f, "bundleIdentifier"@);
                let hash = field_text_or_empty(f, "modelHash"@);
                let key = hash + ":"@ + cu;
                if seen.contains(key) {
                    (models, seen)
                } else {
                    (models.push(("espresso:"@ + head_bytes(hash, 8)->0, bundle, cu)), seen.push(key))
                }
            },
            None => (models, seen),
        }
    } else {
        (models, seen)
    }
}

/// The short Espresso model hash can be taken: its first eight bytes end
/// on a character boundary (or it is shorter).
pub open spec fn espresso_hash_ok(r: DecodedRecord) -> bool {
    first_event(r) == "com.apple.Espresso.SegmentationAnalytics"@ && field_text(r.fields@, "computeUnit"@) is Some
        ==> head_bytes(field_text_or_empty(r.fields@, "modelHash"@), 8) is Some
}

/// Extract CoreML and Espresso ML model events.
fn extract_ml_models(
    ev: &str,
    fields: &Vec<(String, JsonValue)>,
    models: &mut Vec<MlModelInsight>,
    seen: &mut Vec<String>,
)
    requires
        ev@ == "com.apple.Espresso.SegmentationAnalytics"@ && field_text(fields@, "computeUnit"@) is Some
            ==> head_bytes(field_text_or_empty(fields@, "modelHash"@), 8) is Some,
    ensures
        (model_views(final(models)@), str_views(final(seen)@)) == ml_gather(
            ev@,
            fields@,
            model_views(old(models)@),
            str_views(old(seen)@),
        ),
{
    proof {
        reveal_strlit("com.apple.CoreML.MLLoader");
        reveal_strlit("com.apple.Espresso.SegmentationAnalytics");
        reveal_strlit(":");
        reveal_strlit("espresso:");
    }
    assert(str_views(old(seen)@) == old(seen)@.map_values(|x: String| x@));
    if str_eq(ev, "com.apple.CoreML.MLLoader") {
        extract_coreml_model(fields, models, seen);
    }
    if str_eq(ev, "com.apple.Espresso.SegmentationAnalytics") {
        extract_espresso_model(fields, models, seen);
    }
}

/// Extract a CoreML model from an MLLoader event.
fn extract_coreml_model(fields: &Vec<(String, JsonValue)>, models: &mut Vec<MlModelInsight>, seen: &mut Vec<String>)
    ensures
        ({
            let m0 = model_views(old(models)@);
            let s0 = str_views(old(seen)@);
            (model_views(final(models)@), str_views(final(seen)@)) == match field_text(fields@, "modelName"@) {
                Some(m) => {
                    let bundle = field_text_or_empty(fields@, "bundleIdentifier"@);
                    let key = m + ":"@ + bundle;
                    if s0.contains(key) {
                        (m0, s0)
                    } else {
                        (m0.push((m, bundle, Seq::empty())), s0.push(key))
                    }
                },
                None => (m0, s0),
            }
        }),
{
    proof {
        reveal_strlit(":");
    }
    match field_str(fields, "modelName") {
        Some(model_name) => {
            let bundle = field_str_or_empty(fields, "bundleIdentifier");
            let mut key = model_name.clone();
            push_str(&mut key, ":");
            push_str(&mut key, bundle.as_str());
            if !contains_string(seen, key.as_str()) {
                let ghost m0 = model_views(models@);
                let ghost s0 = str_views(seen@);
                let ghost kv = key@;
                let m = MlModelInsight { name: model_name, bundle, compute_unit: String::new() };
                let ghost mv = (m.name@, m.bundle@, m.compute_unit@);
                seen.push(key);
                models.push(m);
                assert(model_views(models@) =~= m0.push(mv));
                assert(str_views(seen@) =~= s0.push(kv));
            }
        },
        None => {},
    }
}

/// Extract an Espresso neural engine model.
fn extract_espresso_model(fields: &Vec<(String, JsonValue)>, models: &mut Vec<MlModelInsight>, seen: &mut Vec<String>)
    requires
        field_text(fields@, "computeUnit"@) is Some ==> head_bytes(field_text_or_empty(fields@, "modelHash"@), 8) is Some,
    ensures
        ({
            let m0 = model_views(old(models)@);
            let s0 = str_views(old(seen)@);
            (model_views(final(models)@), str_views(final(seen)@)) == match field_text(fields@, "computeUnit"@) {
                Some(cu) => {
                    let bundle = field_text_or_empty(fields@, "bundleIdentifier"@);
                    let hash = field_text_or_empty(fields@, "modelHash"@);
                    let key = hash + ":"@ + cu;
                    if s0.contains(key) {
                        (m0, s0)
                    } else {
                        (m0.push(("espresso:"@ + head_bytes(hash, 8)->0, bundle, cu)), s0.push(key))
                    }
                },
                None => (m0, s0),
            }
        }),
{
    proof {
        reveal_strlit(":");
        reveal_strlit("espresso:");
    }
    match field_str(fields, "computeUnit") {
        Some(cu) => {
            let bundle = field_str_or_empty(fields, "bundleIdentifier");
            let hash = field_str_or_empty(fields, "modelHash");
            let mut key = hash.clone();
            push_str(&mut key, ":");
            push_str(&mut key, cu.as_str());
            if !contains_string(seen, key.as_str()) {
                let short = match head_of(hash.as_str(), 8) {
                    Some(h) => h,
                    None => String::new(),
                };
                let mut name = string_of("espresso:");
                push_str(&mut name, short.as_str());
                let ghost m0 = model_views(models@);
                let ghost s0 = str_views(seen@);
                let ghost kv = key@;
                let m = MlModelInsight { name, bundle, compute_unit: cu };
                let ghost mv = (m.name@, m.bundle@, m.compute_unit@);
                seen.push(key);
                models.push(m);
                assert(model_views(models@) =~= m0.push(mv));
                assert(str_views(seen@) =~= s0.push(kv));
            }
        },
        None => {},
    }
}

/// Intelligence views: each distinct view name once.
pub open spec fn intelligence_gather(ev: Seq<char>, f: Seq<(String, JsonValue)>, views: Seq<Seq<char>>) -> Seq<Seq<char>> {
    if !contains(ev, "intelligenceplatform.ViewGeneration"@) {
        views
    } else {
        match field_text(f, "ViewName"@) {
            Some(v) => if views.contains(v) {
                views
            } else {
                views.push(v)
            },
            None => views,
        }
    }
}

/// Extract intelligence view generation events.
fn extract_intelligence(ev: &str, fields: &Vec<(String, JsonValue)>, views: &mut Vec<String>)
    ensures
        str_views(final(views)@) == intelligence_gather(ev@, fields@, str_views(old(views)@)),
{
    proof {
        reveal_strlit("intelligenceplatform.ViewGeneration");
    }
    assert(str_views(old(views)@) == old(views)@.map_values(|x: String| x@));
    if !contains_str(ev, "intelligenceplatform.ViewGeneration") {
        return;
    }
    match field_str(fields, "ViewName") {
        Some(view) => {
            if !contains_string(views, view.as_str()) {
                let ghost v0 = str_views(views@);
                let ghost vv = view@;
                views.push(view);
                assert(str_views(views@) =~= v0.push(vv));
            }
        },
        None => {},
    }
}

/// The larger of two counts.
pub open spec fn max_u64(a: u64, b: u64) -> u64 {
    if b > a {
        b
    } else {
        a
    }
}

/// The larger of two signed counts.
pub open spec fn max_i64(a: i64, b: i64) -> i64 {
    if b > a {
        b
    } else {
        a
    }
}

/// Bluetooth: the most unique devices any LE scan session found.
pub open spec fn bt_count_gather(ev: Seq<char>, f: Seq<(String, JsonValue)>, max: u64) -> u64 {
    if ev == "com.apple.Bluetooth.LEScanSession"@ {
        max_u64(max, field_nat(f, "NumberOfUniqueDevicesFound"@))
    } else {
        max
    }
}

/// Track max Bluetooth devices found.
fn extract_bt_count(ev: &str, fields: &Vec<(String, JsonValue)>, max: &mut u64)
    ensures
        *final(max) == bt_count_gather(ev@, fields@, *old(max)),
{
    proof {
        reveal_strlit("com.apple.Bluetooth.LEScanSession");
    }
    if str_eq(ev, "com.apple.Bluetooth.LEScanSession") {
        let found = field_u64(fields, "NumberOfUniqueDevicesFound");
        if found > *max {
            *max = found;
        }
    }
}

/// Whether the event is a WiFi scan result.
pub open spec fn is_wifi_scan(ev: Seq<char>) -> bool {
    ev == "com.apple.wifi.scanResults"@
}

/// Count WiFi scan results.
pub fn extract_wifi_scan(ev: &str, scans: &mut usize)
    requires
        *old(scans) < usize::MAX,
    ensures
        *final(scans) == *old(scans) + if is_wifi_scan(ev@) {
            1usize
        } else {
            0usize
        },
{
    proof {
        reveal_strlit("com.apple.wifi.scanResults");
    }
    if str_eq(ev, "com.apple.wifi.scanResults") {
        *scans = *scans + 1;
    }
}

/// Executable measurements: counted, and each distinct cdhash fingerprinted.
pub open spec fn executable_gather(
    ev: Seq<char>,
    f: Seq<(String, JsonValue)>,
    count: nat,
    bins: Seq<(Seq<char>, Seq<char>)>,
) -> (nat, Seq<(Seq<char>, Seq<char>)>) {
    if ev != "com.apple.syspolicy.ExecutableMeasurement"@ {
        (count, bins)
    } else {
        let cd = field_text_or_empty(f, "cdhash"@);
        let sid = field_text_or_empty(f, "signingIdentifier"@);
        (count + 1, if cd.len() > 0 && !has_cdhash(bins, cd) {
            bins.push((cd, sid))
        } else {
            bins
        })
    }
}

/// Extract executable measurement fingerprints.
fn extract_executable(ev: &str, fields: &Vec<(String, JsonValue)>, count: &mut usize, bins: &mut Vec<BinaryFingerprint>)
    requires
        *old(count) < usize::MAX,
    ensures
        (*final(count) as nat, binary_views(final(bins)@)) == executable_gather(
            ev@,
            fields@,
            *old(count) as nat,
            binary_views(old(bins)@),
        ),
{
    proof {
        reveal_strlit("com.apple.syspolicy.ExecutableMeasurement");
    }
    assert(binary_views(old(bins)@) == old(bins)@.map_values(|b: BinaryFingerprint| (b.cdhash@, b.signing_id@)));
    if !str_eq(ev, "com.apple.syspolicy.ExecutableMeasurement") {
        return;
    }
    *count = *count + 1;
    let cdhash = field_str_or_empty(fields, "cdhash");
    let signing_id = field_str_or_empty(fields, "signingIdentifier");
    if !cdhash.as_str().is_empty() && !any_cdhash(bins, cdhash.as_str()) {
        let ghost b0 = binary_views(bins@);
        let ghost bv = (cdhash@, signing_id@);
        bins.push(BinaryFingerprint { cdhash, signing_id });
        assert(binary_views(bins@) =~= b0.push(bv));
    }
}

/// Profiling: the largest daily count of unique personalization items.
pub open spec fn profiling_gather(ev: Seq<char>, f: Seq<(String, JsonValue)>, items: u64) -> u64 {
    if contains(ev, "PersonalizationPortrait.TopicStoreStats"@) {
        max_u64(items, field_nat(f, "daily_maximum_uniqueItems"@))
    } else {
        items
    }
}

/// Extract personalization portrait profiling items.
fn extract_profiling(ev: &str, fields: &Vec<(String, JsonValue)>, items: &mut u64)
    ensures
        *final(items) == profiling_gather(ev@, fields@, *old(items)),
{
    proof {
        reveal_strlit("PersonalizationPortrait.TopicStoreStats");
    }
    if contains_str(ev, "PersonalizationPortrait.TopicStoreStats") {
        let n = field_u64(fields, "daily_maximum_uniqueItems");
        if n > *items {
            *items = n;
        }
    }
}


/// What a WiFi session holds, as plain values.
pub struct WifiSessionView {
    /// Access point OUI.
    pub oui: Seq<char>,
    /// Advertised country code.
    pub country: Seq<char>,
    /// Frequency band.
    pub band: Seq<char>,
    /// Personal hotspot.
    pub is_personal_hotspot: bool,
    /// WPA3.
    pub has_wpa3: bool,
    /// Join reason.
    pub join_reason: Seq<char>,
    /// Disconnect reason.
    pub disconnect_reason: Seq<char>,
    /// Private MAC mode.
    pub private_mac_type: Seq<char>,
    /// Duration in seconds.
    pub session_duration_secs: i64,
    /// Bytes received.
    pub rx_bytes: i64,
    /// Bytes sent.
    pub tx_bytes: i64,
}

impl View for WifiSessionInsight {
    type V = WifiSessionView;

    open spec fn view(&self) -> WifiSessionView {
        WifiSessionView {
            oui: self.oui@,
            country: self.country@,
            band: self.band@,
            is_personal_hotspot: self.is_personal_hotspot,
            has_wpa3: self.has_wpa3,
            join_reason: self.join_reason@,
            disconnect_reason: self.disconnect_reason@,
            private_mac_type: self.private_mac_type@,
            session_duration_secs: self.session_duration_secs,
            rx_bytes: self.rx_bytes,
            tx_bytes: self.tx_bytes,
        }
    }
}

/// The views of WiFi sessions.
pub open spec fn wifi_views(v: Seq<WifiSessionInsight>) -> Seq<WifiSessionView> {
    v.map_values(|w: WifiSessionInsight| w@)
}

/// Some session has the OUI.
pub open spec fn has_oui(v: Seq<WifiSessionView>, oui: Seq<char>) -> bool {
    exists|i: int| 0 <= i < v.len() && v[i].oui == oui
}

/// WiFi link sessions: the first session of each access point OUI.
pub open spec fn wifi_session_gather(r: DecodedRecord, v: Seq<WifiSessionView>) -> Seq<WifiSessionView> {
    let f = r.fields@;
    let oui = field_text_or_empty(f, "NetworkBssOui"@);
    if first_event(r) != "com.apple.wifi.linksession"@ || !contains(r.transform_name@, "WiFiLinkSessionStats"@)
        || oui.len() == 0 || has_oui(v, oui) {
        v
    } else {
        v.push(
            WifiSessionView {
                oui,
                country: field_text_or_empty(f, "NetworkCountryCodeAdvertised"@),
                band: field_text_or_empty(f, "NetworkBssBand"@),
                is_personal_hotspot: field_text(f, "NetworkIsPersonalHotspot"@) == Some("True"@),
                has_wpa3: field_text(f, "NetworkHasWpa3"@) == Some("True"@),
                join_reason: field_text_or_empty(f, "WiFiNetworkJoinReason"@),
                disconnect_reason: field_text_or_empty(f, "WiFiNetworkDisconnectReason"@),
                private_mac_type: field_text_or_empty(f, "NetworkPrivateMacType"@),
                session_duration_secs: field_int(f, "sum_of_SessionDuration"@),
                rx_bytes: field_int(f, "sum_of_NetIfWiFiRxBytes"@),
                tx_bytes: field_int(f, "sum_of_NetIfWiFiTxBytes"@),
            },
        )
    }
}

/// Whether some session has the OUI.
fn any_oui(v: &Vec<WifiSessionInsight>, oui: &str) -> (r: bool)
    ensures
        r == has_oui(wifi_views(v@), oui@),
{
    let mut i: usize = 0;
    while i < v.len()
        invariant
            i <= v.len(),
            forall|k: int| 0 <= k < i ==> v@[k].oui@ != oui@,
        decreases v.len() - i,
    {
        if str_eq(v[i].oui.as_str(), oui) {
            assert(wifi_views(v@)[i as int].oui == oui@);
            return true;
        }
        i = i + 1;
    }
    false
}

/// Extract WiFi link session details (network and location revealing).
fn extract_wifi_session(r: &DecodedRecord, sessions: &mut Vec<WifiSessionInsight>)
    ensures
        wifi_views(final(sessions)@) == wifi_session_gather(*r, wifi_views(old(sessions)@)),
{
    proof {
        reveal_strlit("com.apple.wifi.linksession");
        reveal_strlit("WiFiLinkSessionStats");
    }
    let ev = first_event_name(r);
    if !str_eq(ev, "com.apple.wifi.linksession") {
        return;
    }
    if !contains_str(r.transform_name.as_str(), "WiFiLinkSessionStats") {
        return;
    }
    let fields = &r.fields;
    let oui = field_str_or_empty(fields, "NetworkBssOui");
    if oui.as_str().is_empty() || any_oui(sessions, oui.as_str()) {
        return;
    }
    let w = WifiSessionInsight {
        oui,
        country: field_str_or_empty(fields, "NetworkCountryCodeAdvertised"),
        band: field_str_or_empty(fields, "NetworkBssBand"),
        is_personal_hotspot: field_is(fields, "NetworkIsPersonalHotspot", "True"),
        has_wpa3: field_is(fields, "NetworkHasWpa3", "True"),
        join_reason: field_str_or_empty(fields, "WiFiNetworkJoinReason"),
        disconnect_reason: field_str_or_empty(fields, "WiFiNetworkDisconnectReason"),
        private_mac_type: field_str_or_empty(fields, "NetworkPrivateMacType"),
        session_duration_secs: field_i64(fields, "sum_of_SessionDuration"),
        rx_bytes: field_i64(fields, "sum_of_NetIfWiFiRxBytes"),
        tx_bytes: field_i64(fields, "sum_of_NetIfWiFiTxBytes"),
    };
    let ghost v0 = wifi_views(sessions@);
    let ghost wv = w@;
    sessions.push(w);
    assert(wifi_views(sessions@) =~= v0.push(wv));
}

/// What a Bluetooth scan entry holds, as plain values.
pub struct BtScanView {
    /// Scanning app.
    pub bundle_id: Seq<char>,
    /// Declared use case.
    pub use_case: Seq<char>,
    /// Most unique devices in one session.
    pub max_devices_found: u64,
    /// Most paired devices in one session.
    pub paired_found: u64,
    /// Scan sessions.
    pub scan_count: u64,
}

impl View for BluetoothScanInsight {
    type V = BtScanView;

    open spec fn view(&self) -> BtScanView {
        BtScanView {
            bundle_id: self.bundle_id@,
            use_case: self.use_case@,
            max_devices_found: self.max_devices_found,
            paired_found: self.paired_found,
            scan_count: self.scan_count,
        }
    }
}

/// The views of Bluetooth scan entries.
pub open spec fn bt_views(v: Seq<BluetoothScanInsight>) -> Seq<BtScanView> {
    v.map_values(|b: BluetoothScanInsight| b@)
}

/// Some entry is for the app.
pub open spec fn has_bt_app(v: Seq<BtScanView>, id: Seq<char>) -> bool {
    exists|i: int| 0 <= i < v.len() && v[i].bundle_id == id
}

/// One more LE scan session folded into an app's entry.
pub open spec fn bt_update(e: BtScanView, f: Seq<(String, JsonValue)>) -> BtScanView {
    let count = max_u64(field_nat(f, "Count"@), 1);
    let use_case = field_text_or_empty(f, "CBUseCase"@);
    BtScanView {
        bundle_id: e.bundle_id,
        use_case: if use_case.len() > 0 && use_case != "Unspecified"@ && e.use_case == "Unspecified"@ {
            use_case
        } else {
            e.use_case
        },
        max_devices_found: max_u64(e.max_devices_found, field_nat(f, "NumberOfUniqueDevicesFound"@)),
        paired_found: max_u64(e.paired_found, field_nat(f, "NumberOfUniquePairedDevicesFound"@)),
        scan_count: e.scan_count.wrapping_add(count),
    }
}

/// Bluetooth scans per app: sessions counted (wrapping), largest device
/// counts kept, and an "Unspecified" use case replaced by a specific one.
pub open spec fn bt_scan_gather(ev: Seq<char>, f: Seq<(String, JsonValue)>, v: Seq<BtScanView>) -> Seq<BtScanView> {
    let bundle = field_text_or_empty(f, "BundleID"@);
    if ev != "com.apple.Bluetooth.LEScanSession"@ || bundle.len() == 0 {
        v
    } else if has_bt_app(v, bundle) {
        let i = choose|i: int| 0 <= i < v.len() && v[i].bundle_id == bundle;
        v.update(i, bt_update(v[i], f))
    } else {
        v.push(
            bt_update(
                BtScanView {
                    bundle_id: bundle,
                    use_case: field_text_or_empty(f, "CBUseCase"@),
                    max_devices_found: 0,
                    paired_found: 0,
                    scan_count: 0,
                },
                f,
            ),
        )
    }
}

/// No two entries are for the same app.
pub open spec fn bt_distinct(v: Seq<BtScanView>) -> bool {
    forall|i: int, j: int| 0 <= i < j < v.len() ==> v[i].bundle_id != v[j].bundle_id
}

/// Fold one session into an entry.
fn bt_apply(e: &mut BluetoothScanInsight, fields: &Vec<(String, JsonValue)>)
    ensures
        final(e)@ == bt_update(old(e)@, fields@),
{
    proof {
        reveal_strlit("Unspecified");
    }
    let c = field_u64(fields, "Count");
    let count = if c > 1 { c } else { 1 };
    let devices = field_u64(fields, "NumberOfUniqueDevicesFound");
    let paired = field_u64(fields, "NumberOfUniquePairedDevicesFound");
    let use_case = field_str_or_empty(fields, "CBUseCase");
    e.scan_count = e.scan_count.wrapping_add(count);
    if devices > e.max_devices_found {
        e.max_devices_found = devices;
    }
    if paired > e.paired_found {
        e.paired_found = paired;
    }
    if !use_case.as_str().is_empty() && !str_eq(use_case.as_str(), "Unspecified") && str_eq(
        e.use_case.as_str(),
        "Unspecified",
    ) {
        e.use_case = use_case;
    }
}

/// Extract Bluetooth scan detail per app.
fn extract_bt_scan(ev: &str, fields: &Vec<(String, JsonValue)>, scans: &mut Vec<BluetoothScanInsight>)
    requires
        bt_distinct(bt_views(old(scans)@)),
    ensures
        bt_views(final(scans)@) == bt_scan_gather(ev@, fields@, bt_views(old(scans)@)),
        bt_distinct(bt_views(final(scans)@)),
{
    proof {
        reveal_strlit("com.apple.Bluetooth.LEScanSession");
    }
    if !str_eq(ev, "com.apple.Bluetooth.LEScanSession") {
        return;
    }
    let bundle = field_str_or_empty(fields, "BundleID");
    if bundle.as_str().is_empty() {
        return;
    }
    let ghost v0 = bt_views(scans@);
    let mut i: usize = 0;
    while i < scans.len()
        invariant
            i <= scans.len(),
            v0 == bt_views(scans@),
            v0 == bt_views(old(scans)@),
            bt_distinct(v0),
            ev@ == "com.apple.Bluetooth.LEScanSession"@,
            bundle@ == field_text_or_empty(fields@, "BundleID"@),
            bundle@.len() > 0,
            forall|k: int| 0 <= k < i ==> scans@[k].bundle_id@ != bundle@,
        decreases scans.len() - i,
    {
        if str_eq(scans[i].bundle_id.as_str(), bundle.as_str()) {
            assert(v0[i as int].bundle_id == bundle@);
            assert(has_bt_app(v0, bundle@));
            assert((choose|j: int| 0 <= j < v0.len() && v0[j].bundle_id == bundle@) == i as int) by {
                let j = choose|j: int| 0 <= j < v0.len() && v0[j].bundle_id == bundle@;
                if j != i as int {
                    if j < i {
                        assert(v0[j].bundle_id != v0[i as int].bundle_id);
                    } else {
                        assert(v0[i as int].bundle_id != v0[j].bundle_id);
                    }
                }
            }
            let ghost before = scans@;
            bt_apply(&mut scans[i], fields);
            assert(bt_views(scans@) =~= v0.update(i as int, bt_update(v0[i as int], fields@))) by {
                assert forall|k: int| 0 <= k < scans@.len() && k != i implies scans@[k] == before[k] by {}
            }
            assert(bt_distinct(bt_views(scans@))) by {
                assert forall|a: int, b: int| 0 <= a < b < scans@.len() implies bt_views(scans@)[a].bundle_id != bt_views(
                    scans@,
                )[b].bundle_id by {
                    assert(bt_views(scans@)[a].bundle_id == v0[a].bundle_id);
                    assert(bt_views(scans@)[b].bundle_id == v0[b].bundle_id);
                }
            }
            assert(field_text_or_empty(fields@, "BundleID"@) == bundle@);
            assert(bt_scan_gather(ev@, fields@, v0) == v0.update(i as int, bt_update(v0[i as int], fields@)));
            return;
        }
        i = i + 1;
    }
    let use_case = field_str_or_empty(fields, "CBUseCase");
    let mut e = BluetoothScanInsight { bundle_id: bundle, use_case, max_devices_found: 0, paired_found: 0, scan_count: 0 };
    bt_apply(&mut e, fields);
    let ghost ev_ = e@;
    scans.push(e);
    assert(bt_views(scans@) =~= v0.push(ev_));
    assert(!has_bt_app(v0, bundle@)) by {
        if has_bt_app(v0, bundle@) {
            let j = choose|j: int| 0 <= j < v0.len() && v0[j].bundle_id == bundle@;
            assert(scans@[j].bundle_id@ != bundle@);
        }
    }
}


/// What the Safari profile holds, as plain values.
pub struct SafariView {
    /// Default search provider.
    pub search_engine: Seq<char>,
    /// User region.
    pub user_region: Seq<char>,
    /// Largest bucketed tab count.
    pub tab_count: u64,
    /// Search records.
    pub search_count: u64,
    /// Form submission records.
    pub form_submissions: u64,
    /// Distinct webpage locales.
    pub webpage_locales: Seq<Seq<char>>,
}

impl View for SafariInsight {
    type V = SafariView;

    open spec fn view(&self) -> SafariView {
        SafariView {
            search_engine: self.search_engine@,
            user_region: self.user_region@,
            tab_count: self.tab_count,
            search_count: self.search_count,
            form_submissions: self.form_submissions,
            webpage_locales: str_views(self.webpage_locales@),
        }
    }
}

/// The record is a Safari record: by event or by transform name.
pub open spec fn is_safari(ev: Seq<char>, transform_name: Seq<char>) -> bool {
    is_prefix("com.apple.Safari"@, ev) || contains(transform_name, "Safari"@)
}

/// Keep `cur` when set, else take `v` when present.
pub open spec fn first_set(cur: Seq<char>, v: Option<Seq<char>>) -> Seq<char> {
    match v {
        Some(x) => if cur.len() == 0 {
            x
        } else {
            cur
        },
        None => cur,
    }
}

/// Safari: first search engine and region, largest tab count, search and
/// form-submission records counted, distinct nonempty webpage locales.
pub open spec fn safari_gather(r: DecodedRecord, s: SafariView) -> SafariView {
    let f = r.fields@;
    if !is_safari(first_event(r), r.transform_name@) {
        s
    } else {
        let locale = field_text(f, "webpageLocale"@);
        SafariView {
            search_engine: first_set(s.search_engine, field_text(f, "defaultSearchProviderIdentifier"@)),
            user_region: first_set(s.user_region, field_text(f, "userRegion"@)),
            tab_count: max_u64(s.tab_count, field_nat(f, "bucketed_tabCount"@)),
            search_count: if field_text(f, "isSearch"@) == Some("True"@) {
                (s.search_count + 1) as u64
            } else {
                s.search_count
            },
            form_submissions: if contains(r.transform_name@, "DidSubmitForm"@) {
                (s.form_submissions + 1) as u64
            } else {
                s.form_submissions
            },
            webpage_locales: match locale {
                Some(l) => if l.len() > 0 && !s.webpage_locales.contains(l) {
                    s.webpage_locales.push(l)
                } else {
                    s.webpage_locales
                },
                None => s.webpage_locales,
            },
        }
    }
}

/// Set `cur` from `v` when `cur` is empty and `v` is present.
fn set_if_empty(cur: &mut String, v: Option<String>)
    ensures
        final(cur)@ == first_set(old(cur)@, match v {
            Some(x) => Some(x@),
            None => None,
        }),
{
    match v {
        Some(x) => {
            if cur.as_str().is_empty() {
                *cur = x;
            }
        },
        None => {},
    }
}

/// Extract Safari browsing profile data.
fn extract_safari(r: &DecodedRecord, ev: &str, safari: &mut SafariInsight)
    requires
        ev@ == first_event(*r),
        old(safari).search_count < u64::MAX,
        old(safari).form_submissions < u64::MAX,
    ensures
        final(safari)@ == safari_gather(*r, old(safari)@),
{
    proof {
        reveal_strlit("com.apple.Safari");
        reveal_strlit("Safari");
        reveal_strlit("DidSubmitForm");
    }
    if !starts_with(ev, "com.apple.Safari") && !contains_str(r.transform_name.as_str(), "Safari") {
        return;
    }
    let fields = &r.fields;
    set_if_empty(&mut safari.search_engine, field_str(fields, "defaultSearchProviderIdentifier"));
    set_if_empty(&mut safari.user_region, field_str(fields, "userRegion"));
    let tabs = field_u64(fields, "bucketed_tabCount");
    if tabs > safari.tab_count {
        safari.tab_count = tabs;
    }
    if field_is(fields, "isSearch", "True") {
        safari.search_count = safari.search_count + 1;
    }
    if contains_str(r.transform_name.as_str(), "DidSubmitForm") {
        safari.form_submissions = safari.form_submissions + 1;
    }
    extract_safari_locale(fields, &mut safari.webpage_locales);
}

/// Extract webpage locale from Safari events.
fn extract_safari_locale(fields: &Vec<(String, JsonValue)>, locales: &mut Vec<String>)
    ensures
        str_views(final(locales)@) == match field_text(fields@, "webpageLocale"@) {
            Some(l) => if l.len() > 0 && !str_views(old(locales)@).contains(l) {
                str_views(old(locales)@).push(l)
            } else {
                str_views(old(locales)@)
            },
            None => str_views(old(locales)@),
        },
{
    assert(str_views(old(locales)@) == old(locales)@.map_values(|x: String| x@));
    match field_str(fields, "webpageLocale") {
        Some(locale) => {
            if !locale.as_str().is_empty() && !contains_string(locales, locale.as_str()) {
                let ghost v0 = str_views(locales@);
                let ghost lv = locale@;
                locales.push(locale);
                assert(str_views(locales@) =~= v0.push(lv));
            }
        },
        None => {},
    }
}

/// What the privacy profile holds, as plain values.
pub struct PrivacyView {
    /// VPN seen.
    pub vpn_detected: bool,
    /// Content filter seen.
    pub content_filter_detected: bool,
    /// DNS proxy seen.
    pub dns_proxy_detected: bool,
    /// Private Relay status.
    pub private_relay_status: Seq<char>,
    /// Largest DNS stall count.
    pub dns_stalls: i64,
    /// Largest connection failure count.
    pub connection_failures: i64,
}

impl View for PrivacyInsight {
    type V = PrivacyView;

    open spec fn view(&self) -> PrivacyView {
        PrivacyView {
            vpn_detected: self.vpn_detected,
            content_filter_detected: self.content_filter_detected,
            dns_proxy_detected: self.dns_proxy_detected,
            private_relay_status: self.private_relay_status@,
            dns_stalls: self.dns_stalls,
            connection_failures: self.connection_failures,
        }
    }
}

/// Privacy tools: flags set once seen ("1"), first relay status, largest
/// stall and failure counts.
pub open spec fn privacy_gather(ev: Seq<char>, f: Seq<(String, JsonValue)>, p: PrivacyView) -> PrivacyView {
    if !contains(ev, "privacyProxyStalls"@) {
        p
    } else {
        PrivacyView {
            vpn_detected: p.vpn_detected || field_text(f, "vpnConnected"@) == Some("1"@),
            content_filter_detected: p.content_filter_detected || field_text(f, "contentFilterConnected"@) == Some(
                "1"@,
            ),
            dns_proxy_detected: p.dns_proxy_detected || field_text(f, "dnsProxyConnected"@) == Some("1"@),
            private_relay_status: first_set(p.private_relay_status, field_text(f, "privacyProxyServiceStatus"@)),
            dns_stalls: max_i64(p.dns_stalls, field_int(f, "sum_of_dnsStall"@)),
            connection_failures: max_i64(p.connection_failures, field_int(f, "sum_of_connectionFailed"@)),
        }
    }
}

/// Extract privacy tool awareness (VPN, content filter, DNS proxy).
fn extract_privacy(ev: &str, fields: &Vec<(String, JsonValue)>, privacy: &mut PrivacyInsight)
    ensures
        final(privacy)@ == privacy_gather(ev@, fields@, old(privacy)@),
{
    proof {
        reveal_strlit("privacyProxyStalls");
    }
    if !contains_str(ev, "privacyProxyStalls") {
        return;
    }
    if field_is(fields, "vpnConnected", "1") {
        privacy.vpn_detected = true;
    }
    if field_is(fields, "contentFilterConnected", "1") {
        privacy.content_filter_detected = true;
    }
    if field_is(fields, "dnsProxyConnected", "1") {
        privacy.dns_proxy_detected = true;
    }
    set_if_empty(&mut privacy.private_relay_status, field_str(fields, "privacyProxyServiceStatus"));
    let stalls = field_i64(fields, "sum_of_dnsStall");
    if stalls > privacy.dns_stalls {
        privacy.dns_stalls = stalls;
    }
    let fails = field_i64(fields, "sum_of_connectionFailed");
    if fails > privacy.connection_failures {
        privacy.connection_failures = fails;
    }
}

/// Location: home seen, largest query count, heartbeats summed (wrapping),
/// POI tile downloads seen.
pub open spec fn location_gather(ev: Seq<char>, f: Seq<(String, JsonValue)>, l: LocationInsight) -> LocationInsight {
    let l1 = if contains(ev, "MicroLocation.Visit"@) && field_nat(f, "bucketed_loiHomeCount"@) > 0 {
        LocationInsight { home_detected: true, ..l }
    } else {
        l
    };
    let l2 = if contains(ev, "locationd.AlsRequest"@) {
        LocationInsight { location_queries: max_u64(l1.location_queries, field_nat(f, "sum_of_totalRequestCount"@)), ..l1 }
    } else {
        l1
    };
    if contains(ev, "CoreRoutine.XPCActivitySuccessRate"@) {
        routine_gather(f, l2)
    } else {
        l2
    }
}

/// CoreRoutine activity: heartbeats and POI tile downloads.
pub open spec fn routine_gather(f: Seq<(String, JsonValue)>, l: LocationInsight) -> LocationInsight {
    match field_text(f, "identifier"@) {
        None => l,
        Some(id) => {
            let l1 = if contains(id, "locationAwareness.heartbeat"@) {
                LocationInsight { heartbeat_count: l.heartbeat_count.wrapping_add(field_nat(f, "Count"@)), ..l }
            } else {
                l
            };
            if contains(id, "bluePOITileManager"@) {
                LocationInsight { poi_tile_downloads: true, ..l1 }
            } else {
                l1
            }
        },
    }
}

/// Extract location tracking profile.
fn extract_location(ev: &str, fields: &Vec<(String, JsonValue)>, location: &mut LocationInsight)
    ensures
        *final(location) == location_gather(ev@, fields@, *old(location)),
{
    proof {
        reveal_strlit("MicroLocation.Visit");
        reveal_strlit("locationd.AlsRequest");
        reveal_strlit("CoreRoutine.XPCActivitySuccessRate");
    }
    if contains_str(ev, "MicroLocation.Visit") {
        let home = field_u64(fields, "bucketed_loiHomeCount");
        if home > 0 {
            location.home_detected = true;
        }
    }
    if contains_str(ev, "locationd.AlsRequest") {
        let total = field_u64(fields, "sum_of_totalRequestCount");
        if total > location.location_queries {
            location.location_queries = total;
        }
    }
    if contains_str(ev, "CoreRoutine.XPCActivitySuccessRate") {
        extract_location_routine(fields, location);
    }
}

/// Extract CoreRoutine location awareness heartbeats and POI downloads.
fn extract_location_routine(fields: &Vec<(String, JsonValue)>, location: &mut LocationInsight)
    ensures
        *final(location) == routine_gather(fields@, *old(location)),
{
    proof {
        reveal_strlit("locationAwareness.heartbeat");
        reveal_strlit("bluePOITileManager");
    }
    let id = match field_str(fields, "identifier") {
        Some(id) => id,
        None => {
            return;
        },
    };
    if contains_str(id.as_str(), "locationAwareness.heartbeat") {
        let count = field_u64(fields, "Count");
        location.heartbeat_count = location.heartbeat_count.wrapping_add(count);
    }
    if contains_str(id.as_str(), "bluePOITileManager") {
        location.poi_tile_downloads = true;
    }
}


/// The views of security API entries as (app, APIs).
pub open spec fn sec_views(v: Seq<SecurityApiInsight>) -> Seq<(Seq<char>, Seq<Seq<char>>)> {
    v.map_values(|e: SecurityApiInsight| (e.app@, str_views(e.apis@)))
}

/// Some entry is for the app.
pub open spec fn has_sec_app(v: Seq<(Seq<char>, Seq<Seq<char>>)>, app: Seq<char>) -> bool {
    exists|i: int| 0 <= i < v.len() && v[i].0 == app
}

/// No two entries are for the same app.
pub open spec fn sec_distinct(v: Seq<(Seq<char>, Seq<Seq<char>>)>) -> bool {
    forall|i: int, j: int| 0 <= i < j < v.len() ==> v[i].0 != v[j].0
}

/// The list with `x` added unless already there.
pub open spec fn add_once_str(l: Seq<Seq<char>>, x: Seq<char>) -> Seq<Seq<char>> {
    if l.contains(x) {
        l
    } else {
        l.push(x)
    }
}

/// Legacy security APIs: per app, each distinct API in order of appearance.
pub open spec fn security_api_gather(ev: Seq<char>, f: Seq<(String, JsonValue)>, v: Seq<(Seq<char>, Seq<Seq<char>>)>) -> Seq<
    (Seq<char>, Seq<Seq<char>>),
> {
    if ev != "com.apple.security.LegacyAPICounts"@ {
        v
    } else {
        match (field_text(f, "app"@), field_text(f, "api"@)) {
            (Some(app), Some(api)) => if has_sec_app(v, app) {
                let i = choose|i: int| 0 <= i < v.len() && v[i].0 == app;
                v.update(i, (app, add_once_str(v[i].1, api)))
            } else {
                v.push((app, seq![api]))
            },
            _ => v,
        }
    }
}

/// Extract per-app security API usage.
fn extract_security_api(ev: &str, fields: &Vec<(String, JsonValue)>, apps: &mut Vec<SecurityApiInsight>)
    requires
        sec_distinct(sec_views(old(apps)@)),
    ensures
        sec_views(final(apps)@) == security_api_gather(ev@, fields@, sec_views(old(apps)@)),
        sec_distinct(sec_views(final(apps)@)),
{
    proof {
        reveal_strlit("com.apple.security.LegacyAPICounts");
    }
    if !str_eq(ev, "com.apple.security.LegacyAPICounts") {
        return;
    }
    let app = match field_str(fields, "app") {
        Some(a) => a,
        None => {
            return;
        },
    };
    let api = match field_str(fields, "api") {
        Some(a) => a,
        None => {
            return;
        },
    };
    let ghost v0 = sec_views(apps@);
    let mut i: usize = 0;
    while i < apps.len()
        invariant
            i <= apps.len(),
            v0 == sec_views(apps@),
            v0 == sec_views(old(apps)@),
            sec_distinct(v0),
            ev@ == "com.apple.security.LegacyAPICounts"@,
            field_text(fields@, "app"@) == Some(app@),
            field_text(fields@, "api"@) == Some(api@),
            forall|k: int| 0 <= k < i ==> apps@[k].app@ != app@,
        decreases apps.len() - i,
    {
        if str_eq(apps[i].app.as_str(), app.as_str()) {
            assert(v0[i as int].0 == app@);
            assert(has_sec_app(v0, app@));
            assert((choose|j: int| 0 <= j < v0.len() && v0[j].0 == app@) == i as int) by {
                let j = choose|j: int| 0 <= j < v0.len() && v0[j].0 == app@;
                if j != i as int {
                    if j < i {
                        assert(v0[j].0 != v0[i as int].0);
                    } else {
                        assert(v0[i as int].0 != v0[j].0);
                    }
                }
            }
            let ghost before = apps@;
            let ghost l0 = str_views(apps@[i as int].apis@);
            assert(l0 == apps@[i as int].apis@.map_values(|x: String| x@));
            if !contains_string(&apps[i].apis, api.as_str()) {
                let ghost av = api@;
                apps[i].apis.push(api);
                assert(str_views(apps@[i as int].apis@) =~= l0.push(av));
            }
            assert(sec_views(apps@) =~= v0.update(i as int, (app@, add_once_str(l0, api@)))) by {
                assert forall|k: int| 0 <= k < apps@.len() && k != i implies apps@[k] == before[k] by {}
            }
            assert(sec_distinct(sec_views(apps@))) by {
                assert forall|a: int, b: int| 0 <= a < b < apps@.len() implies sec_views(apps@)[a].0 != sec_views(
                    apps@,
                )[b].0 by {
                    assert(sec_views(apps@)[a].0 == v0[a].0);
                    assert(sec_views(apps@)[b].0 == v0[b].0);
                }
            }
            return;
        }
        i = i + 1;
    }
    assert(!has_sec_app(v0, app@)) by {
        if has_sec_app(v0, app@) {
            let j = choose|j: int| 0 <= j < v0.len() && v0[j].0 == app@;
            assert(apps@[j].app@ != app@);
        }
    }
    let ghost entry = (app@, seq![api@]);
    let mut apis: Vec<String> = Vec::new();
    apis.push(api);
    assert(str_views(apis@) =~= seq![entry.1[0]]);
    apps.push(SecurityApiInsight { app, apis });
    assert(sec_views(apps@) =~= v0.push(entry));
}

/// What the photos profile holds, as plain values.
pub struct PhotosView {
    /// Largest asset count.
    pub total_assets: u64,
    /// Largest moment count.
    pub moments: u64,
    /// Library size range.
    pub library_size: Seq<char>,
    /// Apple Music subscription seen.
    pub has_apple_music: bool,
    /// iCloud Photos seen enabled.
    pub icloud_photos_enabled: bool,
}

impl View for PhotosInsight {
    type V = PhotosView;

    open spec fn view(&self) -> PhotosView {
        PhotosView {
            total_assets: self.total_assets,
            moments: self.moments,
            library_size: self.library_size@,
            has_apple_music: self.has_apple_music,
            icloud_photos_enabled: self.icloud_photos_enabled,
        }
    }
}

/// The record is a photos record.
pub open spec fn is_photos(ev: Seq<char>, transform_name: Seq<char>) -> bool {
    is_prefix("com.apple.photos"@, ev) || contains(ev, "photoanalysis"@) || contains(transform_name, "Photo"@)
}

/// Photos: largest asset and moment counts, first library size, flags set
/// once seen ("True").
pub open spec fn photos_gather(r: DecodedRecord, p: PhotosView) -> PhotosView {
    let f = r.fields@;
    if !is_photos(first_event(r), r.transform_name@) {
        p
    } else {
        PhotosView {
            total_assets: max_u64(p.total_assets, field_nat(f, "sum_of_totalAssetCount"@)),
            moments: max_u64(p.moments, field_nat(f, "sum_of_numOfMoments"@)),
            library_size: first_set(p.library_size, field_text(f, "cpa_common_librarySizeRange"@)),
            has_apple_music: p.has_apple_music || field_text(f, "cpa_music_hasAppleMusicSubscription"@) == Some(
                "True"@,
            ),
            icloud_photos_enabled: p.icloud_photos_enabled || field_text(f, "cpa_common_icpl_enabled"@) == Some(
                "True"@,
            ),
        }
    }
}

/// Extract photos library profile (the analysis progress fractions are
/// taken by the program around the library).
fn extract_photos(r: &DecodedRecord, ev: &str, photos: &mut PhotosInsight)
    requires
        ev@ == first_event(*r),
    ensures
        final(photos)@ == photos_gather(*r, old(photos)@),
{
    proof {
        reveal_strlit("com.apple.photos");
        reveal_strlit("photoanalysis");
        reveal_strlit("Photo");
    }
    if !starts_with(ev, "com.apple.photos") && !contains_str(ev, "photoanalysis") && !contains_str(
        r.transform_name.as_str(),
        "Photo",
    ) {
        return;
    }
    let fields = &r.fields;
    let assets = field_u64(fields, "sum_of_totalAssetCount");
    if assets > photos.total_assets {
        photos.total_assets = assets;
    }
    let moments = field_u64(fields, "sum_of_numOfMoments");
    if moments > photos.moments {
        photos.moments = moments;
    }
    set_if_empty(&mut photos.library_size, field_str(fields, "cpa_common_librarySizeRange"));
    extract_photos_flags(fields, photos);
}

/// Extract Apple Music and iCloud Photos flags from photo events.
fn extract_photos_flags(fields: &Vec<(String, JsonValue)>, photos: &mut PhotosInsight)
    ensures
        final(photos).has_apple_music == (old(photos).has_apple_music || field_text(
            fields@,
            "cpa_music_hasAppleMusicSubscription"@,
        ) == Some("True"@)),
        final(photos).icloud_photos_enabled == (old(photos).icloud_photos_enabled || field_text(
            fields@,
            "cpa_common_icpl_enabled"@,
        ) == Some("True"@)),
        final(photos).total_assets == old(photos).total_assets,
        final(photos).moments == old(photos).moments,
        final(photos).library_size == old(photos).library_size,
{
    if field_is(fields, "cpa_music_hasAppleMusicSubscription", "True") {
        photos.has_apple_music = true;
    }
    if field_is(fields, "cpa_common_icpl_enabled", "True") {
        photos.icloud_photos_enabled = true;
    }
}

/// Behavioral feedback: each distinct client domain once.
pub open spec fn feedback_gather(r: DecodedRecord, domains: Seq<Seq<char>>) -> Seq<Seq<char>> {
    if !contains(r.transform_name@, "FeedbackFiles"@) {
        domains
    } else {
        match field_text(r.fields@, "client"@) {
            Some(c) => add_once_str(domains, c),
            None => domains,
        }
    }
}

/// Extract behavioral feedback domain tracking.
fn extract_behavioral_feedback(r: &DecodedRecord, domains: &mut Vec<String>)
    ensures
        str_views(final(domains)@) == feedback_gather(*r, str_views(old(domains)@)),
{
    proof {
        reveal_strlit("FeedbackFiles");
    }
    assert(str_views(old(domains)@) == old(domains)@.map_values(|x: String| x@));
    if !contains_str(r.transform_name.as_str(), "FeedbackFiles") {
        return;
    }
    match field_str(&r.fields, "client") {
        Some(client) => {
            if !contains_string(domains, client.as_str()) {
                let ghost v0 = str_views(domains@);
                let ghost cv = client@;
                domains.push(client);
                assert(str_views(domains@) =~= v0.push(cv));
            }
        },
        None => {},
    }
}


/// What the extraction has gathered so far, as plain values.
pub struct Gathered {
    /// Apps, in order of first appearance.
    pub apps: Seq<AppInsightView>,
    /// App descriptions seen.
    pub seen_apps: Seq<Seq<char>>,
    /// ML models as (name, bundle, compute unit).
    pub ml_models: Seq<(Seq<char>, Seq<char>, Seq<char>)>,
    /// Model keys seen.
    pub seen_models: Seq<Seq<char>>,
    /// Intelligence views.
    pub intelligence_views: Seq<Seq<char>>,
    /// Most Bluetooth devices found.
    pub max_bt_devices: u64,
    /// WiFi scan records.
    pub wifi_scans: nat,
    /// Executable measurement records.
    pub executables_measured: nat,
    /// Fingerprinted binaries.
    pub binaries: Seq<(Seq<char>, Seq<char>)>,
    /// Largest profiling item count.
    pub profiling_items: u64,
    /// WiFi sessions.
    pub wifi_sessions: Seq<WifiSessionView>,
    /// Bluetooth scans per app, in order of first appearance.
    pub bt_scans: Seq<BtScanView>,
    /// Safari profile.
    pub safari: SafariView,
    /// Privacy profile.
    pub privacy: PrivacyView,
    /// Location profile.
    pub location: LocationInsight,
    /// Security APIs per app, in order of first appearance.
    pub security_apis: Seq<(Seq<char>, Seq<Seq<char>>)>,
    /// Photos profile.
    pub photos: PhotosView,
    /// Behavioral domains, in order of first appearance.
    pub behavioral_domains: Seq<Seq<char>>,
}

/// Nothing gathered yet.
pub open spec fn gathered_empty() -> Gathered {
    Gathered {
        apps: Seq::empty(),
        seen_apps: Seq::empty(),
        ml_models: Seq::empty(),
        seen_models: Seq::empty(),
        intelligence_views: Seq::empty(),
        max_bt_devices: 0,
        wifi_scans: 0,
        executables_measured: 0,
        binaries: Seq::empty(),
        profiling_items: 0,
        wifi_sessions: Seq::empty(),
        bt_scans: Seq::empty(),
        safari: SafariView {
            search_engine: Seq::empty(),
            user_region: Seq::empty(),
            tab_count: 0,
            search_count: 0,
            form_submissions: 0,
            webpage_locales: Seq::empty(),
        },
        privacy: PrivacyView {
            vpn_detected: false,
            content_filter_detected: false,
            dns_proxy_detected: false,
            private_relay_status: Seq::empty(),
            dns_stalls: 0,
            connection_failures: 0,
        },
        location: LocationInsight {
            home_detected: false,
            location_queries: 0,
            heartbeat_count: 0,
            poi_tile_downloads: false,
        },
        security_apis: Seq::empty(),
        photos: PhotosView {
            total_assets: 0,
            moments: 0,
            library_size: Seq::empty(),
            has_apple_music: false,
            icloud_photos_enabled: false,
        },
        behavioral_domains: Seq::empty(),
    }
}

/// One record gathered: every extractor in turn.
pub open spec fn gather_step(r: DecodedRecord, g: Gathered) -> Gathered {
    let ev = first_event(r);
    let f = r.fields@;
    let (apps, seen_apps) = app_usage_gather(ev, f, g.apps, g.seen_apps);
    let (ml_models, seen_models) = ml_gather(ev, f, g.ml_models, g.seen_models);
    let (executables_measured, binaries) = executable_gather(ev, f, g.executables_measured, g.binaries);
    Gathered {
        apps,
        seen_apps,
        ml_models,
        seen_models,
        intelligence_views: intelligence_gather(ev, f, g.intelligence_views),
        max_bt_devices: bt_count_gather(ev, f, g.max_bt_devices),
        wifi_scans: g.wifi_scans + if is_wifi_scan(ev) {
            1nat
        } else {
            0nat
        },
        executables_measured,
        binaries,
        profiling_items: profiling_gather(ev, f, g.profiling_items),
        wifi_sessions: wifi_session_gather(r, g.wifi_sessions),
        bt_scans: bt_scan_gather(ev, f, g.bt_scans),
        safari: safari_gather(r, g.safari),
        privacy: privacy_gather(ev, f, g.privacy),
        location: location_gather(ev, f, g.location),
        security_apis: security_api_gather(ev, f, g.security_apis),
        photos: photos_gather(r, g.photos),
        behavioral_domains: feedback_gather(r, g.behavioral_domains),
    }
}

/// Everything gathered from the records, in order.
pub open spec fn gather(records: Seq<DecodedRecord>) -> Gathered
    decreases records.len(),
{
    if records.len() == 0 {
        gathered_empty()
    } else {
        gather_step(records.last(), gather(records.drop_last()))
    }
}

/// An app insight holds what an app-usage record reports, field by field:
/// its name is the name part of the record's `appDescription`, and its
/// active time, uptime, activations and launches are the record's
/// `sum_of_activeTime`, `sum_of_uptime`, `sum_of_activations` and
/// `sum_of_activityPeriods` fields.
pub open spec fn app_read_from(a: AppInsightView, r: DecodedRecord) -> bool {
    let f = r.fields@;
    &&& first_event(r) == "com.apple.osanalytics.appUsage"@
    &&& field_text(f, "appDescription"@) is Some
    &&& a.name == desc_parts(field_text(f, "appDescription"@)->0).0
    &&& a.active_seconds == field_int(f, "sum_of_activeTime"@)
    &&& a.uptime_seconds == field_int(f, "sum_of_uptime"@)
    &&& a.activations == field_int(f, "sum_of_activations"@)
    &&& a.launches == field_int(f, "sum_of_activityPeriods"@)
}

/// Each app of the list holds what some app-usage record of the records
/// reports.
pub open spec fn apps_read_from(apps: Seq<AppInsightView>, records: Seq<DecodedRecord>) -> bool {
    forall|i: int|
        #![trigger apps[i]]
        0 <= i < apps.len() ==> exists|k: int| #![trigger records[k]] 0 <= k < records.len() && app_read_from(apps[i], records[k])
}

/// Every gathered app comes from an app-usage record whose fields it holds.
pub proof fn lemma_gathered_app_fields(records: Seq<DecodedRecord>)
    ensures
        apps_read_from(gather(records).apps, records),
    decreases records.len(),
{
    if records.len() > 0 {
        let d = records.drop_last();
        lemma_gathered_app_fields(d);
        let g = gather(d);
        let r = records.last();
        let apps = gather(records).apps;
        assert forall|i: int| #![trigger apps[i]] 0 <= i < apps.len() implies exists|k: int|
            #![trigger records[k]] 0 <= k < records.len() && app_read_from(apps[i], records[k]) by {
            if i < g.apps.len() {
                assert(apps[i] == g.apps[i]);
                let k = choose|k: int| #![trigger d[k]] 0 <= k < d.len() && app_read_from(g.apps[i], d[k]);
                assert(records[k] == d[k]);
                assert(app_read_from(apps[i], records[k]));
            } else {
                assert(records[records.len() - 1] == r);
                assert(app_read_from(apps[i], records[records.len() - 1]));
            }
        }
        assert(apps_read_from(apps, records));
    } else {
        assert(gather(records).apps.len() == 0);
    }
}

/// The apps of the insights (the gathered apps, ordered) each come from an
/// app-usage record whose fields they hold: activations from
/// `sum_of_activations`, launches from `sum_of_activityPeriods`, and so on.
pub proof fn lemma_insight_apps_from_records(records: Seq<DecodedRecord>)
    ensures
        apps_read_from(insertion_sort::<AppInsightView, AppViewOrder>(gather(records).apps), records),
{
    let apps = gather(records).apps;
    let sorted_apps = insertion_sort::<AppInsightView, AppViewOrder>(apps);
    lemma_gathered_app_fields(records);
    crate::sort::lemma_sort_elements::<AppInsightView, AppViewOrder>(apps);
    assert forall|i: int| #![trigger sorted_apps[i]] 0 <= i < sorted_apps.len() implies exists|k: int|
        #![trigger records[k]] 0 <= k < records.len() && app_read_from(sorted_apps[i], records[k]) by {
        let j = choose|j: int| 0 <= j < apps.len() && sorted_apps[i] == apps[j];
        assert(apps[j] == apps[j]);
        let k = choose|k: int| #![trigger records[k]] 0 <= k < records.len() && app_read_from(apps[j], records[k]);
        assert(app_read_from(sorted_apps[i], records[k]));
    }
}

/// Counters grow by at most one per record; entries per app stay distinct.
pub proof fn lemma_gather_bounds(records: Seq<DecodedRecord>)
    ensures
        gather(records).wifi_scans <= records.len(),
        gather(records).executables_measured <= records.len(),
        gather(records).safari.search_count <= records.len(),
        gather(records).safari.form_submissions <= records.len(),
        bt_distinct(gather(records).bt_scans),
        sec_distinct(gather(records).security_apis),
    decreases records.len(),
{
    if records.len() > 0 {
        let rest = records.drop_last();
        lemma_gather_bounds(rest);
        let g = gather(rest);
        let r = records.last();
        let ev = first_event(r);
        let f = r.fields@;
        let b = bt_scan_gather(ev, f, g.bt_scans);
        let bundle = field_text_or_empty(f, "BundleID"@);
        if ev == "com.apple.Bluetooth.LEScanSession"@ && bundle.len() > 0 {
            if has_bt_app(g.bt_scans, bundle) {
                let i = choose|i: int| 0 <= i < g.bt_scans.len() && g.bt_scans[i].bundle_id == bundle;
                assert forall|x: int, y: int| 0 <= x < y < b.len() implies b[x].bundle_id != b[y].bundle_id by {
                    assert(b[x].bundle_id == g.bt_scans[x].bundle_id);
                    assert(b[y].bundle_id == g.bt_scans[y].bundle_id);
                }
            } else {
                assert forall|x: int, y: int| 0 <= x < y < b.len() implies b[x].bundle_id != b[y].bundle_id by {
                    if y == b.len() - 1 {
                        assert(g.bt_scans[x].bundle_id != bundle);
                    }
                }
            }
        }
        let sa = security_api_gather(ev, f, g.security_apis);
        if ev == "com.apple.security.LegacyAPICounts"@ {
            match (field_text(f, "app"@), field_text(f, "api"@)) {
                (Some(app), Some(api)) => {
                    if has_sec_app(g.security_apis, app) {
                        let i = choose|i: int| 0 <= i < g.security_apis.len() && g.security_apis[i].0 == app;
                        assert forall|x: int, y: int| 0 <= x < y < sa.len() implies sa[x].0 != sa[y].0 by {
                            assert(sa[x].0 == g.security_apis[x].0);
                            assert(sa[y].0 == g.security_apis[y].0);
                        }
                    } else {
                        assert forall|x: int, y: int| 0 <= x < y < sa.len() implies sa[x].0 != sa[y].0 by {
                            if y == sa.len() - 1 {
                                assert(g.security_apis[x].0 != app);
                            }
                        }
                    }
                },
                _ => {},
            }
        }
    }
}

/// Detail state accumulated across the record loop.
pub struct DetailState {
    /// APIs per app, keyed by app.
    pub seen_security_apps: Vec<SecurityApiInsight>,
    /// Bluetooth scans per app, keyed by bundle ID.
    pub bt_scan_map: Vec<BluetoothScanInsight>,
}

impl DetailState {
    /// Nothing seen yet.
    pub fn new() -> (s: Self)
        ensures
            s.seen_security_apps@.len() == 0,
            s.bt_scan_map@.len() == 0,
    {
        DetailState { seen_security_apps: Vec::new(), bt_scan_map: Vec::new() }
    }
}

/// State accumulated during the extraction loop.
pub struct ExtractionState {
    /// App descriptions seen.
    pub seen_apps: Vec<String>,
    /// Model keys seen.
    pub seen_models: Vec<String>,
    /// Most Bluetooth devices found in one session.
    pub max_bt_devices: u64,
    /// Detail state.
    pub detail: DetailState,
}

impl ExtractionState {
    /// Nothing seen yet.
    pub fn new() -> (s: Self)
        ensures
            s.seen_apps@.len() == 0,
            s.seen_models@.len() == 0,
            s.max_bt_devices == 0,
            s.detail.seen_security_apps@.len() == 0,
            s.detail.bt_scan_map@.len() == 0,
    {
        ExtractionState { seen_apps: Vec::new(), seen_models: Vec::new(), max_bt_devices: 0, detail: DetailState::new() }
    }
}

/// What the insights and state hold during extraction.
pub open spec fn gathered_of(i: Insights, st: ExtractionState) -> Gathered {
    Gathered {
        apps: app_views(i.apps@),
        seen_apps: str_views(st.seen_apps@),
        ml_models: model_views(i.ml_models@),
        seen_models: str_views(st.seen_models@),
        intelligence_views: str_views(i.intelligence_views@),
        max_bt_devices: st.max_bt_devices,
        wifi_scans: i.wifi_scans as nat,
        executables_measured: i.executables_measured as nat,
        binaries: binary_views(i.fingerprinted_binaries@),
        profiling_items: i.profiling_items,
        wifi_sessions: wifi_views(i.wifi_sessions@),
        bt_scans: bt_views(st.detail.bt_scan_map@),
        safari: i.safari@,
        privacy: i.privacy@,
        location: i.location,
        security_apis: sec_views(st.detail.seen_security_apps@),
        photos: i.photos@,
        behavioral_domains: str_views(i.behavioral_domains@),
    }
}


/// Apps: foreground first, by active time (most first); then background
/// apps by uptime (most first).
pub struct AppOrder;

impl Preorder<AppInsight> for AppOrder {
    open spec fn le(a: AppInsight, b: AppInsight) -> bool {
        (a.foreground && !b.foreground) || (a.foreground == b.foreground && if a.foreground {
            a.active_seconds >= b.active_seconds
        } else {
            a.uptime_seconds >= b.uptime_seconds
        })
    }

    proof fn lemma_total(a: AppInsight, b: AppInsight) {
    }

    proof fn lemma_trans(a: AppInsight, b: AppInsight, c: AppInsight) {
    }
}

impl Order<AppInsight> for AppOrder {
    fn exec_le(a: &AppInsight, b: &AppInsight) -> (r: bool) {
        (a.foreground && !b.foreground) || (a.foreground == b.foreground && if a.foreground {
            a.active_seconds >= b.active_seconds
        } else {
            a.uptime_seconds >= b.uptime_seconds
        })
    }
}

/// Bluetooth scans by devices found, most first.
pub struct BtOrder;

impl Preorder<BluetoothScanInsight> for BtOrder {
    open spec fn le(a: BluetoothScanInsight, b: BluetoothScanInsight) -> bool {
        a.max_devices_found >= b.max_devices_found
    }

    proof fn lemma_total(a: BluetoothScanInsight, b: BluetoothScanInsight) {
    }

    proof fn lemma_trans(a: BluetoothScanInsight, b: BluetoothScanInsight, c: BluetoothScanInsight) {
    }
}

impl Order<BluetoothScanInsight> for BtOrder {
    fn exec_le(a: &BluetoothScanInsight, b: &BluetoothScanInsight) -> (r: bool) {
        a.max_devices_found >= b.max_devices_found
    }
}

/// Security API entries by app.
pub struct SecurityOrder;

impl Preorder<SecurityApiInsight> for SecurityOrder {
    open spec fn le(a: SecurityApiInsight, b: SecurityApiInsight) -> bool {
        lex_le(a.app@, b.app@)
    }

    proof fn lemma_total(a: SecurityApiInsight, b: SecurityApiInsight) {
        lemma_lex_total(a.app@, b.app@);
    }

    proof fn lemma_trans(a: SecurityApiInsight, b: SecurityApiInsight, c: SecurityApiInsight) {
        lemma_lex_trans(a.app@, b.app@, c.app@);
    }
}

impl Order<SecurityApiInsight> for SecurityOrder {
    fn exec_le(a: &SecurityApiInsight, b: &SecurityApiInsight) -> (r: bool) {
        str_le(a.app.as_str(), b.app.as_str())
    }
}

/// App views in the order of `AppOrder`.
pub struct AppViewOrder;

impl Preorder<AppInsightView> for AppViewOrder {
    open spec fn le(a: AppInsightView, b: AppInsightView) -> bool {
        (a.foreground && !b.foreground) || (a.foreground == b.foreground && if a.foreground {
            a.active_seconds >= b.active_seconds
        } else {
            a.uptime_seconds >= b.uptime_seconds
        })
    }

    proof fn lemma_total(a: AppInsightView, b: AppInsightView) {
    }

    proof fn lemma_trans(a: AppInsightView, b: AppInsightView, c: AppInsightView) {
    }
}

/// Bluetooth scan views in the order of `BtOrder`.
pub struct BtViewOrder;

impl Preorder<BtScanView> for BtViewOrder {
    open spec fn le(a: BtScanView, b: BtScanView) -> bool {
        a.max_devices_found >= b.max_devices_found
    }

    proof fn lemma_total(a: BtScanView, b: BtScanView) {
    }

    proof fn lemma_trans(a: BtScanView, b: BtScanView, c: BtScanView) {
    }
}

/// Security API views in the order of `SecurityOrder`.
pub struct SecurityViewOrder;

impl Preorder<(Seq<char>, Seq<Seq<char>>)> for SecurityViewOrder {
    open spec fn le(a: (Seq<char>, Seq<Seq<char>>), b: (Seq<char>, Seq<Seq<char>>)) -> bool {
        lex_le(a.0, b.0)
    }

    proof fn lemma_total(a: (Seq<char>, Seq<Seq<char>>), b: (Seq<char>, Seq<Seq<char>>)) {
        lemma_lex_total(a.0, b.0);
    }

    proof fn lemma_trans(
        a: (Seq<char>, Seq<Seq<char>>),
        b: (Seq<char>, Seq<Seq<char>>),
        c: (Seq<char>, Seq<Seq<char>>),
    ) {
        lemma_lex_trans(a.0, b.0, c.0);
    }
}

/// The parts of the insights that come from config.sqlite are still empty.
pub open spec fn config_parts_empty(i: Insights) -> bool {
    &&& i.data_sinks@.len() == 0
    &&& i.sampling == (crate::schema::SamplingInfo { collecting: 0, sampled_out: 0, unsampled: 0 })
    &&& i.enrichment_rules == 0
    &&& i.total_event_types == 0
    &&& i.budget_disabled@.len() == 0
    &&& device_is_empty(i.device)
}

/// The insights hold what was gathered, with apps, Bluetooth scans,
/// security APIs and behavioral domains in their final (stable) order.
pub open spec fn insights_match(r: Insights, g: Gathered) -> bool {
    &&& app_views(r.apps@) == insertion_sort::<AppInsightView, AppViewOrder>(g.apps)
    &&& insights_rest_match(r, g)
}

/// The insights other than the apps hold what was gathered.
pub open spec fn insights_rest_match(r: Insights, g: Gathered) -> bool {
    &&& model_views(r.ml_models@) == g.ml_models
    &&& str_views(r.intelligence_views@) == g.intelligence_views
    &&& r.bt_devices_found == g.max_bt_devices
    &&& r.wifi_scans == g.wifi_scans
    &&& r.executables_measured == g.executables_measured
    &&& binary_views(r.fingerprinted_binaries@) == g.binaries
    &&& r.profiling_items == g.profiling_items
    &&& wifi_views(r.wifi_sessions@) == g.wifi_sessions
    &&& bt_views(r.bt_scans@) == insertion_sort::<BtScanView, BtViewOrder>(g.bt_scans)
    &&& r.safari@ == g.safari
    &&& r.privacy@ == g.privacy
    &&& r.location == g.location
    &&& sec_views(r.security_apis@) == insertion_sort::<(Seq<char>, Seq<Seq<char>>), SecurityViewOrder>(
        g.security_apis,
    )
    &&& r.photos@ == g.photos
    &&& str_views(r.behavioral_domains@) == insertion_sort::<Seq<char>, LexOrder>(g.behavioral_domains)
}

/// Sort apps and finalize aggregated collections.
fn finalize_insights(insights: &mut Insights, state: ExtractionState)
    ensures
        app_views(final(insights).apps@) == insertion_sort::<AppInsightView, AppViewOrder>(app_views(old(insights).apps@)),
        bt_views(final(insights).bt_scans@) == insertion_sort::<BtScanView, BtViewOrder>(bt_views(state.detail.bt_scan_map@)),
        sec_views(final(insights).security_apis@) == insertion_sort::<(Seq<char>, Seq<Seq<char>>), SecurityViewOrder>(
            sec_views(state.detail.seen_security_apps@),
        ),
        str_views(final(insights).behavioral_domains@) == insertion_sort::<Seq<char>, LexOrder>(
            str_views(old(insights).behavioral_domains@),
        ),
        final(insights).ml_models == old(insights).ml_models,
        final(insights).intelligence_views == old(insights).intelligence_views,
        final(insights).bt_devices_found == old(insights).bt_devices_found,
        final(insights).wifi_scans == old(insights).wifi_scans,
        final(insights).executables_measured == old(insights).executables_measured,
        final(insights).fingerprinted_binaries == old(insights).fingerprinted_binaries,
        final(insights).profiling_items == old(insights).profiling_items,
        final(insights).wifi_sessions == old(insights).wifi_sessions,
        final(insights).safari == old(insights).safari,
        final(insights).privacy == old(insights).privacy,
        final(insights).location == old(insights).location,
        final(insights).photos == old(insights).photos,
        final(insights).data_sinks == old(insights).data_sinks,
        final(insights).sampling == old(insights).sampling,
        final(insights).enrichment_rules == old(insights).enrichment_rules,
        final(insights).total_event_types == old(insights).total_event_types,
        final(insights).budget_disabled == old(insights).budget_disabled,
        final(insights).device == old(insights).device,
{
    let mut apps: Vec<AppInsight> = Vec::new();
    std::mem::swap(&mut apps, &mut insights.apps);
    let ghost a0 = apps@;
    let sorted_apps = sort_by_order::<AppInsight, AppOrder>(apps);
    proof {
        lemma_sort_map::<AppInsight, AppInsightView, AppOrder, AppViewOrder>(a0, |a: AppInsight| a@);
    }
    insights.apps = sorted_apps;
    let ExtractionState { seen_apps: _, seen_models: _, max_bt_devices: _, detail } = state;
    let DetailState { seen_security_apps, bt_scan_map } = detail;
    let ghost b0 = bt_scan_map@;
    let bt = sort_by_order::<BluetoothScanInsight, BtOrder>(bt_scan_map);
    proof {
        lemma_sort_map::<BluetoothScanInsight, BtScanView, BtOrder, BtViewOrder>(b0, |b: BluetoothScanInsight| b@);
    }
    insights.bt_scans = bt;
    let ghost s0 = seen_security_apps@;
    let sec = sort_by_order::<SecurityApiInsight, SecurityOrder>(seen_security_apps);
    proof {
        lemma_sort_map::<SecurityApiInsight, (Seq<char>, Seq<Seq<char>>), SecurityOrder, SecurityViewOrder>(
            s0,
            |e: SecurityApiInsight| (e.app@, str_views(e.apis@)),
        );
    }
    insights.security_apis = sec;
    let mut domains: Vec<String> = Vec::new();
    std::mem::swap(&mut domains, &mut insights.behavioral_domains);
    let ghost d0 = domains@;
    let sorted_domains = sort_by_order::<String, StringOrder>(domains);
    proof {
        lemma_sort_map::<String, Seq<char>, StringOrder, LexOrder>(d0, |x: String| x@);
    }
    insights.behavioral_domains = sorted_domains;
}

/// Extract high-level insights from decoded records.
pub fn extract_insights(records: &[DecodedRecord]) -> (r: Insights)
    requires
        forall|i: int| 0 <= i < records@.len() ==> espresso_hash_ok(#[trigger] records@[i]),
    ensures
        insights_match(r, gather(records@)),
        config_parts_empty(r),
{
    let mut insights = Insights::default();
    let mut state = ExtractionState::new();
    let mut n: usize = 0;
    assert(records@.subrange(0, 0) =~= Seq::<DecodedRecord>::empty());
    assert(gathered_of(insights, state) =~= gathered_empty()) by {
        assert(app_views(insights.apps@) =~= Seq::empty());
        assert(str_views(state.seen_apps@) =~= Seq::empty());
        assert(model_views(insights.ml_models@) =~= Seq::empty());
        assert(str_views(state.seen_models@) =~= Seq::empty());
        assert(str_views(insights.intelligence_views@) =~= Seq::empty());
        assert(binary_views(insights.fingerprinted_binaries@) =~= Seq::empty());
        assert(wifi_views(insights.wifi_sessions@) =~= Seq::empty());
        assert(bt_views(state.detail.bt_scan_map@) =~= Seq::empty());
        assert(str_views(insights.safari.webpage_locales@) =~= Seq::empty());
        assert(insights.safari.search_engine@ =~= Seq::empty());
        assert(insights.safari.user_region@ =~= Seq::empty());
        assert(insights.safari@ =~= gathered_empty().safari);
        assert(insights.privacy.private_relay_status@ =~= Seq::empty());
        assert(insights.privacy@ =~= gathered_empty().privacy);
        assert(insights.photos.library_size@ =~= Seq::empty());
        assert(sec_views(state.detail.seen_security_apps@) =~= Seq::empty());
        assert(insights.photos@ =~= gathered_empty().photos);
        assert(str_views(insights.behavioral_domains@) =~= Seq::empty());
    }
    while n < records.len()
        invariant
            n <= records@.len(),
            forall|i: int| 0 <= i < records@.len() ==> espresso_hash_ok(#[trigger] records@[i]),
            gathered_of(insights, state) == gather(records@.subrange(0, n as int)),
            config_parts_empty(insights),
        decreases records.len() - n,
    {
        let ghost pre = records@.subrange(0, n as int);
        let ghost next = records@.subrange(0, n + 1);
        assert(next.drop_last() =~= pre);
        proof {
            lemma_gather_bounds(pre);
        }
        let r = &records[n];
        assert(espresso_hash_ok(records@[n as int]));
        let ev = first_event_name(r);
        let fields = &r.fields;
        extract_app_usage(ev, fields, &mut insights.apps, &mut state.seen_apps);
        extract_ml_models(ev, fields, &mut insights.ml_models, &mut state.seen_models);
        extract_intelligence(ev, fields, &mut insights.intelligence_views);
        extract_bt_count(ev, fields, &mut state.max_bt_devices);
        extract_wifi_scan(ev, &mut insights.wifi_scans);
        extract_executable(ev, fields, &mut insights.executables_measured, &mut insights.fingerprinted_binaries);
        extract_profiling(ev, fields, &mut insights.profiling_items);
        extract_wifi_session(r, &mut insights.wifi_sessions);
        extract_bt_scan(ev, fields, &mut state.detail.bt_scan_map);
        extract_safari(r, ev, &mut insights.safari);
        extract_privacy(ev, fields, &mut insights.privacy);
        extract_location(ev, fields, &mut insights.location);
        extract_security_api(ev, fields, &mut state.detail.seen_security_apps);
        extract_photos(r, ev, &mut insights.photos);
        extract_behavioral_feedback(r, &mut insights.behavioral_domains);
        n = n + 1;
        assert(gathered_of(insights, state) =~= gather(records@.subrange(0, n as int)));
    }
    assert(records@.subrange(0, n as int) =~= records@);
    insights.bt_devices_found = state.max_bt_devices;
    finalize_insights(&mut insights, state);
    insights
}


/// Every record's Espresso model hash can be shortened.
pub fn insights_inputs_ok(records: &[DecodedRecord]) -> (r: bool)
    ensures
        r == forall|i: int| 0 <= i < records@.len() ==> espresso_hash_ok(#[trigger] records@[i]),
{
    proof {
        reveal_strlit("com.apple.Espresso.SegmentationAnalytics");
    }
    let mut i: usize = 0;
    while i < records.len()
        invariant
            i <= records@.len(),
            forall|k: int| 0 <= k < i ==> espresso_hash_ok(#[trigger] records@[k]),
        decreases records.len() - i,
    {
        let r = &records[i];
        let ev = first_event_name(r);
        if str_eq(ev, "com.apple.Espresso.SegmentationAnalytics") {
            match field_str(&r.fields, "computeUnit") {
                Some(_) => {
                    let hash = field_str_or_empty(&r.fields, "modelHash");
                    if head_of(hash.as_str(), 8).is_none() {
                        assert(!espresso_hash_ok(records@[i as int]));
                        return false;
                    }
                },
                None => {},
            }
        }
        i = i + 1;
    }
    true
}

/// What the device insight holds, as plain values.
pub struct DeviceView {
    /// Platform.
    pub platform: Seq<char>,
    /// OS version.
    pub os_version: Seq<char>,
    /// Safari version.
    pub safari_version: Seq<char>,
    /// WiFi radio technology.
    pub wifi_radio: Seq<char>,
    /// Primary network interface.
    pub network_interface: Seq<char>,
    /// Thermal state.
    pub thermal_state: Seq<char>,
    /// Low-power mode.
    pub low_power_mode: Seq<char>,
    /// Model hash.
    pub model_hash: Seq<char>,
    /// Apple Intelligence locale.
    pub ai_locale: Seq<char>,
}

impl View for DeviceInsight {
    type V = DeviceView;

    open spec fn view(&self) -> DeviceView {
        DeviceView {
            platform: self.platform@,
            os_version: self.os_version@,
            safari_version: self.safari_version@,
            wifi_radio: self.wifi_radio@,
            network_interface: self.network_interface@,
            thermal_state: self.thermal_state@,
            low_power_mode: self.low_power_mode@,
            model_hash: self.model_hash@,
            ai_locale: self.ai_locale@,
        }
    }
}

/// Safari records: "macOS" when the client mentions Mac (first set wins),
/// and the first Safari version.
pub open spec fn device_safari_step(r: DecodedRecord, d: DeviceView) -> DeviceView {
    let f = r.fields@;
    if !is_safari(first_event(r), r.transform_name@) {
        d
    } else {
        DeviceView {
            platform: match field_text(f, "safariClient"@) {
                Some(c) => if d.platform.len() == 0 && contains(c, "Mac"@) {
                    "macOS"@
                } else {
                    d.platform
                },
                None => d.platform,
            },
            safari_version: first_set(d.safari_version, field_text(f, "safariVersion"@)),
            ..d
        }
    }
}

/// Apple Intelligence records: the first locale.
pub open spec fn device_locale_step(ev: Seq<char>, f: Seq<(String, JsonValue)>, d: DeviceView) -> DeviceView {
    if !contains(ev, "AppleIntelligence"@) && !contains(ev, "AppleIntelligenceReporting"@) {
        d
    } else {
        DeviceView { ai_locale: first_set(d.ai_locale, field_text(f, "AppleIntelligenceLocale"@)), ..d }
    }
}

/// One URL parameter: the part after the last '?', split at the first '='.
pub open spec fn tips_param(param: Seq<char>, d: DeviceView) -> DeviceView {
    let pieces = split_on(param, '?');
    let p = pieces[pieces.len() - 1];
    match split_once(p, "="@) {
        Some((k, v)) => if k == "osVersion"@ && d.os_version.len() == 0 {
            DeviceView { os_version: v, ..d }
        } else if k == "platform"@ && d.platform.len() == 0 {
            DeviceView { platform: v, ..d }
        } else if k == "model"@ && d.model_hash.len() == 0 {
            DeviceView { model_hash: v, ..d }
        } else {
            d
        },
        None => d,
    }
}

/// The parameters in order, each setting an identity field not yet set.
pub open spec fn tips_params(params: Seq<Seq<char>>, d: DeviceView) -> DeviceView
    decreases params.len(),
{
    if params.len() == 0 {
        d
    } else {
        tips_param(params.last(), tips_params(params.drop_last(), d))
    }
}

/// Device identity parameters of an Apple Tips URL.
pub open spec fn tips_url(url: Seq<char>, d: DeviceView) -> DeviceView {
    tips_params(split_on(url, '&'), d)
}

/// Parse device identity parameters from an Apple Tips URL: the first
/// `osVersion`, `platform` and `model` values fill fields not yet set.
pub fn parse_tips_url(url: &str, device: &mut DeviceInsight)
    ensures
        final(device)@ == tips_url(url@, old(device)@),
{
    proof {
        reveal_strlit("=");
        reveal_strlit("osVersion");
        reveal_strlit("platform");
        reveal_strlit("model");
    }
    let params = split_char(url, '&');
    let ghost ps = split_on(url@, '&');
    let mut i: usize = 0;
    let ghost d0 = device@;
    assert(ps.subrange(0, 0) =~= Seq::<Seq<char>>::empty());
    while i < params.len()
        invariant
            params@.len() == ps.len(),
            ps == split_on(url@, '&'),
            forall|k: int| 0 <= k < params@.len() ==> (#[trigger] params@[k])@ == ps[k],
            i <= params.len(),
            d0 == old(device)@,
            device@ == tips_params(ps.subrange(0, i as int), d0),
        decreases params.len() - i,
    {
        assert(ps.subrange(0, i + 1).drop_last() =~= ps.subrange(0, i as int));
        assert(ps.subrange(0, i + 1).last() == params@[i as int]@);
        let pieces = split_char(params[i].as_str(), '?');
        proof {
            lemma_split_nonempty(params@[i as int]@, '?');
        }
        let p = pieces[pieces.len() - 1].as_str();
        match crate::text::split_once_str(p, "=") {
            Some((key, val)) => {
                if str_eq(key.as_str(), "osVersion") && device.os_version.as_str().is_empty() {
                    device.os_version = val;
                } else if str_eq(key.as_str(), "platform") && device.platform.as_str().is_empty() {
                    device.platform = val;
                } else if str_eq(key.as_str(), "model") && device.model_hash.as_str().is_empty() {
                    device.model_hash = val;
                }
            },
            None => {},
        }
        i = i + 1;
    }
    assert(ps.subrange(0, i as int) =~= ps);
}

/// Tips URLs among the string values, in order.
pub open spec fn tips_values(values: Seq<Seq<char>>, d: DeviceView) -> DeviceView
    decreases values.len(),
{
    if values.len() == 0 {
        d
    } else {
        let a = tips_values(values.drop_last(), d);
        let s = values.last();
        if contains(s, "ipcdn.apple.com"@) && contains(s, "osVersion="@) {
            tips_url(s, a)
        } else {
            a
        }
    }
}

/// One record's contribution to the device identity.
pub open spec fn device_step(r: DecodedRecord, d: DeviceView) -> DeviceView {
    tips_values(
        crate::app_profile::string_values(r.fields@),
        device_locale_step(first_event(r), r.fields@, device_safari_step(r, d)),
    )
}

/// The device identity after all records, in order.
pub open spec fn device_fold(records: Seq<DecodedRecord>, d: DeviceView) -> DeviceView
    decreases records.len(),
{
    if records.len() == 0 {
        d
    } else {
        device_step(records.last(), device_fold(records.drop_last(), d))
    }
}

/// Extract Safari client and version for device identity.
fn extract_device_safari(ev: &str, r: &DecodedRecord, device: &mut DeviceInsight)
    requires
        ev@ == first_event(*r),
    ensures
        final(device)@ == device_safari_step(*r, old(device)@),
{
    proof {
        reveal_strlit("com.apple.Safari");
        reveal_strlit("Safari");
        reveal_strlit("Mac");
        reveal_strlit("macOS");
    }
    if !starts_with(ev, "com.apple.Safari") && !contains_str(r.transform_name.as_str(), "Safari") {
        return;
    }
    match field_str(&r.fields, "safariClient") {
        Some(client) => {
            if device.platform.as_str().is_empty() && contains_str(client.as_str(), "Mac") {
                device.platform = string_of("macOS");
            }
        },
        None => {},
    }
    set_if_empty(&mut device.safari_version, field_str(&r.fields, "safariVersion"));
}

/// Extract Apple Intelligence locale for device identity.
fn extract_device_ai_locale(ev: &str, fields: &Vec<(String, JsonValue)>, device: &mut DeviceInsight)
    ensures
        final(device)@ == device_locale_step(ev@, fields@, old(device)@),
{
    proof {
        reveal_strlit("AppleIntelligence");
        reveal_strlit("AppleIntelligenceReporting");
    }
    if !contains_str(ev, "AppleIntelligence") && !contains_str(ev, "AppleIntelligenceReporting") {
        return;
    }
    set_if_empty(&mut device.ai_locale, field_str(fields, "AppleIntelligenceLocale"));
}

/// Extract device identity from Tips feed URLs.
fn extract_device_tips_url(fields: &Vec<(String, JsonValue)>, device: &mut DeviceInsight)
    ensures
        final(device)@ == tips_values(crate::app_profile::string_values(fields@), old(device)@),
{
    proof {
        reveal_strlit("ipcdn.apple.com");
        reveal_strlit("osVersion=");
    }
    let values = crate::app_profile::string_value_list(fields);
    let ghost sv = crate::app_profile::string_values(fields@);
    let ghost d0 = device@;
    let mut i: usize = 0;
    assert(sv.subrange(0, 0) =~= Seq::<Seq<char>>::empty());
    while i < values.len()
        invariant
            sv == values@.map_values(|s: String| s@),
            i <= values.len(),
            d0 == old(device)@,
            device@ == tips_values(sv.subrange(0, i as int), d0),
        decreases values.len() - i,
    {
        assert(sv.subrange(0, i + 1).drop_last() =~= sv.subrange(0, i as int));
        assert(sv.subrange(0, i + 1).last() == values@[i as int]@);
        let s = values[i].as_str();
        if contains_str(s, "ipcdn.apple.com") && contains_str(s, "osVersion=") {
            parse_tips_url(s, device);
        }
        i = i + 1;
    }
    assert(sv.subrange(0, i as int) =~= sv);
}

/// Extract device identity information from decoded records: Safari
/// version (browser and OS), Apple Intelligence locale, and Tips URLs
/// (platform, OS version and model hash). Fields already set are kept.
pub fn extract_device_insights(records: &[DecodedRecord], device: &mut DeviceInsight)
    ensures
        final(device)@ == device_fold(records@, old(device)@),
{
    let ghost d0 = device@;
    let mut n: usize = 0;
    assert(records@.subrange(0, 0) =~= Seq::<DecodedRecord>::empty());
    while n < records.len()
        invariant
            n <= records@.len(),
            d0 == old(device)@,
            device@ == device_fold(records@.subrange(0, n as int), d0),
        decreases records.len() - n,
    {
        assert(records@.subrange(0, n + 1).drop_last() =~= records@.subrange(0, n as int));
        let r = &records[n];
        let ev = first_event_name(r);
        extract_device_safari(ev, r, device);
        extract_device_ai_locale(ev, &r.fields, device);
        extract_device_tips_url(&r.fields, device);
        n = n + 1;
    }
    assert(records@.subrange(0, n as int) =~= records@);
}

} // verus!
