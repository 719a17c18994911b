//! Detail sections of the summary report: WiFi countries, Bluetooth,
//! Safari, privacy, location, security APIs and photos.
use crate::json::{decimal, i64_to_string, u64_to_string};
use crate::output::{concat, join, lemma_concat_push};
use crate::output_summary::{line_if, push3, push_joined};
use crate::schema::{BluetoothScanInsight, Insights, SecurityApiInsight};
use crate::text::{push_str, str_eq};
use vstd::prelude::*;

verus! {

broadcast use vstd::string::group_string_axioms;

/// Append `a`, `b` and `c` when `cond` holds.
fn push3_if(out: &mut String, cond: bool, a: &str, b: &str, c: &str)
    ensures
        final(out)@ == old(out)@ + line_if(cond, a@ + b@ + c@),
{
    if cond {
        push3(out, a, b, c);
    }
}

/// Append `a` when `cond` holds.
fn push_if(out: &mut String, cond: bool, a: &str)
    ensures
        final(out)@ == old(out)@ + line_if(cond, a@),
{
    if cond {
        push_str(out, a);
    }
}

/// The distinct nonempty countries, in order of first appearance.
pub open spec fn distinct_countries(c: Seq<Seq<char>>) -> Seq<Seq<char>>
    decreases c.len(),
{
    if c.len() == 0 {
        Seq::empty()
    } else {
        let a = distinct_countries(c.drop_last());
        if c.last().len() > 0 && !a.contains(c.last()) {
            a.push(c.last())
        } else {
            a
        }
    }
}

/// The travel note: shown when the sessions advertised more than one country.
pub open spec fn countries_text(ins: Insights) -> Seq<char> {
    let cs = distinct_countries(ins.wifi_sessions@.map_values(|s: crate::schema::WifiSessionInsight| s.country@));
    line_if(cs.len() > 1, "\n  Country codes ("@ + join(cs, ", "@) + ") reveal travel patterns without GPS.\n"@)
}

/// Emit a note when several country codes reveal travel patterns.
pub fn format_wifi_countries(out: &mut String, ins: &Insights)
    ensures
        final(out)@ == old(out)@ + countries_text(*ins),
{
    let ghost all = ins.wifi_sessions@.map_values(|s: crate::schema::WifiSessionInsight| s.country@);
    let mut seen: Vec<String> = Vec::new();
    let mut i: usize = 0;
    while i < ins.wifi_sessions.len()
        invariant
            i <= ins.wifi_sessions.len(),
            all == ins.wifi_sessions@.map_values(|s: crate::schema::WifiSessionInsight| s.country@),
            seen@.map_values(|s: String| s@) == distinct_countries(all.subrange(0, i as int)),
        decreases ins.wifi_sessions.len() - i,
    {
        assert(all.subrange(0, i + 1).drop_last() =~= all.subrange(0, i as int));
        assert(all.subrange(0, i + 1).last() == ins.wifi_sessions@[i as int].country@);
        let c = &ins.wifi_sessions[i].country;
        if !c.as_str().is_empty() && !crate::app_profile::contains_string(&seen, c.as_str()) {
            let ghost s0 = seen@.map_values(|s: String| s@);
            seen.push(c.clone());
            assert(seen@.map_values(|s: String| s@) =~= s0.push(c@));
        }
        i = i + 1;
    }
    assert(all.subrange(0, i as int) =~= all);
    if seen.len() > 1 {
        let ghost o0 = out@;
        push_str(out, "\n  Country codes (");
        push_joined(out, &seen, ", ");
        push_str(out, ") reveal travel patterns without GPS.\n");
        assert(out@ =~= o0 + countries_text(*ins));
    }
}

/// The use case of a scan in parentheses, unless empty or unspecified.
pub open spec fn use_case_text(u: Seq<char>) -> Seq<char> {
    if u.len() == 0 || u == "Unspecified"@ {
        Seq::empty()
    } else {
        " ("@ + u + ")"@
    }
}

/// The line of one scanning app.
pub open spec fn bt_line(s: BluetoothScanInsight) -> Seq<char> {
    "  "@ + s.bundle_id@ + " \u{2014} "@ + decimal(s.scan_count as int) + " sessions, max "@ + decimal(
        s.max_devices_found as int,
    ) + " devices found, "@ + decimal(s.paired_found as int) + " paired"@ + use_case_text(s.use_case@) + "\n"@
}

/// The Bluetooth section: one line per scanning app.
pub open spec fn bt_text(ins: Insights) -> Seq<char> {
    if ins.bt_scans@.len() == 0 {
        Seq::empty()
    } else {
        "\n--- Bluetooth \u{2014} Who\u{2019}s Scanning ---\n"@ + concat(
            ins.bt_scans@.map_values(|s: BluetoothScanInsight| bt_line(s)),
        )
    }
}

/// Append the line of one scanning app.
fn push_bt_line(out: &mut String, s: &BluetoothScanInsight)
    ensures
        final(out)@ == old(out)@ + bt_line(*s),
{
    let ghost o0 = out@;
    push3(out, "  ", s.bundle_id.as_str(), " \u{2014} ");
    push3(out, u64_to_string(s.scan_count).as_str(), " sessions, max ", u64_to_string(s.max_devices_found).as_str());
    push3(out, " devices found, ", u64_to_string(s.paired_found).as_str(), " paired");
    let ghost o1 = out@;
    if !s.use_case.as_str().is_empty() && !str_eq(s.use_case.as_str(), "Unspecified") {
        push3(out, " (", s.use_case.as_str(), ")");
    }
    push_str(out, "\n");
    assert(out@ =~= o0 + bt_line(*s));
}

/// Format Bluetooth scan detail per scanning application.
pub fn format_bt_detail_section(out: &mut String, ins: &Insights)
    ensures
        final(out)@ == old(out)@ + bt_text(*ins),
{
    if ins.bt_scans.len() == 0 {
        return;
    }
    let ghost lines = ins.bt_scans@.map_values(|s: BluetoothScanInsight| bt_line(s));
    let ghost o0 = out@;
    push_str(out, "\n--- Bluetooth \u{2014} Who\u{2019}s Scanning ---\n");
    let ghost o1 = out@;
    let mut i: usize = 0;
    while i < ins.bt_scans.len()
        invariant
            i <= ins.bt_scans.len(),
            lines == ins.bt_scans@.map_values(|s: BluetoothScanInsight| bt_line(s)),
            out@ == o1 + concat(lines.subrange(0, i as int)),
        decreases ins.bt_scans.len() - i,
    {
        proof {
            lemma_concat_push(lines.subrange(0, i as int), lines[i as int]);
            assert(lines.subrange(0, i + 1) =~= lines.subrange(0, i as int).push(lines[i as int]));
        }
        push_bt_line(out, &ins.bt_scans[i]);
        i = i + 1;
    }
    assert(lines.subrange(0, i as int) =~= lines);
    assert(out@ =~= o0 + bt_text(*ins));
}

/// The first Safari lines: search engine, tab count, searches.
pub open spec fn safari_lines_a(s: crate::schema::SafariInsight) -> Seq<char> {
    line_if(s.search_engine@.len() > 0, "  Search engine: "@ + s.search_engine@ + "\n"@) + line_if(
        s.tab_count > 0,
        "  Typical tab count: ~"@ + decimal(s.tab_count as int) + "\n"@,
    ) + line_if(s.search_count > 0, "  Searches tracked: "@ + decimal(s.search_count as int) + "\n"@)
}

/// The last Safari lines: form submissions, region, page locales.
pub open spec fn safari_lines_b(s: crate::schema::SafariInsight) -> Seq<char> {
    line_if(s.form_submissions > 0, "  Form submissions: "@ + decimal(s.form_submissions as int) + "\n"@) + line_if(
        s.user_region@.len() > 0,
        "  User region: "@ + s.user_region@ + "\n"@,
    ) + line_if(
        s.webpage_locales@.len() > 0,
        "  Page locales visited: "@ + join(s.webpage_locales@.map_values(|x: String| x@), ", "@) + "\n"@,
    )
}

/// The Safari section.
pub open spec fn safari_text(ins: Insights) -> Seq<char> {
    let s = ins.safari;
    if s.search_engine@.len() == 0 && s.tab_count == 0 && s.search_count == 0 {
        Seq::empty()
    } else {
        "\n--- Safari \u{2014} Your Browsing Profile ---\n"@ + safari_lines_a(s) + safari_lines_b(s)
    }
}

/// Append the first Safari lines.
fn push_safari_a(out: &mut String, s: &crate::schema::SafariInsight)
    ensures
        final(out)@ == old(out)@ + safari_lines_a(*s),
{
    let ghost o0 = out@;
    push3_if(out, !s.search_engine.as_str().is_empty(), "  Search engine: ", s.search_engine.as_str(), "\n");
    push3_if(out, s.tab_count > 0, "  Typical tab count: ~", u64_to_string(s.tab_count).as_str(), "\n");
    push3_if(out, s.search_count > 0, "  Searches tracked: ", u64_to_string(s.search_count).as_str(), "\n");
    assert(out@ =~= o0 + safari_lines_a(*s));
}

/// Append the last Safari lines.
fn push_safari_b(out: &mut String, s: &crate::schema::SafariInsight)
    ensures
        final(out)@ == old(out)@ + safari_lines_b(*s),
{
    let ghost o0 = out@;
    push3_if(out, s.form_submissions > 0, "  Form submissions: ", u64_to_string(s.form_submissions).as_str(), "\n");
    push3_if(out, !s.user_region.as_str().is_empty(), "  User region: ", s.user_region.as_str(), "\n");
    let ghost o1 = out@;
    if s.webpage_locales.len() > 0 {
        push_str(out, "  Page locales visited: ");
        push_joined(out, &s.webpage_locales, ", ");
        push_str(out, "\n");
    }
    assert(out@ =~= o0 + safari_lines_b(*s));
}

/// Format Safari browsing profile.
pub fn format_safari_section(out: &mut String, ins: &Insights)
    ensures
        final(out)@ == old(out)@ + safari_text(*ins),
{
    let s = &ins.safari;
    if s.search_engine.as_str().is_empty() && s.tab_count == 0 && s.search_count == 0 {
        return;
    }
    let ghost o0 = out@;
    push_str(out, "\n--- Safari \u{2014} Your Browsing Profile ---\n");
    push_safari_a(out, s);
    push_safari_b(out, s);
    assert(out@ =~= o0 + safari_text(*ins));
}

/// The privacy tool lines.
pub open spec fn privacy_lines_a(p: crate::schema::PrivacyInsight) -> Seq<char> {
    line_if(p.vpn_detected, "  VPN: detected\n"@) + line_if(p.content_filter_detected, "  Content filter: detected\n"@)
        + line_if(p.dns_proxy_detected, "  DNS proxy: detected\n"@)
}

/// The relay and counter lines.
pub open spec fn privacy_lines_b(p: crate::schema::PrivacyInsight) -> Seq<char> {
    line_if(p.private_relay_status@.len() > 0, "  iCloud Private Relay: "@ + p.private_relay_status@ + "\n"@) + line_if(
        p.dns_stalls > 0,
        "  DNS stalls observed: "@ + decimal(p.dns_stalls as int) + "\n"@,
    ) + line_if(p.connection_failures > 0, "  Connection failures: "@ + decimal(p.connection_failures as int) + "\n"@)
}

/// The privacy section.
pub open spec fn privacy_text(ins: Insights) -> Seq<char> {
    let p = ins.privacy;
    if !p.vpn_detected && !p.content_filter_detected && p.private_relay_status@.len() == 0 {
        Seq::empty()
    } else {
        "\n--- Privacy Tools \u{2014} Apple Knows ---\n"@ + privacy_lines_a(p) + privacy_lines_b(p)
    }
}

/// Append the privacy tool lines.
fn push_privacy_a(out: &mut String, p: &crate::schema::PrivacyInsight)
    ensures
        final(out)@ == old(out)@ + privacy_lines_a(*p),
{
    let ghost o0 = out@;
    push_if(out, p.vpn_detected, "  VPN: detected\n");
    push_if(out, p.content_filter_detected, "  Content filter: detected\n");
    push_if(out, p.dns_proxy_detected, "  DNS proxy: detected\n");
    assert(out@ =~= o0 + privacy_lines_a(*p));
}

/// Append the relay and counter lines.
fn push_privacy_b(out: &mut String, p: &crate::schema::PrivacyInsight)
    ensures
        final(out)@ == old(out)@ + privacy_lines_b(*p),
{
    let ghost o0 = out@;
    push3_if(
        out,
        !p.private_relay_status.as_str().is_empty(),
        "  iCloud Private Relay: ",
        p.private_relay_status.as_str(),
        "\n",
    );
    push3_if(out, p.dns_stalls > 0, "  DNS stalls observed: ", i64_to_string(p.dns_stalls).as_str(), "\n");
    push3_if(
        out,
        p.connection_failures > 0,
        "  Connection failures: ",
        i64_to_string(p.connection_failures).as_str(),
        "\n",
    );
    assert(out@ =~= o0 + privacy_lines_b(*p));
}

/// Format privacy tool awareness section.
pub fn format_privacy_section(out: &mut String, ins: &Insights)
    ensures
        final(out)@ == old(out)@ + privacy_text(*ins),
{
    let p = &ins.privacy;
    if !p.vpn_detected && !p.content_filter_detected && p.private_relay_status.as_str().is_empty() {
        return;
    }
    let ghost o0 = out@;
    push_str(out, "\n--- Privacy Tools \u{2014} Apple Knows ---\n");
    push_privacy_a(out, p);
    push_privacy_b(out, p);
    assert(out@ =~= o0 + privacy_text(*ins));
}

/// The location section.
pub open spec fn location_text(ins: Insights) -> Seq<char> {
    let l = ins.location;
    if !l.home_detected && l.location_queries == 0 && l.heartbeat_count == 0 {
        Seq::empty()
    } else {
        "\n--- Location \u{2014} Tracking Your Movements ---\n"@ + line_if(
            l.home_detected,
            "  Home location: identified\n"@,
        ) + line_if(
            l.location_queries > 0,
            "  WiFi-based location queries: "@ + decimal(l.location_queries as int) + "\n"@,
        ) + line_if(
            l.heartbeat_count > 0,
            "  Location awareness heartbeats: "@ + decimal(l.heartbeat_count as int) + "\n"@,
        ) + line_if(l.poi_tile_downloads, "  POI map tiles: pre-downloaded on battery\n"@)
    }
}

/// Format location tracking profile.
pub fn format_location_section(out: &mut String, ins: &Insights)
    ensures
        final(out)@ == old(out)@ + location_text(*ins),
{
    let l = &ins.location;
    if !l.home_detected && l.location_queries == 0 && l.heartbeat_count == 0 {
        return;
    }
    let ghost o0 = out@;
    push_str(out, "\n--- Location \u{2014} Tracking Your Movements ---\n");
    if l.home_detected {
        push_str(out, "  Home location: identified\n");
    }
    let ghost o1 = out@;
    if l.location_queries > 0 {
        push3(out, "  WiFi-based location queries: ", u64_to_string(l.location_queries).as_str(), "\n");
    }
    let ghost o2 = out@;
    if l.heartbeat_count > 0 {
        push3(out, "  Location awareness heartbeats: ", u64_to_string(l.heartbeat_count).as_str(), "\n");
    }
    let ghost o3 = out@;
    if l.poi_tile_downloads {
        push_str(out, "  POI map tiles: pre-downloaded on battery\n");
    }
    assert(out@ =~= o0 + location_text(*ins));
}

/// The line of one app's security APIs.
pub open spec fn security_line(s: SecurityApiInsight) -> Seq<char> {
    "  "@ + s.app@ + ": "@ + join(s.apis@.map_values(|x: String| x@), ", "@) + "\n"@
}

/// The security APIs section.
pub open spec fn security_text(ins: Insights) -> Seq<char> {
    if ins.security_apis@.len() == 0 {
        Seq::empty()
    } else {
        "\n--- Security APIs \u{2014} App Keychain Access ---\n"@ + concat(
            ins.security_apis@.map_values(|s: SecurityApiInsight| security_line(s)),
        )
    }
}

/// Format per-app security API usage.
pub fn format_security_api_section(out: &mut String, ins: &Insights)
    ensures
        final(out)@ == old(out)@ + security_text(*ins),
{
    if ins.security_apis.len() == 0 {
        return;
    }
    let ghost lines = ins.security_apis@.map_values(|s: SecurityApiInsight| security_line(s));
    let ghost o0 = out@;
    push_str(out, "\n--- Security APIs \u{2014} App Keychain Access ---\n");
    let ghost o1 = out@;
    let mut i: usize = 0;
    while i < ins.security_apis.len()
        invariant
            i <= ins.security_apis.len(),
            lines == ins.security_apis@.map_values(|s: SecurityApiInsight| security_line(s)),
            out@ == o1 + concat(lines.subrange(0, i as int)),
        decreases ins.security_apis.len() - i,
    {
        proof {
            lemma_concat_push(lines.subrange(0, i as int), lines[i as int]);
            assert(lines.subrange(0, i + 1) =~= lines.subrange(0, i as int).push(lines[i as int]));
        }
        let ghost before = out@;
        push3(out, "  ", ins.security_apis[i].app.as_str(), ": ");
        push_joined(out, &ins.security_apis[i].apis, ", ");
        push_str(out, "\n");
        assert(out@ =~= before + lines[i as int]);
        i = i + 1;
    }
    assert(lines.subrange(0, i as int) =~= lines);
    assert(out@ =~= o0 + security_text(*ins));
}

/// The photo count lines.
pub open spec fn photos_lines_a(p: crate::schema::PhotosInsight) -> Seq<char> {
    line_if(p.total_assets > 0, "  Total assets: "@ + decimal(p.total_assets as int) + "\n"@) + line_if(
        p.moments > 0,
        "  Moments: "@ + decimal(p.moments as int) + "\n"@,
    ) + line_if(p.library_size@.len() > 0, "  Library size: "@ + p.library_size@ + "\n"@)
}

/// The subscription lines.
pub open spec fn photos_lines_b(p: crate::schema::PhotosInsight) -> Seq<char> {
    "  Apple Music: "@ + (if p.has_apple_music {
        "subscribed"@
    } else {
        "no"@
    }) + "\n"@ + "  iCloud Photos: "@ + (if p.icloud_photos_enabled {
        "enabled"@
    } else {
        "disabled"@
    }) + "\n"@
}

/// The photos section, without the analysis progress lines.
pub open spec fn photos_text(ins: Insights) -> Seq<char> {
    let p = ins.photos;
    if p.total_assets == 0 && p.moments == 0 && p.library_size@.len() == 0 {
        Seq::empty()
    } else {
        "\n--- Photos \u{2014} Your Library Profile ---\n"@ + photos_lines_a(p) + photos_lines_b(p)
    }
}

/// Append the photo count lines.
fn push_photos_a(out: &mut String, p: &crate::schema::PhotosInsight)
    ensures
        final(out)@ == old(out)@ + photos_lines_a(*p),
{
    let ghost o0 = out@;
    push3_if(out, p.total_assets > 0, "  Total assets: ", u64_to_string(p.total_assets).as_str(), "\n");
    push3_if(out, p.moments > 0, "  Moments: ", u64_to_string(p.moments).as_str(), "\n");
    push3_if(out, !p.library_size.as_str().is_empty(), "  Library size: ", p.library_size.as_str(), "\n");
    assert(out@ =~= o0 + photos_lines_a(*p));
}

/// Format the photos library profile (the analysis progress lines, which
/// come from fractions, are added by the program around the library).
pub fn format_photos_section(out: &mut String, ins: &Insights)
    ensures
        final(out)@ == old(out)@ + photos_text(*ins),
{
    let p = &ins.photos;
    if p.total_assets == 0 && p.moments == 0 && p.library_size.as_str().is_empty() {
        return;
    }
    let ghost o0 = out@;
    push_str(out, "\n--- Photos \u{2014} Your Library Profile ---\n");
    push_photos_a(out, p);
    let ghost o1 = out@;
    push3(out, "  Apple Music: ", if p.has_apple_music { "subscribed" } else { "no" }, "\n");
    push3(out, "  iCloud Photos: ", if p.icloud_photos_enabled { "enabled" } else { "disabled" }, "\n");
    assert(out@ =~= o1 + photos_lines_b(*p));
    assert(out@ =~= o0 + photos_text(*ins));
}

} // verus!
