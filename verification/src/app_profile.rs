//! App profile extraction: groups decoded records by bundle ID and classifies
//! capabilities.
use crate::fields::{field_is, field_str, field_str_or_empty, field_text, field_text_or_empty, field_i64, field_int};
use crate::json::{display_text, format_value, value_i64, value_str, JsonValue};
use crate::schema::{AppCapability, AppProfile, BinaryFingerprint, DecodedRecord};
use crate::sort::{lemma_lex_total, lemma_lex_trans, lex_le, sort_by_order, sorted, str_le, insertion_sort, lemma_sort_map, Order, Preorder};
use crate::text::{ascii_lower, chars_of, push_str, is_prefix, starts_with, contains, contains_char, contains_str, has_char, last_index_of, split_char, split_on, split_once, split_once_str, str_eq, string_from_chars, string_of, to_ascii_lowercase, trim, trim_str};
use vstd::prelude::*;

verus! {

broadcast use vstd::string::group_string_axioms;

/// What a profile holds, as plain values.
pub struct ProfileView {
    /// Bundle identifier.
    pub bundle_id: Seq<char>,
    /// App version.
    pub version: Seq<char>,
    /// Seconds of active use.
    pub active_seconds: i64,
    /// Total uptime in seconds.
    pub uptime_seconds: i64,
    /// Used in the foreground.
    pub foreground: bool,
    /// Activation count.
    pub activations: i64,
    /// Launch count.
    pub launches: i64,
    /// Capabilities as (kind, source event).
    pub capabilities: Seq<(Seq<char>, Seq<char>)>,
    /// Binaries as (cdhash, signing id).
    pub binaries: Seq<(Seq<char>, Seq<char>)>,
    /// Security APIs.
    pub security_apis: Seq<Seq<char>>,
    /// Network interface.
    pub interface: Seq<char>,
    /// Network byte values.
    pub bytes_values: Seq<i64>,
    /// Hardware (label, value) pairs.
    pub hardware: Seq<(Seq<char>, Seq<char>)>,
    /// Number of records.
    pub record_count: nat,
}

impl View for AppProfile {
    type V = ProfileView;

    open spec fn view(&self) -> ProfileView {
        ProfileView {
            bundle_id: self.bundle_id@,
            version: self.version@,
            active_seconds: self.active_seconds,
            uptime_seconds: self.uptime_seconds,
            foreground: self.foreground,
            activations: self.activations,
            launches: self.launches,
            capabilities: self.capabilities@.map_values(|c: AppCapability| (c.kind@, c.source_event@)),
            binaries: self.binaries@.map_values(|b: BinaryFingerprint| (b.cdhash@, b.signing_id@)),
            security_apis: self.security_apis@.map_values(|s: String| s@),
            interface: self.network.interface@,
            bytes_values: self.network.bytes_values@,
            hardware: self.hardware@.map_values(|h: (String, String)| (h.0@, h.1@)),
            record_count: self.record_count as nat,
        }
    }
}

/// The first event name of a record, or the empty sequence.
pub open spec fn first_event(r: DecodedRecord) -> Seq<char> {
    if r.event_names@.len() > 0 {
        r.event_names@[0]@
    } else {
        Seq::empty()
    }
}

/// The string values among the fields, in order.
pub open spec fn string_values(fields: Seq<(String, JsonValue)>) -> Seq<Seq<char>>
    decreases fields.len(),
{
    if fields.len() == 0 {
        Seq::empty()
    } else {
        let rest = string_values(fields.drop_last());
        match value_str(fields.last().1) {
            Some(s) => rest.push(s),
            None => rest,
        }
    }
}

/// The string values among the fields, in order.
pub fn string_value_list(fields: &Vec<(String, JsonValue)>) -> (r: Vec<String>)
    ensures
        r@.map_values(|s: String| s@) == string_values(fields@),
{
    let mut r: Vec<String> = Vec::new();
    let mut i: usize = 0;
    while i < fields.len()
        invariant
            i <= fields.len(),
            r@.map_values(|s: String| s@) == string_values(fields@.subrange(0, i as int)),
        decreases fields.len() - i,
    {
        assert(fields@.subrange(0, i + 1).drop_last() =~= fields@.subrange(0, i as int));
        assert(fields@.subrange(0, i + 1).last() == fields@[i as int]);
        match fields[i].1.as_str() {
            Some(s) => {
                let t = string_of(s);
                let ghost before = r@;
                r.push(t);
                assert(r@.map_values(|s: String| s@) =~= before.map_values(|s: String| s@).push(t@));
            },
            None => {},
        }
        i = i + 1;
    }
    assert(fields@.subrange(0, fields@.len() as int) =~= fields@);
    r
}

/// Bundle IDs contain dots and no spaces (e.g. "com.apple.Safari").
pub open spec fn looks_like_bundle(s: Seq<char>) -> bool {
    s.len() > 0 && has_char(s, '.') && !has_char(s, ' ')
}

/// Check whether a string looks like a bundle identifier.
pub fn looks_like_bundle_id(s: &str) -> (r: bool)
    ensures
        r == looks_like_bundle(s@),
{
    s.unicode_len() > 0 && contains_char(s, '.') && !contains_char(s, ' ')
}

/// A path segment whose extension is `app`, ignoring ASCII case.
pub open spec fn is_app_segment(seg: Seq<char>) -> bool {
    match last_index_of(seg, '.') {
        Some(d) => d > 0 && ascii_lower(seg.subrange(d + 1, seg.len() as int)) == "app"@,
        None => false,
    }
}

/// The first segment that names an app bundle.
pub open spec fn first_app_segment(segs: Seq<Seq<char>>) -> Option<Seq<char>>
    decreases segs.len(),
{
    if segs.len() == 0 {
        None
    } else if is_app_segment(segs[0]) {
        Some(segs[0])
    } else {
        first_app_segment(segs.drop_first())
    }
}

/// The `.app` bundle named in an application path, if any.
pub open spec fn bundle_from_path(s: Seq<char>) -> Option<Seq<char>> {
    if !contains(s, "/Applications/"@) && !contains(s, ".app/"@) {
        None
    } else {
        first_app_segment(split_on(s, '/'))
    }
}

/// Index of the last occurrence of a character.
fn last_index(v: &Vec<char>, c: char) -> (r: Option<usize>)
    ensures
        match r {
            Some(i) => last_index_of(v@, c) == Some(i as int) && i < v@.len(),
            None => last_index_of(v@, c) is None,
        },
{
    let mut j: usize = v.len();
    assert(v@.subrange(0, j as int) =~= v@);
    while j > 0
        invariant
            j <= v.len(),
            last_index_of(v@, c) == last_index_of(v@.subrange(0, j as int), c),
        decreases j,
    {
        assert(v@.subrange(0, j as int).last() == v@[j - 1]);
        assert(v@.subrange(0, j as int).drop_last() =~= v@.subrange(0, j - 1));
        if v[j - 1] == c {
            return Some(j - 1);
        }
        j = j - 1;
    }
    None
}

/// Whether a path segment names an app bundle.
fn app_segment(seg: &str) -> (r: bool)
    ensures
        r == is_app_segment(seg@),
{
    let v = chars_of(seg);
    match last_index(&v, '.') {
        Some(d) => {
            if d == 0 {
                return false;
            }
            let ext = string_from_chars(&v, d + 1, v.len());
            let low = to_ascii_lowercase(ext.as_str());
            str_eq(low.as_str(), "app")
        },
        None => false,
    }
}

/// Try to extract a bundle-like name from an application path: paths like
/// `/Applications/Zed.app/Contents/MacOS/zed` yield `Zed.app`.
pub fn extract_bundle_from_path(s: &str) -> (r: Option<String>)
    ensures
        match (r, bundle_from_path(s@)) {
            (Some(a), Some(b)) => a@ == b,
            (None, None) => true,
            _ => false,
        },
{
    if !contains_str(s, "/Applications/") && !contains_str(s, ".app/") {
        return None;
    }
    let segs = split_char(s, '/');
    let mut i: usize = 0;
    assert(split_on(s@, '/').skip(0) =~= split_on(s@, '/'));
    while i < segs.len()
        invariant
            segs@.len() == split_on(s@, '/').len(),
            forall|k: int| 0 <= k < segs@.len() ==> (#[trigger] segs@[k])@ == split_on(s@, '/')[k],
            i <= segs.len(),
            contains(s@, "/Applications/"@) || contains(s@, ".app/"@),
            first_app_segment(split_on(s@, '/')) == first_app_segment(split_on(s@, '/').skip(i as int)),
        decreases segs.len() - i,
    {
        let ghost sp = split_on(s@, '/');
        assert(sp.skip(i as int)[0] == sp[i as int]);
        assert(sp.skip(i as int).drop_first() =~= sp.skip(i + 1));
        assert(segs@[i as int]@ == sp[i as int]);
        if app_segment(segs[i].as_str()) {
            return Some(segs[i].clone());
        }
        i = i + 1;
    }
    None
}

/// The name and version of an app description "name ||| version".
pub open spec fn desc_parts(desc: Seq<char>) -> (Seq<char>, Seq<char>) {
    match split_once(desc, " ||| "@) {
        Some((a, b)) => (trim(a), trim(b)),
        None => (desc, Seq::empty()),
    }
}

/// Parse "com.example.app ||| 1.2.3 (build)" into (name, version).
pub fn parse_app_description(desc: &str) -> (r: (String, String))
    ensures
        (r.0@, r.1@) == desc_parts(desc@),
{
    match split_once_str(desc, " ||| ") {
        Some((name, version)) => (trim_str(name.as_str()), trim_str(version.as_str())),
        None => (string_of(desc), String::new()),
    }
}

/// Known field names that contain a bundle identifier, in the order checked.
pub open spec fn bundle_fields() -> Seq<Seq<char>> {
    seq![
        "appDescription"@,
        "appIdentifier"@,
        "bundleIdentifier"@,
        "app_bundleid"@,
        "BundleID"@,
        "bundle_id"@,
        "signingIdentifier"@,
    ]
}

/// The bundle candidate of a field value (an app description's name part).
pub open spec fn candidate(field_name: Seq<char>, val: Seq<char>) -> Seq<char> {
    if field_name == "appDescription"@ {
        desc_parts(val).0
    } else {
        val
    }
}

/// The first known field whose candidate looks like a bundle ID.
pub open spec fn bundle_from_fields(fields: Seq<(String, JsonValue)>, names: Seq<Seq<char>>) -> Option<Seq<char>>
    decreases names.len(),
{
    if names.len() == 0 {
        None
    } else {
        match field_text(fields, names[0]) {
            Some(v) => if looks_like_bundle(candidate(names[0], v)) {
                Some(candidate(names[0], v))
            } else {
                bundle_from_fields(fields, names.drop_first())
            },
            None => bundle_from_fields(fields, names.drop_first()),
        }
    }
}

/// A value that is itself a bundle ID: it looks like one and names a known
/// reverse-domain prefix.
pub open spec fn direct_bundle(s: Seq<char>) -> bool {
    &&& looks_like_bundle(s)
    &&& {
        ||| contains(s, "com."@)
        ||| contains(s, "dev."@)
        ||| contains(s, "ch."@)
        ||| contains(s, "us."@)
        ||| contains(s, "org."@)
        ||| contains(s, "io."@)
    }
}

/// The first value taken directly as a bundle ID.
pub open spec fn first_direct(values: Seq<Seq<char>>) -> Option<Seq<char>>
    decreases values.len(),
{
    if values.len() == 0 {
        None
    } else if direct_bundle(values[0]) {
        Some(values[0])
    } else {
        first_direct(values.drop_first())
    }
}

/// The bundle of the first value that is an application path.
pub open spec fn first_path_bundle(values: Seq<Seq<char>>) -> Option<Seq<char>>
    decreases values.len(),
{
    if values.len() == 0 {
        None
    } else if bundle_from_path(values[0]) is Some {
        bundle_from_path(values[0])
    } else {
        first_path_bundle(values.drop_first())
    }
}

/// The bundle ID of a record: from known fields, else a value that is a
/// bundle ID, else the app named in a path.
pub open spec fn bundle_id_of(fields: Seq<(String, JsonValue)>) -> Option<Seq<char>> {
    match bundle_from_fields(fields, bundle_fields()) {
        Some(b) => Some(b),
        None => match first_direct(string_values(fields)) {
            Some(s) => Some(s),
            None => first_path_bundle(string_values(fields)),
        },
    }
}

/// The bundle field names, as executable data.
fn bundle_field_names() -> (r: Vec<&'static str>)
    ensures
        r@.len() == bundle_fields().len(),
        forall|i: int| 0 <= i < r@.len() ==> (#[trigger] r@[i])@ == bundle_fields()[i],
{
    vec![
        "appDescription",
        "appIdentifier",
        "bundleIdentifier",
        "app_bundleid",
        "BundleID",
        "bundle_id",
        "signingIdentifier",
    ]
}

/// Whether a value is taken directly as a bundle ID.
fn is_direct_bundle(s: &str) -> (r: bool)
    ensures
        r == direct_bundle(s@),
{
    looks_like_bundle_id(s) && (contains_str(s, "com.") || contains_str(s, "dev.") || contains_str(s, "ch.")
        || contains_str(s, "us.") || contains_str(s, "org.") || contains_str(s, "io."))
}

/// Extract a bundle ID from a decoded record by checking known field names,
/// then values that are bundle IDs, then application paths.
pub fn extract_bundle_id(record: &DecodedRecord) -> (r: Option<String>)
    ensures
        match (r, bundle_id_of(record.fields@)) {
            (Some(a), Some(b)) => a@ == b,
            (None, None) => true,
            _ => false,
        },
{
    let names = bundle_field_names();
    let mut i: usize = 0;
    assert(bundle_fields().skip(0) =~= bundle_fields());
    while i < names.len()
        invariant
            names@.len() == bundle_fields().len(),
            forall|k: int| 0 <= k < names@.len() ==> (#[trigger] names@[k])@ == bundle_fields()[k],
            i <= names.len(),
            bundle_from_fields(record.fields@, bundle_fields()) == bundle_from_fields(
                record.fields@,
                bundle_fields().skip(i as int),
            ),
        decreases names.len() - i,
    {
        let ghost bf = bundle_fields();
        assert(bf.skip(i as int)[0] == bf[i as int]);
        assert(bf.skip(i as int).drop_first() =~= bf.skip(i + 1));
        let name = names[i];
        match field_str(&record.fields, name) {
            Some(val) => {
                let cand = if str_eq(name, "appDescription") {
                    let (n, _) = parse_app_description(val.as_str());
                    n
                } else {
                    val
                };
                if looks_like_bundle_id(cand.as_str()) {
                    return Some(cand);
                }
            },
            None => {},
        }
        i = i + 1;
    }
    let values = string_value_list(&record.fields);
    let ghost sv = string_values(record.fields@);
    assert(sv.len() == values@.len());
    let mut path_bundle: Option<String> = None;
    let mut j: usize = 0;
    assert(sv.skip(0) =~= sv);
    while j < values.len()
        invariant
            sv == values@.map_values(|s: String| s@),
            sv == string_values(record.fields@),
            bundle_from_fields(record.fields@, bundle_fields()) is None,
            j <= values.len(),
            first_direct(sv) == first_direct(sv.skip(j as int)),
            match path_bundle {
                Some(p) => first_path_bundle(sv) == Some(p@),
                None => first_path_bundle(sv) == first_path_bundle(sv.skip(j as int)),
            },
        decreases values.len() - j,
    {
        assert(sv.skip(j as int)[0] == sv[j as int]);
        assert(sv.skip(j as int).drop_first() =~= sv.skip(j + 1));
        assert(values@[j as int]@ == sv[j as int]);
        let s = values[j].as_str();
        if is_direct_bundle(s) {
            return Some(string_of(s));
        }
        if path_bundle.is_none() {
            path_bundle = extract_bundle_from_path(s);
        }
        j = j + 1;
    }
    path_bundle
}

/// Some field value, lowercased, contains the lowercased query.
pub open spec fn matches_query(fields: Seq<(String, JsonValue)>, query: Seq<char>) -> bool {
    exists|i: int|
        0 <= i < fields.len() && contains(ascii_lower(display_text(#[trigger] fields[i].1)), ascii_lower(query))
}

/// Check if any field value in a record contains the query (case-insensitive).
pub fn record_matches_query(record: &DecodedRecord, query: &str) -> (r: bool)
    ensures
        r == matches_query(record.fields@, query@),
{
    let q = to_ascii_lowercase(query);
    let mut i: usize = 0;
    while i < record.fields.len()
        invariant
            q@ == ascii_lower(query@),
            i <= record.fields.len(),
            forall|k: int|
                0 <= k < i ==> !contains(ascii_lower(display_text(#[trigger] record.fields@[k].1)), q@),
        decreases record.fields.len() - i,
    {
        let text = format_value(&record.fields[i].1);
        let low = to_ascii_lowercase(text.as_str());
        if contains_str(low.as_str(), q.as_str()) {
            return true;
        }
        i = i + 1;
    }
    false
}

/// The bundle found by fuzzy search among string values that contain the
/// lowercased query.
pub open spec fn fuzzy_in(values: Seq<Seq<char>>, ql: Seq<char>) -> Option<Seq<char>>
    decreases values.len(),
{
    if values.len() == 0 {
        None
    } else {
        let s = values[0];
        if contains(ascii_lower(s), ql) && contains(s, ".app"@) && bundle_from_path(s) is Some {
            bundle_from_path(s)
        } else if contains(ascii_lower(s), ql) && looks_like_bundle(s) {
            Some(s)
        } else {
            fuzzy_in(values.drop_first(), ql)
        }
    }
}

/// Try to find a bundle-ID-like string that contains the query.
pub fn extract_bundle_id_fuzzy(record: &DecodedRecord, query: &str) -> (r: Option<String>)
    ensures
        match (r, fuzzy_in(string_values(record.fields@), ascii_lower(query@))) {
            (Some(a), Some(b)) => a@ == b,
            (None, None) => true,
            _ => false,
        },
{
    let q = to_ascii_lowercase(query);
    let values = string_value_list(&record.fields);
    let ghost sv = string_values(record.fields@);
    let mut j: usize = 0;
    assert(sv.skip(0) =~= sv);
    while j < values.len()
        invariant
            q@ == ascii_lower(query@),
            sv == values@.map_values(|s: String| s@),
            sv == string_values(record.fields@),
            j <= values.len(),
            fuzzy_in(sv, q@) == fuzzy_in(sv.skip(j as int), q@),
        decreases values.len() - j,
    {
        assert(sv.skip(j as int)[0] == sv[j as int]);
        assert(sv.skip(j as int).drop_first() =~= sv.skip(j + 1));
        assert(values@[j as int]@ == sv[j as int]);
        let s = values[j].as_str();
        let lower = to_ascii_lowercase(s);
        if contains_str(lower.as_str(), q.as_str()) {
            if contains_str(s, ".app") {
                match extract_bundle_from_path(s) {
                    Some(app) => {
                        return Some(app);
                    },
                    None => {},
                }
            }
            if looks_like_bundle_id(s) {
                return Some(string_of(s));
            }
        }
        j = j + 1;
    }
    None
}


/// Extract app usage stats from `com.apple.osanalytics.appUsage` records:
/// foreground flag, the first version seen, and summed (wrapping) counters.
pub open spec fn app_usage_step(ev: Seq<char>, fields: Seq<(String, JsonValue)>, p: ProfileView) -> ProfileView {
    if ev != "com.apple.osanalytics.appUsage"@ {
        p
    } else {
        let fg = field_text(fields, "foreground"@) == Some("YES"@);
        let version = match field_text(fields, "appDescription"@) {
            Some(d) => if desc_parts(d).1.len() > 0 && p.version.len() == 0 {
                desc_parts(d).1
            } else {
                p.version
            },
            None => p.version,
        };
        ProfileView {
            foreground: p.foreground || fg,
            version: version,
            active_seconds: p.active_seconds.wrapping_add(field_int(fields, "sum_of_activeTime"@)),
            uptime_seconds: p.uptime_seconds.wrapping_add(field_int(fields, "sum_of_uptime"@)),
            activations: p.activations.wrapping_add(field_int(fields, "sum_of_activations"@)),
            launches: p.launches.wrapping_add(field_int(fields, "sum_of_activityPeriods"@)),
            ..p
        }
    }
}

/// Extract app usage stats from osanalytics.appUsage.
fn classify_app_usage(ev: &str, record: &DecodedRecord, profile: &mut AppProfile)
    ensures
        final(profile)@ == app_usage_step(ev@, record.fields@, old(profile)@),
{
    if !str_eq(ev, "com.apple.osanalytics.appUsage") {
        return;
    }
    let is_fg = field_is(&record.fields, "foreground", "YES");
    if is_fg {
        profile.foreground = true;
    }
    match field_str(&record.fields, "appDescription") {
        Some(desc) => {
            let (_, version) = parse_app_description(desc.as_str());
            if !version.as_str().is_empty() && profile.version.as_str().is_empty() {
                profile.version = version;
            }
        },
        None => {},
    }
    let active = field_i64(&record.fields, "sum_of_activeTime");
    let uptime = field_i64(&record.fields, "sum_of_uptime");
    let activations = field_i64(&record.fields, "sum_of_activations");
    let launches = field_i64(&record.fields, "sum_of_activityPeriods");
    profile.active_seconds = profile.active_seconds.wrapping_add(active);
    profile.uptime_seconds = profile.uptime_seconds.wrapping_add(uptime);
    profile.activations = profile.activations.wrapping_add(activations);
    profile.launches = profile.launches.wrapping_add(launches);
    assert(profile@ =~= app_usage_step(ev@, record.fields@, old(profile)@));
}

/// Parts joined with a separator (`[..].join(sep)`).
pub open spec fn join_with(parts: Seq<Seq<char>>, sep: Seq<char>) -> Seq<char>
    decreases parts.len(),
{
    if parts.len() == 0 {
        Seq::empty()
    } else if parts.len() == 1 {
        parts[0]
    } else {
        join_with(parts.drop_last(), sep) + sep + parts.last()
    }
}

/// Join strings with a separator.
pub fn join_strings(parts: &Vec<String>, sep: &str) -> (r: String)
    ensures
        r@ == join_with(parts@.map_values(|s: String| s@), sep@),
{
    let ghost pv = parts@.map_values(|s: String| s@);
    let mut out = String::new();
    let mut i: usize = 0;
    while i < parts.len()
        invariant
            pv == parts@.map_values(|s: String| s@),
            i <= parts.len(),
            out@ == join_with(pv.subrange(0, i as int), sep@),
        decreases parts.len() - i,
    {
        let ghost pre = pv.subrange(0, i as int);
        assert(pv.subrange(0, i + 1).drop_last() =~= pre);
        assert(pv.subrange(0, i + 1).last() == parts@[i as int]@);
        if i > 0 {
            push_str(&mut out, sep);
        }
        push_str(&mut out, parts[i].as_str());
        proof {
            if i == 0 {
                assert(pre =~= Seq::<Seq<char>>::empty());
                assert(out@ =~= parts@[0]@);
            }
        }
        i = i + 1;
    }
    assert(pv.subrange(0, parts.len() as int) =~= pv);
    out
}

/// The capability kinds of a profile view include `kind`.
pub open spec fn has_kind(caps: Seq<(Seq<char>, Seq<char>)>, kind: Seq<char>) -> bool {
    exists|i: int| 0 <= i < caps.len() && caps[i].0 == kind
}

/// Add a capability when its pattern was seen and its kind is new.
pub open spec fn add_cap(caps: Seq<(Seq<char>, Seq<char>)>, seen: bool, kind: Seq<char>, ev: Seq<char>) -> Seq<(Seq<char>, Seq<char>)> {
    if seen && !has_kind(caps, kind) {
        caps.push((kind, ev))
    } else {
        caps
    }
}

/// Detect DataExfil capabilities from all string values joined by spaces.
pub open spec fn dataexfil_step(ev: Seq<char>, fields: Seq<(String, JsonValue)>, p: ProfileView) -> ProfileView {
    let all = join_with(string_values(fields), " "@);
    let c1 = add_cap(p.capabilities, contains(all, "DataExfil.Clipboard"@), "Clipboard"@, ev);
    let c2 = add_cap(c1, contains(all, "DataExfil.Keychain"@), "Keychain"@, ev);
    let c3 = add_cap(c2, contains(all, "Network.Outgoing"@), "NetworkOutgoing"@, ev);
    ProfileView { capabilities: c3, ..p }
}

/// Add a capability to a profile when seen and new.
fn push_capability(profile: &mut AppProfile, seen: bool, kind: &str, ev: &str)
    ensures
        final(profile)@ == (ProfileView {
            capabilities: add_cap(old(profile)@.capabilities, seen, kind@, ev@),
            ..old(profile)@
        }),
{
    if seen && !crate::schema::any_capability(&profile.capabilities, kind) {
        let ghost before = profile.capabilities@;
        profile.capabilities.push(AppCapability { kind: string_of(kind), source_event: string_of(ev) });
        assert(profile.capabilities@.map_values(|c: AppCapability| (c.kind@, c.source_event@)) =~= before.map_values(
            |c: AppCapability| (c.kind@, c.source_event@),
        ).push((kind@, ev@)));
    }
    proof {
        if !has_kind(old(profile)@.capabilities, kind@) {
            assert forall|i: int| 0 <= i < old(profile).capabilities@.len() implies old(profile).capabilities@[i].kind@
                != kind@ by {
                assert(old(profile)@.capabilities[i].0 == old(profile).capabilities@[i].kind@);
            }
        } else {
            let i = choose|i: int| 0 <= i < old(profile)@.capabilities.len() && old(profile)@.capabilities[i].0 == kind@;
            assert(old(profile).capabilities@[i].kind@ == kind@);
        }
    }
    assert(profile@ =~= ProfileView {
        capabilities: add_cap(old(profile)@.capabilities, seen, kind@, ev@),
        ..old(profile)@
    });
}

/// Detect DataExfil capabilities by scanning all string values.
fn classify_dataexfil(ev: &str, record: &DecodedRecord, profile: &mut AppProfile)
    ensures
        final(profile)@ == dataexfil_step(ev@, record.fields@, old(profile)@),
{
    let values = string_value_list(&record.fields);
    let all = join_strings(&values, " ");
    let a = all.as_str();
    push_capability(profile, contains_str(a, "DataExfil.Clipboard"), "Clipboard", ev);
    push_capability(profile, contains_str(a, "DataExfil.Keychain"), "Keychain", ev);
    push_capability(profile, contains_str(a, "Network.Outgoing"), "NetworkOutgoing", ev);
}

/// Legacy security API names, in the order checked.
pub open spec fn security_api_names() -> Seq<Seq<char>> {
    seq![
        "SecItemCopyMatching"@,
        "SecItemAdd"@,
        "SecItemUpdate"@,
        "SecItemDelete"@,
        "CSSM_ModuleDetach"@,
        "CSSM_ModuleUnload"@,
        "CSSM_ModuleLoad"@,
        "SessionGetInfo"@,
        "SecKeychainItemCopyContent"@,
    ]
}

/// Add each named API that `s` contains and the list lacks, in name order.
pub open spec fn add_apis(s: Seq<char>, names: Seq<Seq<char>>, acc: Seq<Seq<char>>) -> Seq<Seq<char>>
    decreases names.len(),
{
    if names.len() == 0 {
        acc
    } else {
        let a = add_apis(s, names.drop_last(), acc);
        if contains(s, names.last()) && !a.contains(names.last()) {
            a.push(names.last())
        } else {
            a
        }
    }
}

/// Add the APIs found in each value, values in order.
pub open spec fn security_fold(values: Seq<Seq<char>>, acc: Seq<Seq<char>>) -> Seq<Seq<char>>
    decreases values.len(),
{
    if values.len() == 0 {
        acc
    } else {
        add_apis(values.last(), security_api_names(), security_fold(values.drop_last(), acc))
    }
}

/// Detect security API names in string values.
pub open spec fn security_step(fields: Seq<(String, JsonValue)>, p: ProfileView) -> ProfileView {
    ProfileView { security_apis: security_fold(string_values(fields), p.security_apis), ..p }
}

/// Whether a list of strings holds the given one.
pub fn contains_string(list: &Vec<String>, s: &str) -> (r: bool)
    ensures
        r == list@.map_values(|x: String| x@).contains(s@),
{
    let ghost lv = list@.map_values(|x: String| x@);
    let mut i: usize = 0;
    while i < list.len()
        invariant
            lv == list@.map_values(|x: String| x@),
            i <= list.len(),
            forall|k: int| 0 <= k < i ==> lv[k] != s@,
        decreases list.len() - i,
    {
        if str_eq(list[i].as_str(), s) {
            assert(lv[i as int] == s@);
            return true;
        }
        i = i + 1;
    }
    false
}

/// The security API names as executable data.
fn security_api_list() -> (r: Vec<&'static str>)
    ensures
        r@.len() == security_api_names().len(),
        forall|i: int| 0 <= i < r@.len() ==> (#[trigger] r@[i])@ == security_api_names()[i],
{
    vec![
        "SecItemCopyMatching",
        "SecItemAdd",
        "SecItemUpdate",
        "SecItemDelete",
        "CSSM_ModuleDetach",
        "CSSM_ModuleUnload",
        "CSSM_ModuleLoad",
        "SessionGetInfo",
        "SecKeychainItemCopyContent",
    ]
}

/// Detect security API usage — look for known API names in field values.
fn classify_security_apis(record: &DecodedRecord, profile: &mut AppProfile)
    ensures
        final(profile)@ == security_step(record.fields@, old(profile)@),
{
    let values = string_value_list(&record.fields);
    let ghost sv = string_values(record.fields@);
    let apis = security_api_list();
    let ghost start = old(profile)@;
    let mut i: usize = 0;
    assert(sv.subrange(0, 0) =~= Seq::<Seq<char>>::empty());
    while i < values.len()
        invariant
            sv == values@.map_values(|s: String| s@),
            sv == string_values(record.fields@),
            apis@.len() == security_api_names().len(),
            forall|k: int| 0 <= k < apis@.len() ==> (#[trigger] apis@[k])@ == security_api_names()[k],
            i <= values.len(),
            profile@ == (ProfileView { security_apis: security_fold(sv.subrange(0, i as int), start.security_apis), ..start }),
        decreases values.len() - i,
    {
        assert(sv.subrange(0, i + 1).drop_last() =~= sv.subrange(0, i as int));
        assert(sv.subrange(0, i + 1).last() == values@[i as int]@);
        let s = values[i].as_str();
        let ghost acc0 = profile@.security_apis;
        let mut k: usize = 0;
        assert(security_api_names().subrange(0, 0) =~= Seq::<Seq<char>>::empty());
        while k < apis.len()
            invariant
                apis@.len() == security_api_names().len(),
                forall|m: int| 0 <= m < apis@.len() ==> (#[trigger] apis@[m])@ == security_api_names()[m],
                k <= apis.len(),
                profile@ == (ProfileView {
                    security_apis: add_apis(s@, security_api_names().subrange(0, k as int), acc0),
                    ..start
                }),
            decreases apis.len() - k,
        {
            let ghost names = security_api_names();
            assert(names.subrange(0, k + 1).drop_last() =~= names.subrange(0, k as int));
            assert(names.subrange(0, k + 1).last() == apis@[k as int]@);
            let api = apis[k];
            if contains_str(s, api) && !contains_string(&profile.security_apis, api) {
                let ghost before = profile.security_apis@;
                profile.security_apis.push(string_of(api));
                assert(profile.security_apis@.map_values(|x: String| x@) =~= before.map_values(|x: String| x@).push(api@));
            }
            k = k + 1;
            assert(profile@ =~= ProfileView {
                security_apis: add_apis(s@, security_api_names().subrange(0, k as int), acc0),
                ..start
            });
        }
        assert(security_api_names().subrange(0, apis.len() as int) =~= security_api_names());
        i = i + 1;
    }
    assert(sv.subrange(0, values.len() as int) =~= sv);
}

/// The binary list holds the given cdhash.
pub open spec fn has_cdhash(bins: Seq<(Seq<char>, Seq<char>)>, cd: Seq<char>) -> bool {
    exists|i: int| 0 <= i < bins.len() && bins[i].0 == cd
}

/// Record the binary fingerprint of `com.apple.syspolicy.ExecutableMeasurement`
/// records with a new, non-empty cdhash.
pub open spec fn binaries_step(ev: Seq<char>, fields: Seq<(String, JsonValue)>, p: ProfileView) -> ProfileView {
    let cd = field_text_or_empty(fields, "cdhash"@);
    let sid = field_text_or_empty(fields, "signingIdentifier"@);
    if ev == "com.apple.syspolicy.ExecutableMeasurement"@ && cd.len() > 0 && !has_cdhash(p.binaries, cd) {
        ProfileView { binaries: p.binaries.push((cd, sid)), ..p }
    } else {
        p
    }
}

/// Whether some binary has the given cdhash.
pub(crate) fn any_cdhash(bins: &Vec<BinaryFingerprint>, cd: &str) -> (r: bool)
    ensures
        r == has_cdhash(bins@.map_values(|b: BinaryFingerprint| (b.cdhash@, b.signing_id@)), cd@),
{
    let ghost bv = bins@.map_values(|b: BinaryFingerprint| (b.cdhash@, b.signing_id@));
    let mut i: usize = 0;
    while i < bins.len()
        invariant
            bv == bins@.map_values(|b: BinaryFingerprint| (b.cdhash@, b.signing_id@)),
            i <= bins.len(),
            forall|k: int| 0 <= k < i ==> bv[k].0 != cd@,
        decreases bins.len() - i,
    {
        if str_eq(bins[i].cdhash.as_str(), cd) {
            assert(bv[i as int].0 == cd@);
            return true;
        }
        i = i + 1;
    }
    false
}

/// Detect binary fingerprints from syspolicy.ExecutableMeasurement.
fn classify_binaries(ev: &str, record: &DecodedRecord, profile: &mut AppProfile)
    ensures
        final(profile)@ == binaries_step(ev@, record.fields@, old(profile)@),
{
    if !str_eq(ev, "com.apple.syspolicy.ExecutableMeasurement") {
        return;
    }
    let cdhash = field_str_or_empty(&record.fields, "cdhash");
    let signing_id = field_str_or_empty(&record.fields, "signingIdentifier");
    if !cdhash.as_str().is_empty() && !any_cdhash(&profile.binaries, cdhash.as_str()) {
        let ghost before = profile.binaries@;
        let ghost cdv = cdhash@;
        let ghost sidv = signing_id@;
        profile.binaries.push(BinaryFingerprint { cdhash, signing_id });
        assert(profile.binaries@.map_values(|b: BinaryFingerprint| (b.cdhash@, b.signing_id@)) =~= before.map_values(
            |b: BinaryFingerprint| (b.cdhash@, b.signing_id@),
        ).push((cdv, sidv)));
    }
    assert(profile@ =~= binaries_step(ev@, record.fields@, old(profile)@));
}


/// A network interface name.
pub open spec fn is_net_value(s: Seq<char>) -> bool {
    s == "WiFi"@ || s == "Cellular"@ || s == "PersonalHotspot"@
}

/// The first value naming a network interface.
pub open spec fn first_net(values: Seq<Seq<char>>) -> Option<Seq<char>>
    decreases values.len(),
{
    if values.len() == 0 {
        None
    } else if is_net_value(values[0]) {
        Some(values[0])
    } else {
        first_net(values.drop_first())
    }
}

/// Add each integer value above 1000 that the list lacks, fields in order.
pub open spec fn bytes_fold(fields: Seq<(String, JsonValue)>, acc: Seq<i64>) -> Seq<i64>
    decreases fields.len(),
{
    if fields.len() == 0 {
        acc
    } else {
        let a = bytes_fold(fields.drop_last(), acc);
        match value_i64(fields.last().1) {
            Some(n) => if n > 1000 && !a.contains(n) {
                a.push(n)
            } else {
                a
            },
            None => a,
        }
    }
}

/// For records that name a network interface: keep the first interface
/// seen, and collect large integer values as byte counts.
pub open spec fn network_step(fields: Seq<(String, JsonValue)>, p: ProfileView) -> ProfileView {
    match first_net(string_values(fields)) {
        None => p,
        Some(n) => ProfileView {
            interface: if p.interface.len() == 0 {
                n
            } else {
                p.interface
            },
            bytes_values: bytes_fold(fields, p.bytes_values),
            ..p
        },
    }
}

/// Whether a value names a network interface.
fn net_value(s: &str) -> (r: bool)
    ensures
        r == is_net_value(s@),
{
    str_eq(s, "WiFi") || str_eq(s, "Cellular") || str_eq(s, "PersonalHotspot")
}

/// Index of the first string that satisfies a test given by `kind`:
/// 0 = network interface, 1 = chip name, 2 = thermal state.
fn first_matching(values: &Vec<String>, kind: u8) -> (r: Option<usize>)
    requires
        kind < 3,
    ensures
        match r {
            Some(i) => i < values@.len() && value_class(values@.map_values(|s: String| s@), kind)
                == Some(values@[i as int]@),
            None => value_class(values@.map_values(|s: String| s@), kind) is None,
        },
{
    let ghost sv = values@.map_values(|s: String| s@);
    let mut i: usize = 0;
    assert(sv.skip(0) =~= sv);
    while i < values.len()
        invariant
            kind < 3,
            sv == values@.map_values(|s: String| s@),
            i <= values.len(),
            value_class(sv, kind) == value_class(sv.skip(i as int), kind),
        decreases values.len() - i,
    {
        assert(sv.skip(i as int)[0] == values@[i as int]@);
        assert(sv.skip(i as int).drop_first() =~= sv.skip(i + 1));
        let s = values[i].as_str();
        let hit = if kind == 0 {
            net_value(s)
        } else if kind == 1 {
            chip_value(s)
        } else {
            thermal_value(s)
        };
        if hit {
            return Some(i);
        }
        i = i + 1;
    }
    None
}

/// The first value of the given class (see `first_matching`).
pub open spec fn value_class(values: Seq<Seq<char>>, kind: u8) -> Option<Seq<char>> {
    if kind == 0 {
        first_net(values)
    } else if kind == 1 {
        first_chip(values)
    } else {
        first_thermal(values)
    }
}

/// Detect network info — look for WiFi/Cellular in field values with byte counts.
fn classify_network(record: &DecodedRecord, profile: &mut AppProfile)
    ensures
        final(profile)@ == network_step(record.fields@, old(profile)@),
{
    let values = string_value_list(&record.fields);
    let found = first_matching(&values, 0);
    let n = match found {
        Some(i) => i,
        None => {
            return;
        },
    };
    if profile.network.interface.as_str().is_empty() {
        profile.network.interface = values[n].clone();
    }
    let ghost start = profile@;
    let mut i: usize = 0;
    assert(record.fields@.subrange(0, 0) =~= Seq::<(String, JsonValue)>::empty());
    while i < record.fields.len()
        invariant
            i <= record.fields.len(),
            profile@ == (ProfileView {
                bytes_values: bytes_fold(record.fields@.subrange(0, i as int), start.bytes_values),
                ..start
            }),
        decreases record.fields.len() - i,
    {
        assert(record.fields@.subrange(0, i + 1).drop_last() =~= record.fields@.subrange(0, i as int));
        assert(record.fields@.subrange(0, i + 1).last() == record.fields@[i as int]);
        match record.fields[i].1.as_i64() {
            Some(v) => {
                if v > 1000 && !contains_i64(&profile.network.bytes_values, v) {
                    profile.network.bytes_values.push(v);
                }
            },
            None => {},
        }
        i = i + 1;
        assert(profile@ =~= ProfileView {
            bytes_values: bytes_fold(record.fields@.subrange(0, i as int), start.bytes_values),
            ..start
        });
    }
    assert(record.fields@.subrange(0, record.fields.len() as int) =~= record.fields@);
    assert(profile@ =~= network_step(record.fields@, old(profile)@));
}

/// Whether a list of integers holds `v`.
fn contains_i64(list: &Vec<i64>, v: i64) -> (r: bool)
    ensures
        r == list@.contains(v),
{
    let mut i: usize = 0;
    while i < list.len()
        invariant
            i <= list.len(),
            forall|k: int| 0 <= k < i ==> list@[k] != v,
        decreases list.len() - i,
    {
        if list[i] == v {
            return true;
        }
        i = i + 1;
    }
    false
}

/// A chip name (M1 to M4 family).
pub open spec fn is_chip(s: Seq<char>) -> bool {
    is_prefix("M1"@, s) || is_prefix("M2"@, s) || is_prefix("M3"@, s) || is_prefix("M4"@, s)
}

/// The first chip name among the values.
pub open spec fn first_chip(values: Seq<Seq<char>>) -> Option<Seq<char>>
    decreases values.len(),
{
    if values.len() == 0 {
        None
    } else if is_chip(values[0]) {
        Some(values[0])
    } else {
        first_chip(values.drop_first())
    }
}

/// A thermal state name.
pub open spec fn is_thermal(s: Seq<char>) -> bool {
    s == "Nominal"@ || s == "Fair"@ || s == "Serious"@ || s == "Critical"@
}

/// The first thermal state among the values.
pub open spec fn first_thermal(values: Seq<Seq<char>>) -> Option<Seq<char>>
    decreases values.len(),
{
    if values.len() == 0 {
        None
    } else if is_thermal(values[0]) {
        Some(values[0])
    } else {
        first_thermal(values.drop_first())
    }
}

/// Whether a value is a chip name.
fn chip_value(s: &str) -> (r: bool)
    ensures
        r == is_chip(s@),
{
    starts_with(s, "M1") || starts_with(s, "M2") || starts_with(s, "M3") || starts_with(s, "M4")
}

/// Whether a value is a thermal state.
fn thermal_value(s: &str) -> (r: bool)
    ensures
        r == is_thermal(s@),
{
    str_eq(s, "Nominal") || str_eq(s, "Fair") || str_eq(s, "Serious") || str_eq(s, "Critical")
}

/// The hardware list has an entry with the given label.
pub open spec fn has_label(hw: Seq<(Seq<char>, Seq<char>)>, label: Seq<char>) -> bool {
    exists|i: int| 0 <= i < hw.len() && hw[i].0 == label
}

/// Add `(label, value)` when a value is present and the label is new.
pub open spec fn add_once(hw: Seq<(Seq<char>, Seq<char>)>, v: Option<Seq<char>>, label: Seq<char>) -> Seq<(Seq<char>, Seq<char>)> {
    match v {
        Some(x) => if !has_label(hw, label) {
            hw.push((label, x))
        } else {
            hw
        },
        None => hw,
    }
}

/// A kilobyte amount as displayed.
pub open spec fn kb_text(v: Option<Seq<char>>) -> Option<Seq<char>> {
    match v {
        Some(x) => Some(x + " KB"@),
        None => None,
    }
}

/// Detect hardware info: memory footprints for memorytools footprint
/// events; else the GPU when some value is `Metal`; else the first chip
/// name and the first thermal state.
pub open spec fn hardware_step(ev: Seq<char>, fields: Seq<(String, JsonValue)>, p: ProfileView) -> ProfileView {
    let sv = string_values(fields);
    if contains(ev, "memorytools.stats.footprint"@) {
        let h1 = add_once(p.hardware, kb_text(field_text(fields, "bucketed_app_footprint_kb"@)), "Memory"@);
        let h2 = add_once(
            h1,
            kb_text(field_text(fields, "bucketed_app_neural_footprint_kb"@)),
            "Neural Engine Memory"@,
        );
        ProfileView { hardware: h2, ..p }
    } else if sv.contains("Metal"@) {
        ProfileView { hardware: add_once(p.hardware, Some("Metal"@), "GPU"@), ..p }
    } else {
        let h1 = add_once(p.hardware, first_chip(sv), "CPU"@);
        ProfileView { hardware: add_once(h1, first_thermal(sv), "Thermal"@), ..p }
    }
}

/// Whether the hardware list has an entry with the given label.
fn any_label(hw: &Vec<(String, String)>, label: &str) -> (r: bool)
    ensures
        r == has_label(hw@.map_values(|h: (String, String)| (h.0@, h.1@)), label@),
{
    let ghost hv = hw@.map_values(|h: (String, String)| (h.0@, h.1@));
    let mut i: usize = 0;
    while i < hw.len()
        invariant
            hv == hw@.map_values(|h: (String, String)| (h.0@, h.1@)),
            i <= hw.len(),
            forall|k: int| 0 <= k < i ==> hv[k].0 != label@,
        decreases hw.len() - i,
    {
        if str_eq(hw[i].0.as_str(), label) {
            assert(hv[i as int].0 == label@);
            return true;
        }
        i = i + 1;
    }
    false
}

/// Add a hardware entry when a value is present and the label is new.
fn push_hardware(profile: &mut AppProfile, v: Option<String>, label: &str)
    ensures
        final(profile)@ == (ProfileView {
            hardware: add_once(
                old(profile)@.hardware,
                match v {
                    Some(x) => Some(x@),
                    None => None,
                },
                label@,
            ),
            ..old(profile)@
        }),
{
    match v {
        Some(x) => {
            if !any_label(&profile.hardware, label) {
                let ghost before = profile.hardware@;
                let ghost xv = x@;
                profile.hardware.push((string_of(label), x));
                assert(profile.hardware@.map_values(|h: (String, String)| (h.0@, h.1@)) =~= before.map_values(
                    |h: (String, String)| (h.0@, h.1@),
                ).push((label@, xv)));
            }
        },
        None => {},
    }
    assert(profile@ =~= ProfileView {
        hardware: add_once(
            old(profile)@.hardware,
            match v {
                Some(x) => Some(x@),
                None => None,
            },
            label@,
        ),
        ..old(profile)@
    });
}

/// A field's text followed by " KB".
fn kb_field(fields: &Vec<(String, JsonValue)>, name: &str) -> (r: Option<String>)
    ensures
        match (r, kb_text(field_text(fields@, name@))) {
            (Some(a), Some(b)) => a@ == b,
            (None, None) => true,
            _ => false,
        },
{
    match field_str(fields, name) {
        Some(kb) => {
            let mut t = kb;
            push_str(&mut t, " KB");
            Some(t)
        },
        None => None,
    }
}

/// Detect hardware info — extract memory, GPU, CPU, thermal data with labels.
fn classify_hardware(ev: &str, record: &DecodedRecord, profile: &mut AppProfile)
    ensures
        final(profile)@ == hardware_step(ev@, record.fields@, old(profile)@),
{
    let values = string_value_list(&record.fields);
    if contains_str(ev, "memorytools.stats.footprint") {
        let mem = kb_field(&record.fields, "bucketed_app_footprint_kb");
        push_hardware(profile, mem, "Memory");
        let neural = kb_field(&record.fields, "bucketed_app_neural_footprint_kb");
        push_hardware(profile, neural, "Neural Engine Memory");
        return;
    }
    if contains_string(&values, "Metal") {
        push_hardware(profile, Some(string_of("Metal")), "GPU");
        return;
    }
    let chip = match first_matching(&values, 1) {
        Some(i) => Some(values[i].clone()),
        None => None,
    };
    push_hardware(profile, chip, "CPU");
    let thermal = match first_matching(&values, 2) {
        Some(i) => Some(values[i].clone()),
        None => None,
    };
    push_hardware(profile, thermal, "Thermal");
}

/// All classification steps of one record, in order.
pub open spec fn classify(r: DecodedRecord, p: ProfileView) -> ProfileView {
    let ev = first_event(r);
    let f = r.fields@;
    hardware_step(
        ev,
        f,
        network_step(f, binaries_step(ev, f, security_step(f, dataexfil_step(ev, f, app_usage_step(ev, f, p))))),
    )
}

/// The first event name of a record, or "".
pub(crate) fn first_event_name(record: &DecodedRecord) -> (r: &str)
    ensures
        r@ == first_event(*record),
{
    if record.event_names.len() > 0 {
        record.event_names[0].as_str()
    } else {
        proof {
            reveal_strlit("");
        }
        ""
    }
}

/// Classify a decoded record and enrich the app profile.
pub fn classify_record(record: &DecodedRecord, profile: &mut AppProfile)
    ensures
        final(profile)@ == classify(*record, old(profile)@),
{
    let ev = first_event_name(record);
    classify_app_usage(ev, record, profile);
    classify_dataexfil(ev, record, profile);
    classify_security_apis(record, profile);
    classify_binaries(ev, record, profile);
    classify_network(record, profile);
    classify_hardware(ev, record, profile);
}


/// Capabilities of `s` whose kinds `t` lacks, appended in order.
pub open spec fn add_caps_from(t: Seq<(Seq<char>, Seq<char>)>, s: Seq<(Seq<char>, Seq<char>)>) -> Seq<(Seq<char>, Seq<char>)>
    decreases s.len(),
{
    if s.len() == 0 {
        t
    } else {
        let a = add_caps_from(t, s.drop_last());
        if has_kind(a, s.last().0) {
            a
        } else {
            a.push(s.last())
        }
    }
}

/// Binaries of `s` whose cdhashes `t` lacks, appended in order.
pub open spec fn add_bins_from(t: Seq<(Seq<char>, Seq<char>)>, s: Seq<(Seq<char>, Seq<char>)>) -> Seq<(Seq<char>, Seq<char>)>
    decreases s.len(),
{
    if s.len() == 0 {
        t
    } else {
        let a = add_bins_from(t, s.drop_last());
        if has_cdhash(a, s.last().0) {
            a
        } else {
            a.push(s.last())
        }
    }
}

/// Elements of `s` that `t` lacks, appended in order.
pub open spec fn add_new<A>(t: Seq<A>, s: Seq<A>) -> Seq<A>
    decreases s.len(),
{
    if s.len() == 0 {
        t
    } else {
        let a = add_new(t, s.drop_last());
        if a.contains(s.last()) {
            a
        } else {
            a.push(s.last())
        }
    }
}

/// One profile merged into another.
pub open spec fn merge_view(t: ProfileView, s: ProfileView) -> ProfileView {
    let take_net = t.interface.len() == 0 && s.interface.len() > 0;
    ProfileView {
        bundle_id: t.bundle_id,
        version: if t.version.len() == 0 && s.version.len() > 0 {
            s.version
        } else {
            t.version
        },
        active_seconds: t.active_seconds.wrapping_add(s.active_seconds),
        uptime_seconds: t.uptime_seconds.wrapping_add(s.uptime_seconds),
        foreground: t.foreground || s.foreground,
        activations: t.activations.wrapping_add(s.activations),
        launches: t.launches.wrapping_add(s.launches),
        capabilities: add_caps_from(t.capabilities, s.capabilities),
        binaries: add_bins_from(t.binaries, s.binaries),
        security_apis: add_new(t.security_apis, s.security_apis),
        interface: if take_net {
            s.interface
        } else {
            t.interface
        },
        bytes_values: if take_net {
            s.bytes_values
        } else {
            t.bytes_values
        },
        hardware: add_new(t.hardware, s.hardware),
        record_count: t.record_count + s.record_count,
    }
}

/// Whether the hardware list holds the pair.
fn contains_pair(hw: &Vec<(String, String)>, k: &str, v: &str) -> (r: bool)
    ensures
        r == hw@.map_values(|h: (String, String)| (h.0@, h.1@)).contains((k@, v@)),
{
    let ghost hv = hw@.map_values(|h: (String, String)| (h.0@, h.1@));
    let mut i: usize = 0;
    while i < hw.len()
        invariant
            hv == hw@.map_values(|h: (String, String)| (h.0@, h.1@)),
            i <= hw.len(),
            forall|j: int| 0 <= j < i ==> hv[j] != (k@, v@),
        decreases hw.len() - i,
    {
        if str_eq(hw[i].0.as_str(), k) && str_eq(hw[i].1.as_str(), v) {
            assert(hv[i as int] == (k@, v@));
            return true;
        }
        i = i + 1;
    }
    false
}

/// Append the capabilities of `src` whose kind `target` lacks.
fn merge_capabilities(target: &mut Vec<AppCapability>, src: Vec<AppCapability>)
    ensures
        final(target)@.map_values(|c: AppCapability| (c.kind@, c.source_event@)) == add_caps_from(
            old(target)@.map_values(|c: AppCapability| (c.kind@, c.source_event@)),
            src@.map_values(|c: AppCapability| (c.kind@, c.source_event@)),
        ),
{
    let ghost sv = src@.map_values(|c: AppCapability| (c.kind@, c.source_event@));
    let ghost t0 = target@.map_values(|c: AppCapability| (c.kind@, c.source_event@));
    let mut rest = src;
    let ghost mut i: int = 0;
    assert(sv.subrange(0, 0) =~= Seq::<(Seq<char>, Seq<char>)>::empty());
    assert(rest@.map_values(|c: AppCapability| (c.kind@, c.source_event@)) =~= sv.subrange(0, sv.len() as int));
    while rest.len() > 0
        invariant
            0 <= i <= sv.len(),
            rest@.map_values(|c: AppCapability| (c.kind@, c.source_event@)) == sv.subrange(i, sv.len() as int),
            target@.map_values(|c: AppCapability| (c.kind@, c.source_event@)) == add_caps_from(t0, sv.subrange(0, i)),
        decreases rest.len(),
    {
        let ghost old_rest = rest@;
        assert(sv.subrange(i, sv.len() as int).len() == old_rest.len());
        let c = rest.remove(0);
        assert(old_rest[0] == c);
        assert(sv.subrange(i, sv.len() as int)[0] == (c.kind@, c.source_event@));
        assert(sv.subrange(0, i + 1).drop_last() =~= sv.subrange(0, i));
        let ghost before = target@;
        let ghost bv = before.map_values(|c: AppCapability| (c.kind@, c.source_event@));
        proof {
            if has_kind(bv, c.kind@) {
                let j = choose|j: int| 0 <= j < bv.len() && bv[j].0 == c.kind@;
                assert(before[j].kind@ == c.kind@);
            }
        }
        if !crate::schema::any_capability(target, c.kind.as_str()) {
            let ghost cv = (c.kind@, c.source_event@);
            target.push(c);
            assert(target@.map_values(|c: AppCapability| (c.kind@, c.source_event@)) =~= bv.push(cv));
        } else {
            proof {
                let j = choose|j: int| 0 <= j < before.len() && before[j].kind@ == c.kind@;
                assert(bv[j].0 == c.kind@);
            }
        }
        proof {
            i = i + 1;
        }
        assert(rest@.map_values(|c: AppCapability| (c.kind@, c.source_event@)) =~= sv.subrange(i, sv.len() as int)) by {
            let om = old_rest.map_values(|c: AppCapability| (c.kind@, c.source_event@));
            assert(om =~= sv.subrange(i - 1, sv.len() as int));
            assert forall|k: int| 0 <= k < rest@.len() implies rest@.map_values(|c: AppCapability| (c.kind@, c.source_event@))[k] == sv.subrange(i, sv.len() as int)[k] by {
                assert(rest@[k] == old_rest[k + 1]);
                assert(om[k + 1] == sv[i + k]);
            }
        }
    }
    assert(sv.subrange(0, i) =~= sv);
}

/// Append the binaries of `src` whose cdhash `target` lacks.
fn merge_binaries(target: &mut Vec<BinaryFingerprint>, src: Vec<BinaryFingerprint>)
    ensures
        final(target)@.map_values(|b: BinaryFingerprint| (b.cdhash@, b.signing_id@)) == add_bins_from(
            old(target)@.map_values(|b: BinaryFingerprint| (b.cdhash@, b.signing_id@)),
            src@.map_values(|b: BinaryFingerprint| (b.cdhash@, b.signing_id@)),
        ),
{
    let ghost sv = src@.map_values(|b: BinaryFingerprint| (b.cdhash@, b.signing_id@));
    let ghost t0 = target@.map_values(|b: BinaryFingerprint| (b.cdhash@, b.signing_id@));
    let mut rest = src;
    let ghost mut i: int = 0;
    assert(sv.subrange(0, 0) =~= Seq::<(Seq<char>, Seq<char>)>::empty());
    assert(rest@.map_values(|b: BinaryFingerprint| (b.cdhash@, b.signing_id@)) =~= sv.subrange(0, sv.len() as int));
    while rest.len() > 0
        invariant
            0 <= i <= sv.len(),
            rest@.map_values(|b: BinaryFingerprint| (b.cdhash@, b.signing_id@)) == sv.subrange(i, sv.len() as int),
            target@.map_values(|b: BinaryFingerprint| (b.cdhash@, b.signing_id@)) == add_bins_from(t0, sv.subrange(0, i)),
        decreases rest.len(),
    {
        let ghost old_rest = rest@;
        assert(sv.subrange(i, sv.len() as int).len() == old_rest.len());
        let b = rest.remove(0);
        assert(old_rest[0] == b);
        assert(sv.subrange(i, sv.len() as int)[0] == (b.cdhash@, b.signing_id@));
        assert(sv.subrange(0, i + 1).drop_last() =~= sv.subrange(0, i));
        let ghost before = target@;
        let ghost bv = before.map_values(|b: BinaryFingerprint| (b.cdhash@, b.signing_id@));
        if !any_cdhash(target, b.cdhash.as_str()) {
            let ghost v = (b.cdhash@, b.signing_id@);
            target.push(b);
            assert(target@.map_values(|b: BinaryFingerprint| (b.cdhash@, b.signing_id@)) =~= bv.push(v));
        }
        proof {
            i = i + 1;
        }
        assert(rest@.map_values(|b: BinaryFingerprint| (b.cdhash@, b.signing_id@)) =~= sv.subrange(i, sv.len() as int)) by {
            let om = old_rest.map_values(|b: BinaryFingerprint| (b.cdhash@, b.signing_id@));
            assert(om =~= sv.subrange(i - 1, sv.len() as int));
            assert forall|k: int| 0 <= k < rest@.len() implies rest@.map_values(|b: BinaryFingerprint| (b.cdhash@, b.signing_id@))[k] == sv.subrange(i, sv.len() as int)[k] by {
                assert(rest@[k] == old_rest[k + 1]);
                assert(om[k + 1] == sv[i + k]);
            }
        }
    }
    assert(sv.subrange(0, i) =~= sv);
}

/// Append the strings of `src` that `target` lacks.
fn merge_strings(target: &mut Vec<String>, src: Vec<String>)
    ensures
        final(target)@.map_values(|s: String| s@) == add_new(old(target)@.map_values(|s: String| s@), src@.map_values(|s: String| s@)),
{
    let ghost sv = src@.map_values(|s: String| s@);
    let ghost t0 = target@.map_values(|s: String| s@);
    let mut rest = src;
    let ghost mut i: int = 0;
    assert(sv.subrange(0, 0) =~= Seq::<Seq<char>>::empty());
    assert(rest@.map_values(|s: String| s@) =~= sv.subrange(0, sv.len() as int));
    while rest.len() > 0
        invariant
            0 <= i <= sv.len(),
            rest@.map_values(|s: String| s@) == sv.subrange(i, sv.len() as int),
            target@.map_values(|s: String| s@) == add_new(t0, sv.subrange(0, i)),
        decreases rest.len(),
    {
        let ghost old_rest = rest@;
        assert(sv.subrange(i, sv.len() as int).len() == old_rest.len());
        let a = rest.remove(0);
        assert(old_rest[0] == a);
        assert(sv.subrange(i, sv.len() as int)[0] == a@);
        assert(sv.subrange(0, i + 1).drop_last() =~= sv.subrange(0, i));
        let ghost before = target@;
        let ghost bv = before.map_values(|s: String| s@);
        if !contains_string(target, a.as_str()) {
            let ghost v = a@;
            target.push(a);
            assert(target@.map_values(|s: String| s@) =~= bv.push(v));
        }
        proof {
            i = i + 1;
        }
        assert(rest@.map_values(|s: String| s@) =~= sv.subrange(i, sv.len() as int)) by {
            let om = old_rest.map_values(|s: String| s@);
            assert(om =~= sv.subrange(i - 1, sv.len() as int));
            assert forall|k: int| 0 <= k < rest@.len() implies rest@.map_values(|s: String| s@)[k] == sv.subrange(i, sv.len() as int)[k] by {
                assert(rest@[k] == old_rest[k + 1]);
                assert(om[k + 1] == sv[i + k]);
            }
        }
    }
    assert(sv.subrange(0, i) =~= sv);
}

/// Append the (label, value) pairs of `src` that `target` lacks.
fn merge_pairs(target: &mut Vec<(String, String)>, src: Vec<(String, String)>)
    ensures
        final(target)@.map_values(|h: (String, String)| (h.0@, h.1@)) == add_new(
            old(target)@.map_values(|h: (String, String)| (h.0@, h.1@)),
            src@.map_values(|h: (String, String)| (h.0@, h.1@)),
        ),
{
    let ghost sv = src@.map_values(|h: (String, String)| (h.0@, h.1@));
    let ghost t0 = target@.map_values(|h: (String, String)| (h.0@, h.1@));
    let mut rest = src;
    let ghost mut i: int = 0;
    assert(sv.subrange(0, 0) =~= Seq::<(Seq<char>, Seq<char>)>::empty());
    assert(rest@.map_values(|h: (String, String)| (h.0@, h.1@)) =~= sv.subrange(0, sv.len() as int));
    while rest.len() > 0
        invariant
            0 <= i <= sv.len(),
            rest@.map_values(|h: (String, String)| (h.0@, h.1@)) == sv.subrange(i, sv.len() as int),
            target@.map_values(|h: (String, String)| (h.0@, h.1@)) == add_new(t0, sv.subrange(0, i)),
        decreases rest.len(),
    {
        let ghost old_rest = rest@;
        assert(sv.subrange(i, sv.len() as int).len() == old_rest.len());
        let h = rest.remove(0);
        assert(old_rest[0] == h);
        assert(sv.subrange(i, sv.len() as int)[0] == (h.0@, h.1@));
        assert(sv.subrange(0, i + 1).drop_last() =~= sv.subrange(0, i));
        let ghost before = target@;
        let ghost bv = before.map_values(|h: (String, String)| (h.0@, h.1@));
        if !contains_pair(target, h.0.as_str(), h.1.as_str()) {
            let ghost v = (h.0@, h.1@);
            target.push(h);
            assert(target@.map_values(|h: (String, String)| (h.0@, h.1@)) =~= bv.push(v));
        }
        proof {
            i = i + 1;
        }
        assert(rest@.map_values(|h: (String, String)| (h.0@, h.1@)) =~= sv.subrange(i, sv.len() as int)) by {
            let om = old_rest.map_values(|h: (String, String)| (h.0@, h.1@));
            assert(om =~= sv.subrange(i - 1, sv.len() as int));
            assert forall|k: int| 0 <= k < rest@.len() implies rest@.map_values(|h: (String, String)| (h.0@, h.1@))[k] == sv.subrange(i, sv.len() as int)[k] by {
                assert(rest@[k] == old_rest[k + 1]);
                assert(om[k + 1] == sv[i + k]);
            }
        }
    }
    assert(sv.subrange(0, i) =~= sv);
}

/// Merge one profile into another.
pub fn merge_into(target: &mut AppProfile, source: AppProfile)
    requires
        old(target).record_count + source.record_count <= usize::MAX,
    ensures
        final(target)@ == merge_view(old(target)@, source@),
{
    let ghost sv = source@;
    let ghost t0 = target@;
    let AppProfile {
        bundle_id: _,
        version,
        active_seconds,
        uptime_seconds,
        foreground,
        activations,
        launches,
        capabilities,
        binaries,
        security_apis,
        network,
        hardware,
        record_count,
    } = source;
    target.record_count = target.record_count + record_count;
    if target.version.as_str().is_empty() && !version.as_str().is_empty() {
        target.version = version;
    }
    target.active_seconds = target.active_seconds.wrapping_add(active_seconds);
    target.uptime_seconds = target.uptime_seconds.wrapping_add(uptime_seconds);
    if foreground {
        target.foreground = true;
    }
    target.activations = target.activations.wrapping_add(activations);
    target.launches = target.launches.wrapping_add(launches);
    merge_capabilities(&mut target.capabilities, capabilities);
    merge_binaries(&mut target.binaries, binaries);
    merge_strings(&mut target.security_apis, security_apis);
    if target.network.interface.as_str().is_empty() && !network.interface.as_str().is_empty() {
        target.network = network;
    }
    merge_pairs(&mut target.hardware, hardware);
    assert(target@ =~= merge_view(t0, sv));
}


/// The views of a list of profiles.
pub open spec fn views(v: Seq<AppProfile>) -> Seq<ProfileView> {
    v.map_values(|p: AppProfile| p@)
}

/// The query as plain characters.
pub open spec fn query_view(query: Option<&str>) -> Option<Seq<char>> {
    match query {
        Some(q) => Some(q@),
        None => None,
    }
}

/// The key under which a record is grouped: its bundle ID, else (when
/// querying) a bundle-like value containing the query, else "(unknown)".
pub open spec fn record_key(fields: Seq<(String, JsonValue)>, query: Option<Seq<char>>) -> Seq<char> {
    match bundle_id_of(fields) {
        Some(b) => b,
        None => match query {
            Some(q) => match fuzzy_in(string_values(fields), ascii_lower(q)) {
                Some(b) => b,
                None => "(unknown)"@,
            },
            None => "(unknown)"@,
        },
    }
}

/// Whether a record takes part: with a query, some field value must
/// contain it (case-insensitively).
pub open spec fn selected(r: DecodedRecord, query: Option<Seq<char>>) -> bool {
    match query {
        Some(q) => matches_query(r.fields@, q),
        None => true,
    }
}

/// A profile with nothing recorded yet.
pub open spec fn fresh_view(id: Seq<char>) -> ProfileView {
    ProfileView {
        bundle_id: id,
        version: Seq::empty(),
        active_seconds: 0,
        uptime_seconds: 0,
        foreground: false,
        activations: 0,
        launches: 0,
        capabilities: Seq::empty(),
        binaries: Seq::empty(),
        security_apis: Seq::empty(),
        interface: Seq::empty(),
        bytes_values: Seq::empty(),
        hardware: Seq::empty(),
        record_count: 0,
    }
}

/// A profile that counts one more record.
pub open spec fn bump(p: ProfileView) -> ProfileView {
    ProfileView { record_count: p.record_count + 1, ..p }
}

/// A record added to its profile: counted, then classified.
pub open spec fn absorb(r: DecodedRecord, p: ProfileView) -> ProfileView {
    classify(r, bump(p))
}

/// Some profile of the list has the bundle ID.
pub open spec fn has_id(g: Seq<ProfileView>, id: Seq<char>) -> bool {
    exists|i: int| 0 <= i < g.len() && g[i].bundle_id == id
}

/// No two profiles of the list share a bundle ID.
pub open spec fn distinct_ids(g: Seq<ProfileView>) -> bool {
    forall|i: int, j: int| 0 <= i < j < g.len() ==> g[i].bundle_id != g[j].bundle_id
}

/// The profiles of the records, one per key in order of first appearance.
pub open spec fn group(records: Seq<DecodedRecord>, query: Option<Seq<char>>) -> Seq<ProfileView>
    decreases records.len(),
{
    if records.len() == 0 {
        Seq::empty()
    } else {
        let g = group(records.drop_last(), query);
        let r = records.last();
        if !selected(r, query) {
            g
        } else {
            let id = record_key(r.fields@, query);
            if has_id(g, id) {
                let i = choose|i: int| 0 <= i < g.len() && g[i].bundle_id == id;
                g.update(i, absorb(r, g[i]))
            } else {
                g.push(absorb(r, fresh_view(id)))
            }
        }
    }
}

/// The number of records over all profiles.
pub open spec fn total_count(g: Seq<ProfileView>) -> nat
    decreases g.len(),
{
    if g.len() == 0 {
        0
    } else {
        total_count(g.drop_last()) + g.last().record_count
    }
}

/// The number of records that take part.
pub open spec fn selected_count(records: Seq<DecodedRecord>, query: Option<Seq<char>>) -> nat
    decreases records.len(),
{
    if records.len() == 0 {
        0
    } else {
        selected_count(records.drop_last(), query) + if selected(records.last(), query) {
            1nat
        } else {
            0nat
        }
    }
}

/// Classification keeps the bundle ID and the record count.
pub proof fn lemma_classify_keeps(r: DecodedRecord, p: ProfileView)
    ensures
        classify(r, p).bundle_id == p.bundle_id,
        classify(r, p).record_count == p.record_count,
{
}

/// Replacing one profile changes the total by the difference of counts.
proof fn lemma_total_update(g: Seq<ProfileView>, i: int, x: ProfileView)
    requires
        0 <= i < g.len(),
    ensures
        total_count(g.update(i, x)) == total_count(g) - g[i].record_count + x.record_count,
    decreases g.len(),
{
    let u = g.update(i, x);
    if i == g.len() - 1 {
        assert(u.drop_last() =~= g.drop_last());
    } else {
        lemma_total_update(g.drop_last(), i, x);
        assert(u.drop_last() =~= g.drop_last().update(i, x));
    }
}

/// Each profile counts no more than the total.
proof fn lemma_total_bounds(g: Seq<ProfileView>, i: int)
    requires
        0 <= i < g.len(),
    ensures
        g[i].record_count <= total_count(g),
    decreases g.len(),
{
    if i < g.len() - 1 {
        lemma_total_bounds(g.drop_last(), i);
    }
}

/// At most as many records take part as there are.
proof fn lemma_selected_bound(records: Seq<DecodedRecord>, query: Option<Seq<char>>)
    ensures
        selected_count(records, query) <= records.len(),
    decreases records.len(),
{
    if records.len() > 0 {
        lemma_selected_bound(records.drop_last(), query);
    }
}

/// An app-usage record adds its `sum_of_activeTime`, `sum_of_uptime`,
/// `sum_of_activations` and `sum_of_activityPeriods` fields to the profile's
/// active time, uptime, activations and launches (wrapping at the `i64`
/// bounds); any other record leaves those four counters as they were.
pub proof fn lemma_classify_usage_counters(r: DecodedRecord, p: ProfileView)
    ensures
        first_event(r) == "com.apple.osanalytics.appUsage"@ ==> {
            &&& classify(r, p).active_seconds == p.active_seconds.wrapping_add(
                field_int(r.fields@, "sum_of_activeTime"@),
            )
            &&& classify(r, p).uptime_seconds == p.uptime_seconds.wrapping_add(field_int(r.fields@, "sum_of_uptime"@))
            &&& classify(r, p).activations == p.activations.wrapping_add(
                field_int(r.fields@, "sum_of_activations"@),
            )
            &&& classify(r, p).launches == p.launches.wrapping_add(field_int(r.fields@, "sum_of_activityPeriods"@))
        },
        first_event(r) != "com.apple.osanalytics.appUsage"@ ==> {
            &&& classify(r, p).active_seconds == p.active_seconds
            &&& classify(r, p).uptime_seconds == p.uptime_seconds
            &&& classify(r, p).activations == p.activations
            &&& classify(r, p).launches == p.launches
        },
{
}

/// Adding an app-usage record to the records adds its activation and
/// activity-period fields to the activations and launches of its app's
/// profile: the existing one, or a new one that starts from zero.
pub proof fn lemma_group_usage_counters(records: Seq<DecodedRecord>, r: DecodedRecord, query: Option<Seq<char>>)
    requires
        selected(r, query),
        first_event(r) == "com.apple.osanalytics.appUsage"@,
    ensures
        forall|i: int|
            0 <= i < group(records, query).len() && group(records, query)[i].bundle_id == record_key(
                r.fields@,
                query,
            ) ==> {
                &&& (#[trigger] group(records.push(r), query)[i]).bundle_id == record_key(r.fields@, query)
                &&& group(records.push(r), query)[i].activations == group(records, query)[i].activations.wrapping_add(
                    field_int(r.fields@, "sum_of_activations"@),
                )
                &&& group(records.push(r), query)[i].launches == group(records, query)[i].launches.wrapping_add(
                    field_int(r.fields@, "sum_of_activityPeriods"@),
                )
            },
        !has_id(group(records, query), record_key(r.fields@, query)) ==> {
            &&& group(records.push(r), query).len() == group(records, query).len() + 1
            &&& group(records.push(r), query).last().bundle_id == record_key(r.fields@, query)
            &&& group(records.push(r), query).last().activations as int == field_int(
                r.fields@,
                "sum_of_activations"@,
            ) as int
            &&& group(records.push(r), query).last().launches as int == field_int(
                r.fields@,
                "sum_of_activityPeriods"@,
            ) as int
        },
{
    let all = records.push(r);
    assert(all.drop_last() =~= records);
    assert(all.last() == r);
    let g = group(records, query);
    let id = record_key(r.fields@, query);
    lemma_group_counts(records, query);
    if has_id(g, id) {
        let k = choose|i: int| 0 <= i < g.len() && g[i].bundle_id == id;
        assert forall|i: int| 0 <= i < g.len() && g[i].bundle_id == id implies i == k by {
            if i < k {
                assert(g[i].bundle_id != g[k].bundle_id);
            } else if k < i {
                assert(g[k].bundle_id != g[i].bundle_id);
            }
        }
        lemma_classify_usage_counters(r, bump(g[k]));
        lemma_classify_keeps(r, bump(g[k]));
    } else {
        lemma_classify_usage_counters(r, bump(fresh_view(id)));
        lemma_classify_keeps(r, bump(fresh_view(id)));
    }
}

/// Grouping gives each key one profile, and the profiles together count
/// every record that takes part exactly once.
pub proof fn lemma_group_counts(records: Seq<DecodedRecord>, query: Option<Seq<char>>)
    ensures
        distinct_ids(group(records, query)),
        total_count(group(records, query)) == selected_count(records, query),
        selected_count(records, query) <= records.len(),
    decreases records.len(),
{
    lemma_selected_bound(records, query);
    if records.len() > 0 {
        let rest = records.drop_last();
        lemma_group_counts(rest, query);
        let g = group(rest, query);
        let r = records.last();
        if selected(r, query) {
            let id = record_key(r.fields@, query);
            if has_id(g, id) {
                let i = choose|i: int| 0 <= i < g.len() && g[i].bundle_id == id;
                lemma_classify_keeps(r, bump(g[i]));
                lemma_total_update(g, i, absorb(r, g[i]));
                let u = g.update(i, absorb(r, g[i]));
                assert forall|a: int, b: int| 0 <= a < b < u.len() implies u[a].bundle_id != u[b].bundle_id by {
                    assert(u[a].bundle_id == g[a].bundle_id);
                    assert(u[b].bundle_id == g[b].bundle_id);
                }
            } else {
                lemma_classify_keeps(r, bump(fresh_view(id)));
                let u = g.push(absorb(r, fresh_view(id)));
                assert(u.drop_last() =~= g);
                assert forall|a: int, b: int| 0 <= a < b < u.len() implies u[a].bundle_id != u[b].bundle_id by {
                    if b == u.len() - 1 {
                        assert(g[a].bundle_id != id);
                    }
                }
            }
        }
    }
}

/// Without a query, the profiles together count every record exactly once.
pub proof fn lemma_every_record_counted(records: Seq<DecodedRecord>)
    ensures
        total_count(group(records, None)) == records.len(),
    decreases records.len(),
{
    lemma_group_counts(records, None);
    lemma_all_selected(records);
}

/// Without a query every record takes part.
proof fn lemma_all_selected(records: Seq<DecodedRecord>)
    ensures
        selected_count(records, None) == records.len(),
    decreases records.len(),
{
    if records.len() > 0 {
        lemma_all_selected(records.drop_last());
    }
}

/// The key of a record, as a string.
fn key_of(record: &DecodedRecord, query: Option<&str>) -> (k: String)
    ensures
        k@ == record_key(record.fields@, query_view(query)),
{
    proof {
        reveal_strlit("(unknown)");
    }
    match extract_bundle_id(record) {
        Some(b) => b,
        None => match query {
            Some(q) => match extract_bundle_id_fuzzy(record, q) {
                Some(b) => b,
                None => string_of("(unknown)"),
            },
            None => string_of("(unknown)"),
        },
    }
}

/// Position of the profile with the bundle ID.
fn find_profile(g: &Vec<AppProfile>, id: &str) -> (r: Option<usize>)
    ensures
        match r {
            Some(i) => i < g@.len() && g@[i as int].bundle_id@ == id@,
            None => !has_id(views(g@), id@),
        },
{
    let mut i: usize = 0;
    while i < g.len()
        invariant
            i <= g.len(),
            forall|k: int| 0 <= k < i ==> g@[k].bundle_id@ != id@,
        decreases g.len() - i,
    {
        if str_eq(g[i].bundle_id.as_str(), id) {
            return Some(i);
        }
        i = i + 1;
    }
    proof {
        if has_id(views(g@), id@) {
            let k = choose|k: int| 0 <= k < views(g@).len() && views(g@)[k].bundle_id == id@;
            assert(g@[k].bundle_id@ == id@);
        }
    }
    None
}

/// One profile per key, in order of first appearance.
fn group_records(records: &[DecodedRecord], query: Option<&str>) -> (g: Vec<AppProfile>)
    ensures
        views(g@) == group(records@, query_view(query)),
{
    let ghost qv = query_view(query);
    let mut groups: Vec<AppProfile> = Vec::new();
    let mut n: usize = 0;
    assert(records@.subrange(0, 0) =~= Seq::<DecodedRecord>::empty());
    assert(views(groups@) =~= Seq::<ProfileView>::empty());
    while n < records.len()
        invariant
            n <= records@.len(),
            qv == query_view(query),
            views(groups@) == group(records@.subrange(0, n as int), qv),
        decreases records.len() - n,
    {
        let ghost pre = records@.subrange(0, n as int);
        let ghost next = records@.subrange(0, n + 1);
        assert(next.drop_last() =~= pre);
        assert(next.last() == records@[n as int]);
        proof {
            lemma_group_counts(pre, qv);
            lemma_group_counts(next, qv);
        }
        let r = &records[n];
        let take = match query {
            Some(q) => record_matches_query(r, q),
            None => true,
        };
        if take {
            let key = key_of(r, query);
            let ghost g0 = views(groups@);
            match find_profile(&groups, key.as_str()) {
                Some(i) => {
                    proof {
                        let j = choose|j: int| 0 <= j < g0.len() && g0[j].bundle_id == key@;
                        assert(g0[i as int].bundle_id == key@);
                        if j != i as int {
                            if j < i {
                                assert(g0[j].bundle_id != g0[i as int].bundle_id);
                            } else {
                                assert(g0[i as int].bundle_id != g0[j].bundle_id);
                            }
                        }
                        lemma_total_bounds(g0, i as int);
                    }
                    let ghost before = groups@;
                    groups[i].record_count = groups[i].record_count + 1;
                    classify_record(r, &mut groups[i]);
                    assert(views(groups@) =~= g0.update(i as int, absorb(*r, g0[i as int]))) by {
                        assert forall|k: int| 0 <= k < groups@.len() && k != i implies groups@[k] == before[k] by {}
                    }
                },
                None => {
                    let mut p = crate::schema::new_profile(key);
                    p.record_count = 1;
                    assert(p@.capabilities =~= Seq::empty());
                    assert(p@.binaries =~= Seq::empty());
                    assert(p@.security_apis =~= Seq::empty());
                    assert(p@.hardware =~= Seq::empty());
                    assert(p@.version =~= Seq::empty());
                    assert(p@.interface =~= Seq::empty());
                    assert(p@.bytes_values =~= Seq::empty());
                    assert(p@ == bump(fresh_view(key@)));
                    classify_record(r, &mut p);
                    groups.push(p);
                    assert(views(groups@) =~= g0.push(absorb(*r, fresh_view(key@))));
                },
            }
        }
        n = n + 1;
    }
    assert(records@.subrange(0, n as int) =~= records@);
    groups
}


/// Whether a profile key contains the lowercased query, ignoring case.
pub open spec fn key_matches(id: Seq<char>, ql: Seq<char>) -> bool {
    contains(ascii_lower(id), ql)
}

/// The number of '.' characters.
pub open spec fn dot_count(s: Seq<char>) -> nat
    decreases s.len(),
{
    if s.len() == 0 {
        0
    } else {
        dot_count(s.drop_last()) + if s.last() == '.' {
            1nat
        } else {
            0nat
        }
    }
}

/// Preference for a canonical key: bundle-ID form (two dots or more) first,
/// then the longer key in UTF-8 bytes.
pub open spec fn score(id: Seq<char>) -> nat {
    (if dot_count(id) >= 2 {
        100nat
    } else {
        0nat
    }) + vstd::utf8::encode_utf8(id).len()
}

/// The index of the canonical profile among those whose key matches: the
/// last one of the highest score, or -1 when none matches.
pub open spec fn best_index(g: Seq<ProfileView>, ql: Seq<char>) -> int
    decreases g.len(),
{
    if g.len() == 0 {
        -1
    } else {
        let b = best_index(g.drop_last(), ql);
        let i = g.len() - 1;
        if key_matches(g[i].bundle_id, ql) && (b < 0 || score(g[b].bundle_id) <= score(g[i].bundle_id)) {
            i
        } else {
            b
        }
    }
}

/// The profiles whose key satisfies `keep`, in order.
pub open spec fn keep_where(g: Seq<ProfileView>, keep: spec_fn(Seq<char>) -> bool) -> Seq<ProfileView>
    decreases g.len(),
{
    if g.len() == 0 {
        Seq::empty()
    } else {
        let a = keep_where(g.drop_last(), keep);
        if keep(g.last().bundle_id) {
            a.push(g.last())
        } else {
            a
        }
    }
}

/// The profiles whose key does not match, in order.
pub open spec fn unmatched(g: Seq<ProfileView>, ql: Seq<char>) -> Seq<ProfileView>
    decreases g.len(),
{
    if g.len() == 0 {
        Seq::empty()
    } else {
        let a = unmatched(g.drop_last(), ql);
        if key_matches(g.last().bundle_id, ql) {
            a
        } else {
            a.push(g.last())
        }
    }
}

/// `unmatched` keeps the profiles whose key does not match.
proof fn lemma_unmatched_keeps(g: Seq<ProfileView>, ql: Seq<char>)
    ensures
        unmatched(g, ql) == keep_where(g, |id: Seq<char>| !key_matches(id, ql)),
    decreases g.len(),
{
    if g.len() > 0 {
        lemma_unmatched_keeps(g.drop_last(), ql);
    }
}

/// Kept profiles come from the list and satisfy `keep`; keeping some of
/// a list without repeated keys repeats none.
pub proof fn lemma_keep_where(g: Seq<ProfileView>, keep: spec_fn(Seq<char>) -> bool)
    ensures
        forall|i: int|
            0 <= i < keep_where(g, keep).len() ==> keep(#[trigger] keep_where(g, keep)[i].bundle_id) && exists|j: int|
                0 <= j < g.len() && g[j] == keep_where(g, keep)[i],
        distinct_ids(g) ==> distinct_ids(keep_where(g, keep)),
    decreases g.len(),
{
    if g.len() > 0 {
        let d = g.drop_last();
        lemma_keep_where(d, keep);
        let a = keep_where(d, keep);
        let r = keep_where(g, keep);
        assert forall|i: int| 0 <= i < r.len() implies keep(#[trigger] r[i].bundle_id) && exists|j: int|
            0 <= j < g.len() && g[j] == r[i] by {
            if i < a.len() {
                assert(r[i] == a[i]);
                assert(keep(a[i].bundle_id));
                let j = choose|j: int| 0 <= j < d.len() && d[j] == a[i];
                assert(g[j] == r[i]);
            } else {
                assert(g[g.len() - 1] == r[i]);
            }
        }
        if distinct_ids(g) {
            assert forall|x: int, y: int| 0 <= x < y < r.len() implies r[x].bundle_id != r[y].bundle_id by {
                if y >= a.len() {
                    assert(keep(a[x].bundle_id));
                    let j = choose|j: int| 0 <= j < d.len() && d[j] == a[x];
                    assert(g[j] == a[x]);
                    assert(r[y] == g.last());
                } else {
                    assert(r[x] == a[x] && r[y] == a[y]);
                }
            }
        }
    }
}

/// `t` with every profile of `g` whose key matches merged in, in order.
pub open spec fn fold_merge(t: ProfileView, g: Seq<ProfileView>, ql: Seq<char>) -> ProfileView
    decreases g.len(),
{
    if g.len() == 0 {
        t
    } else {
        let a = fold_merge(t, g.drop_last(), ql);
        if key_matches(g.last().bundle_id, ql) {
            merge_view(a, g.last())
        } else {
            a
        }
    }
}

/// Profiles after merging those that match the query into the canonical
/// one, which then comes last.
pub open spec fn merged(g: Seq<ProfileView>, ql: Seq<char>) -> Seq<ProfileView> {
    let c = best_index(g, ql);
    if c < 0 {
        g
    } else {
        unmatched(g.remove(c), ql).push(fold_merge(g[c], g.remove(c), ql))
    }
}

/// The best index is -1 or an in-range index of a matching profile.
pub proof fn lemma_best_index(g: Seq<ProfileView>, ql: Seq<char>)
    ensures
        -1 <= best_index(g, ql) < g.len(),
        best_index(g, ql) >= 0 ==> key_matches(g[best_index(g, ql)].bundle_id, ql),
    decreases g.len(),
{
    if g.len() > 0 {
        lemma_best_index(g.drop_last(), ql);
    }
}

/// Removing one profile lowers the total by its count.
proof fn lemma_total_remove(g: Seq<ProfileView>, i: int)
    requires
        0 <= i < g.len(),
    ensures
        total_count(g.remove(i)) + g[i].record_count == total_count(g),
    decreases g.len(),
{
    if i == g.len() - 1 {
        assert(g.remove(i) =~= g.drop_last());
    } else {
        lemma_total_remove(g.drop_last(), i);
        assert(g.remove(i).drop_last() =~= g.drop_last().remove(i));
    }
}

/// Number of '.' characters in a string.
fn count_dots(s: &str) -> (n: usize)
    ensures
        n == dot_count(s@),
{
    let cs = chars_of(s);
    let mut n: usize = 0;
    let mut i: usize = 0;
    while i < cs.len()
        invariant
            cs@ == s@,
            i <= cs.len(),
            n == dot_count(cs@.subrange(0, i as int)),
            n <= i,
        decreases cs.len() - i,
    {
        assert(cs@.subrange(0, i + 1).drop_last() =~= cs@.subrange(0, i as int));
        if cs[i] == '.' {
            n = n + 1;
        }
        i = i + 1;
    }
    assert(cs@.subrange(0, i as int) =~= cs@);
    n
}

/// The preference score of a key.
fn score_of(id: &str) -> (s: u128)
    ensures
        s == score(id@),
{
    let dots = count_dots(id);
    let bytes = id.as_bytes().len();
    let base: u128 = if dots >= 2 { 100 } else { 0 };
    base + bytes as u128
}

/// Merge profiles that refer to the same app (e.g. "Zed.app" and
/// "dev.zed.Zed"): every profile whose key contains the query (ignoring
/// case) goes into the canonical one, the last of highest score.
pub fn merge_related_profiles(groups: Vec<AppProfile>, query: &str) -> (r: Vec<AppProfile>)
    requires
        total_count(views(groups@)) <= usize::MAX,
    ensures
        views(r@) == merged(views(groups@), ascii_lower(query@)),
{
    let ghost g = views(groups@);
    let q = to_ascii_lowercase(query);
    let ghost ql = q@;
    let mut best: Option<usize> = None;
    let mut i: usize = 0;
    assert(g.subrange(0, 0) =~= Seq::<ProfileView>::empty());
    while i < groups.len()
        invariant
            g == views(groups@),
            i <= groups.len(),
            ql == q@,
            match best {
                Some(b) => b < i && best_index(g.subrange(0, i as int), ql) == b,
                None => best_index(g.subrange(0, i as int), ql) == -1,
            },
        decreases groups.len() - i,
    {
        let ghost pre = g.subrange(0, i as int);
        let ghost next = g.subrange(0, i + 1);
        assert(next.drop_last() =~= pre);
        let low = to_ascii_lowercase(groups[i].bundle_id.as_str());
        if contains_str(low.as_str(), q.as_str()) {
            match best {
                Some(b) => {
                    if score_of(groups[b].bundle_id.as_str()) <= score_of(groups[i].bundle_id.as_str()) {
                        best = Some(i);
                    }
                },
                None => {
                    best = Some(i);
                },
            }
        }
        i = i + 1;
    }
    assert(g.subrange(0, i as int) =~= g);
    let c = match best {
        Some(c) => c,
        None => {
            return groups;
        },
    };
    proof {
        lemma_best_index(g, ql);
        lemma_total_remove(g, c as int);
    }
    let mut rest = groups;
    let mut canon = rest.remove(c);
    let ghost r0 = views(rest@);
    assert(r0 =~= g.remove(c as int));
    let mut kept: Vec<AppProfile> = Vec::new();
    let ghost mut k: int = 0;
    assert(r0.subrange(0, 0) =~= Seq::<ProfileView>::empty());
    assert(views(rest@) =~= r0.subrange(0, r0.len() as int));
    while rest.len() > 0
        invariant
            0 <= k <= r0.len(),
            ql == q@,
            views(rest@) == r0.subrange(k, r0.len() as int),
            views(kept@) == unmatched(r0.subrange(0, k), ql),
            canon@ == fold_merge(g[c as int], r0.subrange(0, k), ql),
            canon@.record_count + total_count(views(rest@)) <= usize::MAX,
        decreases rest.len(),
    {
        let ghost old_rest = rest@;
        assert(r0.subrange(k, r0.len() as int).len() == old_rest.len());
        proof {
            lemma_total_remove(views(old_rest), 0);
        }
        let p = rest.remove(0);
        assert(views(old_rest)[0] == p@);
        assert(r0.subrange(k, r0.len() as int)[0] == p@);
        assert(r0.subrange(0, k + 1).drop_last() =~= r0.subrange(0, k));
        assert(r0.subrange(0, k + 1).last() == p@);
        assert(views(rest@) =~= views(old_rest).remove(0));
        let low = to_ascii_lowercase(p.bundle_id.as_str());
        if contains_str(low.as_str(), q.as_str()) {
            merge_into(&mut canon, p);
        } else {
            let ghost kv = views(kept@);
            kept.push(p);
            assert(views(kept@) =~= kv.push(p@));
        }
        proof {
            k = k + 1;
        }
        assert(views(rest@) =~= r0.subrange(k, r0.len() as int));
    }
    assert(r0.subrange(0, k) =~= r0);
    let ghost kv = views(kept@);
    kept.push(canon);
    assert(views(kept@) =~= kv.push(canon@));
    kept
}


/// Merging keeps the key of the profile merged into.
proof fn lemma_fold_merge_id(t: ProfileView, g: Seq<ProfileView>, ql: Seq<char>)
    ensures
        fold_merge(t, g, ql).bundle_id == t.bundle_id,
    decreases g.len(),
{
    if g.len() > 0 {
        lemma_fold_merge_id(t, g.drop_last(), ql);
    }
}

/// Merging related profiles leaves one profile per key.
proof fn lemma_merged_distinct(g: Seq<ProfileView>, ql: Seq<char>)
    requires
        distinct_ids(g),
    ensures
        distinct_ids(merged(g, ql)),
{
    let c = best_index(g, ql);
    lemma_best_index(g, ql);
    if c >= 0 {
        let rest = g.remove(c);
        assert forall|x: int, y: int| 0 <= x < y < rest.len() implies rest[x].bundle_id != rest[y].bundle_id by {
            let gx = if x < c { x } else { x + 1 };
            let gy = if y < c { y } else { y + 1 };
            assert(rest[x] == g[gx] && rest[y] == g[gy]);
        }
        lemma_keep_where(rest, |id: Seq<char>| !key_matches(id, ql));
        lemma_unmatched_keeps(rest, ql);
        lemma_fold_merge_id(g[c], rest, ql);
        let u = unmatched(rest, ql);
        let m = merged(g, ql);
        assert forall|x: int, y: int| 0 <= x < y < m.len() implies m[x].bundle_id != m[y].bundle_id by {
            if y == m.len() - 1 {
                assert(m[x] == u[x]);
                assert(!key_matches(u[x].bundle_id, ql));
                let j = choose|j: int| 0 <= j < rest.len() && rest[j] == u[x];
                let gj = if j < c { j } else { j + 1 };
                assert(rest[j] == g[gj]);
                if gj < c {
                    assert(g[gj].bundle_id != g[c].bundle_id);
                } else {
                    assert(g[c].bundle_id != g[gj].bundle_id);
                }
            } else {
                assert(m[x] == u[x] && m[y] == u[y]);
            }
        }
    }
}

/// Folding the matching profiles into `t` moves their counts into it: the
/// folded profile and the unmatched ones count what `t` and `h` did.
proof fn lemma_fold_counts(t: ProfileView, h: Seq<ProfileView>, ql: Seq<char>)
    ensures
        fold_merge(t, h, ql).record_count + total_count(unmatched(h, ql)) == t.record_count + total_count(h),
    decreases h.len(),
{
    if h.len() > 0 {
        lemma_fold_counts(t, h.drop_last(), ql);
        let a = unmatched(h.drop_last(), ql);
        assert(a.push(h.last()).drop_last() =~= a);
    }
}

/// Merging related profiles loses no record: the merged profiles count
/// as many records as the profiles did before.
pub proof fn lemma_merge_keeps_count(g: Seq<ProfileView>, ql: Seq<char>)
    ensures
        total_count(merged(g, ql)) == total_count(g),
{
    lemma_best_index(g, ql);
    let c = best_index(g, ql);
    if c >= 0 {
        let rest = g.remove(c);
        lemma_total_remove(g, c);
        lemma_fold_counts(g[c], rest, ql);
        let u = unmatched(rest, ql);
        assert(u.push(fold_merge(g[c], rest, ql)).drop_last() =~= u);
    }
}

/// Some profile matches, then the best index names one.
proof fn lemma_best_found(g: Seq<ProfileView>, ql: Seq<char>, i: int)
    requires
        0 <= i < g.len(),
        key_matches(g[i].bundle_id, ql),
    ensures
        best_index(g, ql) >= 0,
    decreases g.len(),
{
    if i < g.len() - 1 {
        lemma_best_found(g.drop_last(), ql, i);
    }
}

/// When some profile's key matches the query, merging leaves exactly one
/// such profile, the last one, under the key of the best match.
pub proof fn lemma_merge_leaves_one_match(g: Seq<ProfileView>, ql: Seq<char>, i: int)
    requires
        0 <= i < g.len(),
        key_matches(g[i].bundle_id, ql),
    ensures
        merged(g, ql).len() > 0,
        merged(g, ql).last().bundle_id == g[best_index(g, ql)].bundle_id,
        key_matches(merged(g, ql).last().bundle_id, ql),
        forall|j: int| 0 <= j < merged(g, ql).len() - 1 ==> !key_matches(#[trigger] merged(g, ql)[j].bundle_id, ql),
{
    lemma_best_found(g, ql, i);
    lemma_best_index(g, ql);
    let c = best_index(g, ql);
    let rest = g.remove(c);
    lemma_fold_merge_id(g[c], rest, ql);
    lemma_keep_where(rest, |id: Seq<char>| !key_matches(id, ql));
    lemma_unmatched_keeps(rest, ql);
    let u = unmatched(rest, ql);
    let m = merged(g, ql);
    assert forall|j: int| 0 <= j < m.len() - 1 implies !key_matches(#[trigger] m[j].bundle_id, ql) by {
        assert(m[j] == u[j]);
    }
}

/// The key of records with no app.
pub open spec fn unknown_key() -> Seq<char> {
    "(unknown)"@
}

/// The profiles whose key names an app.
pub open spec fn known(g: Seq<ProfileView>) -> Seq<ProfileView>
    decreases g.len(),
{
    if g.len() == 0 {
        Seq::empty()
    } else {
        let a = known(g.drop_last());
        if g.last().bundle_id == unknown_key() {
            a
        } else {
            a.push(g.last())
        }
    }
}

/// `known` keeps the profiles not keyed "(unknown)".
proof fn lemma_known_keeps(g: Seq<ProfileView>)
    ensures
        known(g) == keep_where(g, |id: Seq<char>| id != unknown_key()),
    decreases g.len(),
{
    if g.len() > 0 {
        lemma_known_keeps(g.drop_last());
    }
}

/// The profiles of the records, before ordering.
pub open spec fn app_profiles_spec(records: Seq<DecodedRecord>, query: Option<Seq<char>>) -> Seq<ProfileView> {
    match query {
        Some(q) => known(merged(group(records, query), ascii_lower(q))),
        None => known(group(records, None)),
    }
}

/// Each app has one profile: no two profiles share a bundle ID.
pub proof fn lemma_profiles_distinct(records: Seq<DecodedRecord>, query: Option<Seq<char>>)
    ensures
        distinct_ids(app_profiles_spec(records, query)),
{
    lemma_group_counts(records, query);
    let g = group(records, query);
    match query {
        Some(q) => {
            lemma_merged_distinct(g, ascii_lower(q));
            lemma_keep_where(merged(g, ascii_lower(q)), |id: Seq<char>| id != unknown_key());
            lemma_known_keeps(merged(g, ascii_lower(q)));
        },
        None => {
            lemma_keep_where(g, |id: Seq<char>| id != unknown_key());
            lemma_known_keeps(g);
        },
    }
}

/// No profile is keyed "(unknown)".
pub proof fn lemma_no_unknown(records: Seq<DecodedRecord>, query: Option<Seq<char>>)
    ensures
        forall|i: int|
            0 <= i < app_profiles_spec(records, query).len() ==> #[trigger] app_profiles_spec(records, query)[i].bundle_id
                != unknown_key(),
{
    let g = group(records, query);
    match query {
        Some(q) => {
            lemma_keep_where(merged(g, ascii_lower(q)), |id: Seq<char>| id != unknown_key());
            lemma_known_keeps(merged(g, ascii_lower(q)));
        },
        None => {
            lemma_keep_where(g, |id: Seq<char>| id != unknown_key());
            lemma_known_keeps(g);
        },
    }
}

/// Drop the profiles keyed "(unknown)".
fn drop_unknown(g: Vec<AppProfile>) -> (r: Vec<AppProfile>)
    ensures
        views(r@) == known(views(g@)),
{
    proof {
        reveal_strlit("(unknown)");
    }
    let ghost gv = views(g@);
    let mut rest = g;
    let mut out: Vec<AppProfile> = Vec::new();
    let ghost mut k: int = 0;
    assert(gv.subrange(0, 0) =~= Seq::<ProfileView>::empty());
    assert(views(rest@) =~= gv.subrange(0, gv.len() as int));
    while rest.len() > 0
        invariant
            0 <= k <= gv.len(),
            views(rest@) == gv.subrange(k, gv.len() as int),
            views(out@) == known(gv.subrange(0, k)),
        decreases rest.len(),
    {
        let ghost old_rest = rest@;
        assert(gv.subrange(k, gv.len() as int).len() == old_rest.len());
        let p = rest.remove(0);
        assert(views(old_rest)[0] == p@);
        assert(gv.subrange(k, gv.len() as int)[0] == p@);
        assert(gv.subrange(0, k + 1).drop_last() =~= gv.subrange(0, k));
        assert(gv.subrange(0, k + 1).last() == p@);
        if !str_eq(p.bundle_id.as_str(), "(unknown)") {
            let ghost ov = views(out@);
            out.push(p);
            assert(views(out@) =~= ov.push(p@));
        }
        proof {
            k = k + 1;
        }
        assert(views(rest@) =~= gv.subrange(k, gv.len() as int)) by {
            assert forall|x: int| 0 <= x < rest@.len() implies views(rest@)[x] == gv.subrange(k, gv.len() as int)[x] by {
                assert(rest@[x] == old_rest[x + 1]);
                assert(views(old_rest)[x + 1] == gv.subrange(k - 1, gv.len() as int)[x + 1]);
            }
        }
    }
    assert(gv.subrange(0, k) =~= gv);
    out
}

/// Profiles by record count, most first, then by bundle ID.
pub struct ProfileOrder;

impl Preorder<AppProfile> for ProfileOrder {
    open spec fn le(a: AppProfile, b: AppProfile) -> bool {
        a.record_count > b.record_count || (a.record_count == b.record_count && lex_le(
            a.bundle_id@,
            b.bundle_id@,
        ))
    }

    proof fn lemma_total(a: AppProfile, b: AppProfile) {
        lemma_lex_total(a.bundle_id@, b.bundle_id@);
    }

    proof fn lemma_trans(a: AppProfile, b: AppProfile, c: AppProfile) {
        if a.record_count == b.record_count && b.record_count == c.record_count {
            lemma_lex_trans(a.bundle_id@, b.bundle_id@, c.bundle_id@);
        }
    }
}

impl Order<AppProfile> for ProfileOrder {
    fn exec_le(a: &AppProfile, b: &AppProfile) -> (r: bool) {
        a.record_count > b.record_count || (a.record_count == b.record_count && str_le(
            a.bundle_id.as_str(),
            b.bundle_id.as_str(),
        ))
    }
}

/// Profile views in the order of `ProfileOrder`.
pub struct ProfileViewOrder;

impl Preorder<ProfileView> for ProfileViewOrder {
    open spec fn le(a: ProfileView, b: ProfileView) -> bool {
        a.record_count > b.record_count || (a.record_count == b.record_count && lex_le(a.bundle_id, b.bundle_id))
    }

    proof fn lemma_total(a: ProfileView, b: ProfileView) {
        lemma_lex_total(a.bundle_id, b.bundle_id);
    }

    proof fn lemma_trans(a: ProfileView, b: ProfileView, c: ProfileView) {
        if a.record_count == b.record_count && b.record_count == c.record_count {
            lemma_lex_trans(a.bundle_id, b.bundle_id, c.bundle_id);
        }
    }
}

/// Build per-app profiles from decoded records.
///
/// When `query` is provided, only records with some field value containing
/// it (ignoring case) are used, records without a bundle ID may be keyed by
/// a bundle-like value containing the query, and the profiles whose key
/// contains the query are merged into one. Records with no app are left
/// out. Profiles come by record count, most first, then by bundle ID.
pub fn build_app_profiles(records: &[DecodedRecord], query: Option<&str>) -> (r: Vec<AppProfile>)
    ensures
        views(r@) == insertion_sort::<ProfileView, ProfileViewOrder>(app_profiles_spec(records@, query_view(query))),
        sorted::<AppProfile, ProfileOrder>(r@),
{
    let n = records.len();
    let g = group_records(records, query);
    proof {
        lemma_group_counts(records@, query_view(query));
    }
    let m = match query {
        Some(q) => merge_related_profiles(g, q),
        None => g,
    };
    let v = drop_unknown(m);
    let ghost expected = app_profiles_spec(records@, query_view(query));
    assert(views(v@) == expected);
    let out = sort_by_order::<AppProfile, ProfileOrder>(v);
    proof {
        lemma_sort_map::<AppProfile, ProfileView, ProfileOrder, ProfileViewOrder>(v@, |p: AppProfile| p@);
    }
    out
}


/// The short capability string of a profile: C=clipboard, K=keychain,
/// N=network, S=security.
pub open spec fn profile_caps(p: ProfileView) -> Seq<char> {
    (if has_kind(p.capabilities, "Clipboard"@) {
        seq!['C']
    } else {
        Seq::empty()
    }) + (if has_kind(p.capabilities, "Keychain"@) {
        seq!['K']
    } else {
        Seq::empty()
    }) + (if has_kind(p.capabilities, "NetworkOutgoing"@) {
        seq!['N']
    } else {
        Seq::empty()
    }) + (if p.security_apis.len() > 0 {
        seq!['S']
    } else {
        Seq::empty()
    })
}

/// A profile's capability string, stated over its view.
pub proof fn lemma_caps_view(p: AppProfile)
    ensures
        crate::schema::caps_text(p.capabilities@, p.security_apis@.len()) == profile_caps(p@),
{
    let caps = p.capabilities@;
    let cv = p@.capabilities;
    assert forall|k: Seq<char>| crate::schema::has_capability(caps, k) == has_kind(cv, k) by {
        if crate::schema::has_capability(caps, k) {
            let i = choose|i: int| 0 <= i < caps.len() && caps[i].kind@ == k;
            assert(cv[i].0 == k);
        }
        if has_kind(cv, k) {
            let i = choose|i: int| 0 <= i < cv.len() && cv[i].0 == k;
            assert(caps[i].kind@ == k);
        }
    }
}

} // verus!
