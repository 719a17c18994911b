//! The high-level summary of decoded telemetry.
use crate::app_profile::{
    app_profiles_spec, build_app_profiles, keep_where, key_matches, lemma_keep_where, profile_caps, views,
    ProfileView, ProfileViewOrder,
};
use crate::category::Category;
use crate::extract::{
    app_views, device_fold, espresso_hash_ok, extract_device_insights, extract_insights, gather, insights_rest_match,
    str_views, AppInsightView, AppViewOrder, DeviceView,
};
use crate::schema::{AppInsight, AppProfile, CollectionPeriod, DecodedRecord, EventInfo, Insights, SamplingInfo, SinkInfo, Summary};
use crate::sort::{insertion_sort, lemma_sort_map, sort_by_order, Order, Preorder};
use crate::text::{ascii_lower, contains, contains_str, str_eq, to_ascii_lowercase, trim_char, trim_char_str};
use vstd::prelude::*;

verus! {

broadcast use vstd::string::group_string_axioms;

/// Distinct keys with the number of times each occurs, in order of first
/// occurrence.
pub open spec fn tally<K>(keys: Seq<K>) -> Seq<(K, nat)>
    decreases keys.len(),
{
    if keys.len() == 0 {
        Seq::empty()
    } else {
        let t = tally(keys.drop_last());
        let k = keys.last();
        if exists|i: int| 0 <= i < t.len() && t[i].0 == k {
            let i = choose|i: int| 0 <= i < t.len() && t[i].0 == k;
            t.update(i, (k, t[i].1 + 1))
        } else {
            t.push((k, 1nat))
        }
    }
}

/// The sum of the counts.
pub open spec fn count_sum<K>(t: Seq<(K, nat)>) -> nat
    decreases t.len(),
{
    if t.len() == 0 {
        0
    } else {
        count_sum(t.drop_last()) + t.last().1
    }
}

/// Replacing one count changes the sum by the difference.
proof fn lemma_count_sum_update<K>(t: Seq<(K, nat)>, i: int, x: (K, nat))
    requires
        0 <= i < t.len(),
    ensures
        count_sum(t.update(i, x)) == count_sum(t) - t[i].1 + x.1,
    decreases t.len(),
{
    if i == t.len() - 1 {
        assert(t.update(i, x).drop_last() =~= t.drop_last());
    } else {
        lemma_count_sum_update(t.drop_last(), i, x);
        assert(t.update(i, x).drop_last() =~= t.drop_last().update(i, x));
    }
}

/// A tally names each key once, counts every key exactly once, and no
/// count exceeds the number of keys.
pub proof fn lemma_tally<K>(keys: Seq<K>)
    ensures
        forall|i: int, j: int| 0 <= i < j < tally(keys).len() ==> tally(keys)[i].0 != tally(keys)[j].0,
        count_sum(tally(keys)) == keys.len(),
        forall|i: int| 0 <= i < tally(keys).len() ==> 1 <= #[trigger] tally(keys)[i].1 <= keys.len(),
    decreases keys.len(),
{
    if keys.len() > 0 {
        let rest = keys.drop_last();
        lemma_tally(rest);
        let t = tally(rest);
        let k = keys.last();
        let u = tally(keys);
        if exists|i: int| 0 <= i < t.len() && t[i].0 == k {
            let i = choose|i: int| 0 <= i < t.len() && t[i].0 == k;
            lemma_count_sum_update(t, i, (k, t[i].1 + 1));
            assert forall|a: int, b: int| 0 <= a < b < u.len() implies u[a].0 != u[b].0 by {
                assert(u[a].0 == t[a].0 && u[b].0 == t[b].0);
            }
            assert forall|a: int| 0 <= a < u.len() implies 1 <= #[trigger] u[a].1 <= keys.len() by {
                if a != i {
                    assert(u[a] == t[a]);
                }
            }
        } else {
            assert(u.drop_last() =~= t);
            assert forall|a: int, b: int| 0 <= a < b < u.len() implies u[a].0 != u[b].0 by {
                if b == u.len() - 1 {
                    assert(t[a].0 != k);
                }
            }
            assert forall|a: int| 0 <= a < u.len() implies 1 <= #[trigger] u[a].1 <= keys.len() by {
                if a < t.len() {
                    assert(u[a] == t[a]);
                }
            }
        }
    }
}

/// The category of each record.
pub open spec fn category_keys(records: Seq<DecodedRecord>) -> Seq<Category> {
    records.map_values(|r: DecodedRecord| r.category)
}

/// The first event name of each record that has one.
pub open spec fn event_keys(records: Seq<DecodedRecord>) -> Seq<Seq<char>>
    decreases records.len(),
{
    if records.len() == 0 {
        Seq::empty()
    } else {
        let k = event_keys(records.drop_last());
        if records.last().event_names@.len() > 0 {
            k.push(records.last().event_names@[0]@)
        } else {
            k
        }
    }
}

/// The number of records whose config type is `ty`.
pub open spec fn config_count(records: Seq<DecodedRecord>, ty: Seq<char>) -> nat
    decreases records.len(),
{
    if records.len() == 0 {
        0
    } else {
        config_count(records.drop_last(), ty) + if records.last().config_type@ == ty {
            1nat
        } else {
            0nat
        }
    }
}

/// The number of records from OptOut configs.
pub open spec fn opt_out_count(records: Seq<DecodedRecord>) -> nat {
    config_count(records, "OptOut"@)
}

/// The number of records from Main configs.
pub open spec fn main_count(records: Seq<DecodedRecord>) -> nat {
    config_count(records, "Main"@)
}

/// Category counts as plain values.
pub open spec fn category_count_views(t: Seq<(Category, usize)>) -> Seq<(Category, nat)> {
    t.map_values(|p: (Category, usize)| (p.0, p.1 as nat))
}

/// Event counts as plain values.
pub open spec fn event_count_views(t: Seq<(String, usize)>) -> Seq<(Seq<char>, nat)> {
    t.map_values(|p: (String, usize)| (p.0@, p.1 as nat))
}

/// Counted keys, most first.
pub struct ByCount;

impl<K> Preorder<(K, nat)> for ByCount {
    open spec fn le(a: (K, nat), b: (K, nat)) -> bool {
        a.1 >= b.1
    }

    proof fn lemma_total(a: (K, nat), b: (K, nat)) {
    }

    proof fn lemma_trans(a: (K, nat), b: (K, nat), c: (K, nat)) {
    }
}

impl Preorder<(Category, usize)> for ByCount {
    open spec fn le(a: (Category, usize), b: (Category, usize)) -> bool {
        a.1 >= b.1
    }

    proof fn lemma_total(a: (Category, usize), b: (Category, usize)) {
    }

    proof fn lemma_trans(a: (Category, usize), b: (Category, usize), c: (Category, usize)) {
    }
}

impl Order<(Category, usize)> for ByCount {
    fn exec_le(a: &(Category, usize), b: &(Category, usize)) -> (r: bool) {
        a.1 >= b.1
    }
}

impl Preorder<(String, usize)> for ByCount {
    open spec fn le(a: (String, usize), b: (String, usize)) -> bool {
        a.1 >= b.1
    }

    proof fn lemma_total(a: (String, usize), b: (String, usize)) {
    }

    proof fn lemma_trans(a: (String, usize), b: (String, usize), c: (String, usize)) {
    }
}

impl Order<(String, usize)> for ByCount {
    fn exec_le(a: &(String, usize), b: &(String, usize)) -> (r: bool) {
        a.1 >= b.1
    }
}

/// Position of the category's entry.
fn find_category(t: &Vec<(Category, usize)>, c: Category) -> (r: Option<usize>)
    ensures
        match r {
            Some(i) => i < t@.len() && t@[i as int].0 == c,
            None => forall|k: int| 0 <= k < t@.len() ==> t@[k].0 != c,
        },
{
    let mut i: usize = 0;
    while i < t.len()
        invariant
            i <= t.len(),
            forall|k: int| 0 <= k < i ==> t@[k].0 != c,
        decreases t.len() - i,
    {
        if t[i].0 == c {
            return Some(i);
        }
        i = i + 1;
    }
    None
}

/// Records per category, in order of first occurrence.
fn category_tally(records: &[DecodedRecord]) -> (t: Vec<(Category, usize)>)
    ensures
        category_count_views(t@) == tally(category_keys(records@)),
{
    let mut t: Vec<(Category, usize)> = Vec::new();
    let mut n: usize = 0;
    assert(category_keys(records@.subrange(0, 0)) =~= Seq::<Category>::empty());
    assert(category_count_views(t@) =~= Seq::<(Category, nat)>::empty());
    while n < records.len()
        invariant
            n <= records@.len(),
            category_count_views(t@) == tally(category_keys(records@.subrange(0, n as int))),
        decreases records.len() - n,
    {
        let ghost keys = category_keys(records@.subrange(0, n as int));
        let ghost next = category_keys(records@.subrange(0, n + 1));
        assert(next.drop_last() =~= keys);
        assert(next.last() == records@[n as int].category);
        proof {
            lemma_tally(keys);
        }
        let ghost tv = category_count_views(t@);
        let c = records[n].category;
        match find_category(&t, c) {
            Some(i) => {
                assert(tv[i as int].0 == c);
                assert((choose|j: int| 0 <= j < tv.len() && tv[j].0 == c) == i as int) by {
                    let j = choose|j: int| 0 <= j < tv.len() && tv[j].0 == c;
                    if j != i as int {
                        if j < i {
                            assert(tv[j].0 != tv[i as int].0);
                        } else {
                            assert(tv[i as int].0 != tv[j].0);
                        }
                    }
                }
                let old_count = t[i].1;
                assert(old_count <= n);
                t.set(i, (c, old_count + 1));
                assert(category_count_views(t@) =~= tv.update(i as int, (c, tv[i as int].1 + 1)));
            },
            None => {
                assert(!exists|j: int| 0 <= j < tv.len() && tv[j].0 == c) by {
                    if exists|j: int| 0 <= j < tv.len() && tv[j].0 == c {
                        let j = choose|j: int| 0 <= j < tv.len() && tv[j].0 == c;
                        assert(t@[j].0 != c);
                    }
                }
                t.push((c, 1));
                assert(category_count_views(t@) =~= tv.push((c, 1nat)));
            },
        }
        n = n + 1;
    }
    assert(records@.subrange(0, n as int) =~= records@);
    t
}


/// Position of the event's entry.
pub(crate) fn find_event(t: &Vec<(String, usize)>, name: &str) -> (r: Option<usize>)
    ensures
        match r {
            Some(i) => i < t@.len() && t@[i as int].0@ == name@,
            None => forall|k: int| 0 <= k < t@.len() ==> t@[k].0@ != name@,
        },
{
    let mut i: usize = 0;
    while i < t.len()
        invariant
            i <= t.len(),
            forall|k: int| 0 <= k < i ==> t@[k].0@ != name@,
        decreases t.len() - i,
    {
        if str_eq(t[i].0.as_str(), name) {
            return Some(i);
        }
        i = i + 1;
    }
    None
}

/// The event keys of a prefix grow by at most one per record.
proof fn lemma_event_keys_len(records: Seq<DecodedRecord>)
    ensures
        event_keys(records).len() <= records.len(),
    decreases records.len(),
{
    if records.len() > 0 {
        lemma_event_keys_len(records.drop_last());
    }
}

/// Records per first event name, in order of first occurrence.
fn event_tally(records: &[DecodedRecord]) -> (t: Vec<(String, usize)>)
    ensures
        event_count_views(t@) == tally(event_keys(records@)),
{
    let mut t: Vec<(String, usize)> = Vec::new();
    let mut n: usize = 0;
    assert(event_count_views(t@) =~= Seq::<(Seq<char>, nat)>::empty());
    while n < records.len()
        invariant
            n <= records@.len(),
            event_count_views(t@) == tally(event_keys(records@.subrange(0, n as int))),
        decreases records.len() - n,
    {
        let ghost pre = records@.subrange(0, n as int);
        let ghost next = records@.subrange(0, n + 1);
        assert(next.drop_last() =~= pre);
        assert(next.last() == records@[n as int]);
        let ghost keys = event_keys(pre);
        proof {
            lemma_tally(keys);
            lemma_event_keys_len(pre);
        }
        let ghost tv = event_count_views(t@);
        if records[n].event_names.len() > 0 {
            let name = records[n].event_names[0].as_str();
            match find_event(&t, name) {
                Some(i) => {
                    assert(tv[i as int].0 == name@);
                    assert((choose|j: int| 0 <= j < tv.len() && tv[j].0 == name@) == i as int) by {
                        let j = choose|j: int| 0 <= j < tv.len() && tv[j].0 == name@;
                        if j != i as int {
                            if j < i {
                                assert(tv[j].0 != tv[i as int].0);
                            } else {
                                assert(tv[i as int].0 != tv[j].0);
                            }
                        }
                    }
                    let old_count = t[i].1;
                    assert(old_count <= n);
                    let key = t[i].0.clone();
                    t.set(i, (key, old_count + 1));
                    assert(event_count_views(t@) =~= tv.update(i as int, (name@, tv[i as int].1 + 1)));
                },
                None => {
                    assert(!exists|j: int| 0 <= j < tv.len() && tv[j].0 == name@) by {
                        if exists|j: int| 0 <= j < tv.len() && tv[j].0 == name@ {
                            let j = choose|j: int| 0 <= j < tv.len() && tv[j].0 == name@;
                            assert(t@[j].0@ != name@);
                        }
                    }
                    t.push((crate::text::string_of(name), 1));
                    assert(event_count_views(t@) =~= tv.push((name@, 1nat)));
                },
            }
            assert(event_keys(next) == keys.push(name@));
            assert(keys.push(name@).drop_last() =~= keys);
        } else {
            assert(event_keys(next) == keys);
        }
        n = n + 1;
    }
    assert(records@.subrange(0, n as int) =~= records@);
    t
}

/// Records whose config type is `ty`.
fn count_config(records: &[DecodedRecord], ty: &str) -> (n: usize)
    ensures
        n == config_count(records@, ty@),
        n <= records@.len(),
{
    let mut n: usize = 0;
    let mut i: usize = 0;
    while i < records.len()
        invariant
            i <= records@.len(),
            n == config_count(records@.subrange(0, i as int), ty@),
            n <= i,
        decreases records.len() - i,
    {
        assert(records@.subrange(0, i + 1).drop_last() =~= records@.subrange(0, i as int));
        if str_eq(records[i].config_type.as_str(), ty) {
            n = n + 1;
        }
        i = i + 1;
    }
    assert(records@.subrange(0, i as int) =~= records@);
    n
}

/// A device with nothing known.
pub open spec fn empty_device() -> DeviceView {
    DeviceView {
        platform: Seq::empty(),
        os_version: Seq::empty(),
        safari_version: Seq::empty(),
        wifi_radio: Seq::empty(),
        network_interface: Seq::empty(),
        thermal_state: Seq::empty(),
        low_power_mode: Seq::empty(),
        model_hash: Seq::empty(),
        ai_locale: Seq::empty(),
    }
}

/// One queried state: its value without surrounding quotes sets the field
/// the key names.
pub open spec fn state_step(k: Seq<char>, v: Seq<char>, d: DeviceView) -> DeviceView {
    let clean = trim_char(v, '"');
    if k == "lowPowerModeEnabled"@ {
        DeviceView { low_power_mode: clean, ..d }
    } else if k == "thermalPressure"@ {
        DeviceView { thermal_state: clean, ..d }
    } else if k == "wiFiRadioTech"@ {
        DeviceView { wifi_radio: clean, ..d }
    } else if k == "primaryNetworkInterface"@ {
        DeviceView { network_interface: clean, ..d }
    } else {
        d
    }
}

/// The queried states in order, later ones overriding earlier ones.
pub open spec fn states_fold(states: Seq<(Seq<char>, Seq<char>)>, d: DeviceView) -> DeviceView
    decreases states.len(),
{
    if states.len() == 0 {
        d
    } else {
        state_step(states.last().0, states.last().1, states_fold(states.drop_last(), d))
    }
}

/// The states as plain values.
pub open spec fn state_views(v: Seq<(String, String)>) -> Seq<(Seq<char>, Seq<char>)> {
    v.map_values(|p: (String, String)| (p.0@, p.1@))
}

/// Set device fields from queried states.
fn apply_states(states: &Vec<(String, String)>, device: &mut crate::schema::DeviceInsight)
    ensures
        final(device)@ == states_fold(state_views(states@), old(device)@),
{
    proof {
        reveal_strlit("lowPowerModeEnabled");
        reveal_strlit("thermalPressure");
        reveal_strlit("wiFiRadioTech");
        reveal_strlit("primaryNetworkInterface");
    }
    let ghost sv = state_views(states@);
    let ghost d0 = device@;
    let mut i: usize = 0;
    assert(sv.subrange(0, 0) =~= Seq::<(Seq<char>, Seq<char>)>::empty());
    while i < states.len()
        invariant
            sv == state_views(states@),
            i <= states.len(),
            d0 == old(device)@,
            device@ == states_fold(sv.subrange(0, i as int), d0),
        decreases states.len() - i,
    {
        assert(sv.subrange(0, i + 1).drop_last() =~= sv.subrange(0, i as int));
        assert(sv.subrange(0, i + 1).last() == (states@[i as int].0@, states@[i as int].1@));
        let k = states[i].0.as_str();
        let clean = trim_char_str(states[i].1.as_str(), '"');
        if str_eq(k, "lowPowerModeEnabled") {
            device.low_power_mode = clean;
        } else if str_eq(k, "thermalPressure") {
            device.thermal_state = clean;
        } else if str_eq(k, "wiFiRadioTech") {
            device.wifi_radio = clean;
        } else if str_eq(k, "primaryNetworkInterface") {
            device.network_interface = clean;
        }
        i = i + 1;
    }
    assert(sv.subrange(0, i as int) =~= sv);
}

/// The capability string of the first profile for the app, if any.
pub open spec fn caps_for(ps: Seq<ProfileView>, name: Seq<char>) -> Option<Seq<char>>
    decreases ps.len(),
{
    if ps.len() == 0 {
        None
    } else if ps[0].bundle_id == name {
        Some(profile_caps(ps[0]))
    } else {
        caps_for(ps.drop_first(), name)
    }
}

/// An app with the capabilities of its profile, when it has one.
pub open spec fn with_caps(a: AppInsightView, ps: Seq<ProfileView>) -> AppInsightView {
    match caps_for(ps, a.name) {
        Some(c) => AppInsightView { caps: c, ..a },
        None => a,
    }
}

/// The capability string of the profile for the app.
fn caps_lookup(profiles: &Vec<AppProfile>, name: &str) -> (r: Option<String>)
    ensures
        match (r, caps_for(views(profiles@), name@)) {
            (Some(a), Some(b)) => a@ == b,
            (None, None) => true,
            _ => false,
        },
{
    let ghost pv = views(profiles@);
    let mut i: usize = 0;
    assert(pv.skip(0) =~= pv);
    while i < profiles.len()
        invariant
            pv == views(profiles@),
            i <= profiles.len(),
            caps_for(pv, name@) == caps_for(pv.skip(i as int), name@),
        decreases profiles.len() - i,
    {
        assert(pv.skip(i as int)[0] == profiles@[i as int]@);
        assert(pv.skip(i as int).drop_first() =~= pv.skip(i + 1));
        if str_eq(profiles[i].bundle_id.as_str(), name) {
            proof {
                crate::app_profile::lemma_caps_view(profiles@[i as int]);
            }
            return Some(profiles[i].caps_string());
        }
        i = i + 1;
    }
    None
}

/// Enrich app insights with the capability indicators of their profiles.
fn enrich_caps(apps: &mut Vec<AppInsight>, profiles: &Vec<AppProfile>)
    ensures
        app_views(final(apps)@) == app_views(old(apps)@).map_values(|a: AppInsightView| with_caps(a, views(profiles@))),
{
    let ghost a0 = app_views(apps@);
    let ghost pv = views(profiles@);
    let mut i: usize = 0;
    while i < apps.len()
        invariant
            i <= apps.len(),
            a0 == app_views(old(apps)@),
            pv == views(profiles@),
            apps@.len() == a0.len(),
            forall|k: int| 0 <= k < i ==> (#[trigger] app_views(apps@)[k]) == with_caps(a0[k], pv),
            forall|k: int| i <= k < apps@.len() ==> (#[trigger] app_views(apps@)[k]) == a0[k],
        decreases apps.len() - i,
    {
        let ghost before = apps@;
        assert(app_views(before)[i as int] == a0[i as int]);
        assert(before[i as int]@ == a0[i as int]);
        match caps_lookup(profiles, apps[i].name.as_str()) {
            Some(c) => {
                apps[i].caps = c;
            },
            None => {},
        }
        assert forall|k: int| 0 <= k < apps@.len() && k != i implies #[trigger] app_views(apps@)[k] == app_views(before)[k] by {
            assert(apps@[k] == before[k]);
        }
        assert(app_views(apps@)[i as int] == with_caps(a0[i as int], pv));
        i = i + 1;
    }
    assert(app_views(apps@) =~= a0.map_values(|a: AppInsightView| with_caps(a, pv)));
}


/// Data sinks as plain values.
pub open spec fn sink_views(v: Seq<SinkInfo>) -> Seq<(Seq<char>, usize)> {
    v.map_values(|x: SinkInfo| (x.name@, x.transform_count))
}

/// Named counts as plain values.
pub open spec fn pair_views(v: Seq<(String, usize)>) -> Seq<(Seq<char>, usize)> {
    v.map_values(|p: (String, usize)| (p.0@, p.1))
}

/// The first `n` elements, or all when there are fewer.
pub open spec fn first_n<A>(s: Seq<A>, n: nat) -> Seq<A> {
    if s.len() <= n {
        s
    } else {
        s.subrange(0, n as int)
    }
}

/// The insights of a summary: what the records give, apps carrying the
/// capability indicators of their profiles, config-level facts as given,
/// and the device identity from queried states and then the records.
pub open spec fn summary_insights(
    r: Insights,
    records: Seq<DecodedRecord>,
    states: Seq<(Seq<char>, Seq<char>)>,
    sinks: Seq<(Seq<char>, usize)>,
    sampling: (usize, usize, usize),
    enrichment_rules: usize,
    total_event_types: usize,
    budget_disabled: Seq<Seq<char>>,
) -> bool {
    let g = gather(records);
    let ps = insertion_sort::<ProfileView, ProfileViewOrder>(app_profiles_spec(records, None));
    &&& app_views(r.apps@) == insertion_sort::<AppInsightView, AppViewOrder>(g.apps).map_values(
        |a: AppInsightView| with_caps(a, ps),
    )
    &&& insights_rest_match(r, g)
    &&& sink_views(r.data_sinks@) == sinks
    &&& r.sampling == (SamplingInfo { collecting: sampling.0, sampled_out: sampling.1, unsampled: sampling.2 })
    &&& r.enrichment_rules == enrichment_rules
    &&& r.total_event_types == total_event_types
    &&& str_views(r.budget_disabled@) == budget_disabled
    &&& r.device@ == device_fold(records, states_fold(states, empty_device()))
}

/// Sinks as `SinkInfo` entries.
fn to_sinks(sinks: Vec<(String, usize)>) -> (r: Vec<SinkInfo>)
    ensures
        sink_views(r@) == pair_views(sinks@),
{
    let ghost orig = pair_views(sinks@);
    let mut rest = sinks;
    let mut out: Vec<SinkInfo> = Vec::new();
    let ghost mut k: int = 0;
    assert(orig.subrange(0, 0) =~= Seq::<(Seq<char>, usize)>::empty());
    assert(pair_views(rest@) =~= orig.subrange(0, orig.len() as int));
    while rest.len() > 0
        invariant
            0 <= k <= orig.len(),
            pair_views(rest@) == orig.subrange(k, orig.len() as int),
            sink_views(out@) == orig.subrange(0, k),
        decreases rest.len(),
    {
        let ghost old_rest = rest@;
        assert(orig.subrange(k, orig.len() as int).len() == old_rest.len());
        let (name, count) = rest.remove(0);
        assert(orig.subrange(k, orig.len() as int)[0] == (name@, count));
        let ghost ov = sink_views(out@);
        let ghost nv = name@;
        out.push(SinkInfo { name, transform_count: count });
        assert(orig.subrange(0, k + 1) =~= orig.subrange(0, k).push(orig[k]));
        assert(orig[k] == (nv, count));
        assert(sink_views(out@) =~= ov.push((nv, count)));
        proof {
            k = k + 1;
        }
        assert(pair_views(rest@) =~= orig.subrange(k, orig.len() as int)) by {
            assert forall|x: int| 0 <= x < rest@.len() implies pair_views(rest@)[x] == orig.subrange(k, orig.len() as int)[x] by {
                assert(rest@[x] == old_rest[x + 1]);
                assert(pair_views(old_rest)[x + 1] == orig.subrange(k - 1, orig.len() as int)[x + 1]);
            }
        }
    }
    assert(orig.subrange(0, k) =~= orig);
    out
}

/// The profiles whose bundle ID contains the query, ignoring ASCII case.
pub open spec fn matching_profiles(g: Seq<ProfileView>, query: Seq<char>) -> Seq<ProfileView> {
    keep_where(g, |id: Seq<char>| key_matches(id, ascii_lower(query)))
}

/// Keep, in order, the profiles whose bundle ID contains the query,
/// ignoring ASCII case.
pub fn keep_matching(profiles: Vec<AppProfile>, query: &str) -> (r: Vec<AppProfile>)
    ensures
        views(r@) == matching_profiles(views(profiles@), query@),
{
    let ghost g = views(profiles@);
    let q = to_ascii_lowercase(query);
    let mut rest = profiles;
    let mut kept: Vec<AppProfile> = Vec::new();
    let ghost mut k: int = 0;
    assert(g.subrange(0, 0) =~= Seq::<ProfileView>::empty());
    assert(views(rest@) =~= g.subrange(0, g.len() as int));
    while rest.len() > 0
        invariant
            0 <= k <= g.len(),
            q@ == ascii_lower(query@),
            views(rest@) == g.subrange(k, g.len() as int),
            views(kept@) == matching_profiles(g.subrange(0, k), query@),
        decreases rest.len(),
    {
        let ghost old_rest = rest@;
        assert(g.subrange(k, g.len() as int).len() == old_rest.len());
        let p = rest.remove(0);
        assert(views(old_rest)[0] == p@);
        assert(g.subrange(k, g.len() as int)[0] == p@);
        assert(g.subrange(0, k + 1).drop_last() =~= g.subrange(0, k));
        assert(g.subrange(0, k + 1).last() == p@);
        assert(views(rest@) =~= views(old_rest).remove(0));
        let low = to_ascii_lowercase(p.bundle_id.as_str());
        if contains_str(low.as_str(), q.as_str()) {
            let ghost kv = views(kept@);
            kept.push(p);
            assert(views(kept@) =~= kv.push(p@));
        }
        proof {
            k = k + 1;
        }
        assert(views(rest@) =~= g.subrange(k, g.len() as int));
    }
    assert(g.subrange(0, k) =~= g);
    kept
}

/// Build app profiles for the records. With a query, only the profiles
/// whose bundle ID contains the query (ignoring ASCII case) are returned.
pub fn app_profiles_for(records: &[DecodedRecord], query: Option<&str>) -> (r: Vec<AppProfile>)
    ensures
        views(r@) == ({
            let all = insertion_sort::<ProfileView, ProfileViewOrder>(
                app_profiles_spec(records@, crate::app_profile::query_view(query)),
            );
            match query {
                Some(q) => matching_profiles(all, q@),
                None => all,
            }
        }),
        forall|i: int|
            #![trigger r@[i]]
            0 <= i < r@.len() ==> match query {
                Some(q) => contains(ascii_lower(r@[i].bundle_id@), ascii_lower(q@)),
                None => true,
            },
{
    let all = build_app_profiles(records, query);
    match query {
        Some(q) => {
            let r = keep_matching(all, q);
            proof {
                let keep = |id: Seq<char>| key_matches(id, ascii_lower(q@));
                lemma_keep_where(views(all@), keep);
                assert forall|i: int| 0 <= i < r@.len() implies contains(
                    ascii_lower(#[trigger] r@[i].bundle_id@),
                    ascii_lower(q@),
                ) by {
                    assert(views(r@)[i] == r@[i]@);
                    assert(keep(views(r@)[i].bundle_id));
                }
            }
            r
        },
        None => all,
    }
}

/// Generate a high-level summary of decoded telemetry, given what the
/// databases hold besides the records: collection periods, queried states,
/// data sinks with their transform counts, the sampling breakdown
/// (collecting, sampled out, unsampled), the enrichment rule and event type
/// counts, and the transforms disabled by budget.
pub fn summary(
    records: &[DecodedRecord],
    collection_periods: Vec<CollectionPeriod>,
    queried_states: Vec<(String, String)>,
    sinks: Vec<(String, usize)>,
    sampling: (usize, usize, usize),
    enrichment_rules: usize,
    total_event_types: usize,
    budget_disabled: Vec<String>,
) -> (r: Summary)
    requires
        forall|i: int| 0 <= i < records@.len() ==> espresso_hash_ok(#[trigger] records@[i]),
    ensures
        r.total_records == records@.len(),
        r.opt_out_count == opt_out_count(records@),
        r.main_count == main_count(records@),
        category_count_views(r.category_counts@) == insertion_sort::<(Category, nat), ByCount>(
            tally(category_keys(records@)),
        ),
        event_count_views(r.top_events@) == first_n(
            insertion_sort::<(Seq<char>, nat), ByCount>(tally(event_keys(records@))),
            20,
        ),
        r.collection_periods@ == collection_periods@,
        r.queried_states@ == queried_states@,
        summary_insights(
            r.insights,
            records@,
            state_views(queried_states@),
            pair_views(sinks@),
            sampling,
            enrichment_rules,
            total_event_types,
            str_views(budget_disabled@),
        ),
{
    let cats = category_tally(records);
    let ghost cv = cats@;
    let category_counts = sort_by_order::<(Category, usize), ByCount>(cats);
    proof {
        lemma_sort_map::<(Category, usize), (Category, nat), ByCount, ByCount>(
            cv,
            |p: (Category, usize)| (p.0, p.1 as nat),
        );
    }
    let events = event_tally(records);
    let ghost ev = events@;
    let mut top_events = sort_by_order::<(String, usize), ByCount>(events);
    proof {
        lemma_sort_map::<(String, usize), (Seq<char>, nat), ByCount, ByCount>(
            ev,
            |p: (String, usize)| (p.0@, p.1 as nat),
        );
    }
    let ghost sorted_events = top_events@;
    top_events.truncate(20);
    assert(event_count_views(top_events@) =~= first_n(event_count_views(sorted_events), 20));
    let opt_out_count = count_config(records, "OptOut");
    let main_count = count_config(records, "Main");
    let mut insights = extract_insights(records);
    let profiles = build_app_profiles(records, None);
    enrich_caps(&mut insights.apps, &profiles);
    insights.data_sinks = to_sinks(sinks);
    insights.sampling = SamplingInfo { collecting: sampling.0, sampled_out: sampling.1, unsampled: sampling.2 };
    insights.enrichment_rules = enrichment_rules;
    insights.total_event_types = total_event_types;
    insights.budget_disabled = budget_disabled;
    assert(insights.device@ == empty_device()) by {
        let d = insights.device;
        assert(d.platform@ =~= Seq::empty());
        assert(d.os_version@ =~= Seq::empty());
        assert(d.safari_version@ =~= Seq::empty());
        assert(d.wifi_radio@ =~= Seq::empty());
        assert(d.network_interface@ =~= Seq::empty());
        assert(d.thermal_state@ =~= Seq::empty());
        assert(d.low_power_mode@ =~= Seq::empty());
        assert(d.model_hash@ =~= Seq::empty());
        assert(d.ai_locale@ =~= Seq::empty());
    }
    apply_states(&queried_states, &mut insights.device);
    extract_device_insights(records, &mut insights.device);
    Summary {
        category_counts,
        opt_out_count,
        main_count,
        total_records: records.len(),
        top_events,
        collection_periods,
        queried_states,
        insights,
    }
}


/// Inserting a counted key adds its count to the sum.
proof fn lemma_count_sum_insert<K>(t: Seq<(K, nat)>, i: int, x: (K, nat))
    requires
        0 <= i <= t.len(),
    ensures
        count_sum(t.insert(i, x)) == count_sum(t) + x.1,
    decreases t.len(),
{
    if i == t.len() {
        assert(t.insert(i, x).drop_last() =~= t);
    } else {
        lemma_count_sum_insert(t.drop_last(), i, x);
        assert(t.insert(i, x).drop_last() =~= t.drop_last().insert(i, x));
    }
}

/// Sorting keeps the sum of the counts.
proof fn lemma_sorted_count_sum<K>(t: Seq<(K, nat)>)
    ensures
        count_sum(insertion_sort::<(K, nat), ByCount>(t)) == count_sum(t),
    decreases t.len(),
{
    if t.len() > 0 {
        let r = insertion_sort::<(K, nat), ByCount>(t.drop_last());
        lemma_sorted_count_sum(t.drop_last());
        crate::sort::lemma_first_above_bound::<(K, nat), ByCount>(r, t.last());
        lemma_count_sum_insert(r, crate::sort::first_above::<(K, nat), ByCount>(r, t.last()) as int, t.last());
    }
}

/// The category counts of a summary add up to the number of records, and
/// each category is counted at least once.
pub proof fn lemma_category_counts_total(records: Seq<DecodedRecord>)
    ensures
        count_sum(insertion_sort::<(Category, nat), ByCount>(tally(category_keys(records)))) == records.len(),
{
    lemma_tally(category_keys(records));
    lemma_sorted_count_sum(tally(category_keys(records)));
}

} // verus!
