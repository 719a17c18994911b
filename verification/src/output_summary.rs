//! Sections of the summary report.
use crate::json::{decimal, i64_to_string, u64_to_string, usize_to_string};
use crate::output::{concat, join, lemma_concat_push};
use crate::category::{category_name, Category};
use crate::schema::{Summary, AppInsight, period_label_text, MlModelInsight, BinaryFingerprint, CollectionPeriod, DeviceInsight, Insights, SinkInfo};
use crate::summary::first_n;
use crate::sort::{insertion_sort, lex_le, sort_by_order, str_le, Order, Preorder};
use crate::text::{contains, contains_str, chars_of, push_char, push_str, split_char, split_on, str_eq, string_of, lemma_split_nonempty};
use vstd::prelude::*;

verus! {

broadcast use vstd::string::group_string_axioms;

/// Whether every character is an ASCII digit.
pub open spec fn all_digits(s: Seq<char>) -> bool {
    forall|i: int| 0 <= i < s.len() ==> '0' <= #[trigger] s[i] && s[i] <= '9'
}

/// The value of a string of decimal digits.
pub open spec fn digits_value(s: Seq<char>) -> nat
    decreases s.len(),
{
    if s.len() == 0 {
        0
    } else {
        digits_value(s.drop_last()) * 10 + ((s.last() as int) - ('0' as int)) as nat
    }
}

/// `u32::from_str`: an optional '+', then one or more digits, of a value
/// that fits.
pub open spec fn parsed_u32(s: Seq<char>) -> Option<u32> {
    let d = if s.len() > 0 && s[0] == '+' {
        s.drop_first()
    } else {
        s
    };
    if d.len() > 0 && all_digits(d) && digits_value(d) <= u32::MAX {
        Some(digits_value(d) as u32)
    } else {
        None
    }
}

/// Parse a decimal `u32` as `str::parse` does.
pub fn parse_u32(s: &str) -> (r: Option<u32>)
    ensures
        r == parsed_u32(s@),
{
    let cs = chars_of(s);
    let start: usize = if cs.len() > 0 && cs[0] == '+' { 1 } else { 0 };
    let ghost d = if s@.len() > 0 && s@[0] == '+' {
        s@.drop_first()
    } else {
        s@
    };
    assert(d =~= cs@.subrange(start as int, cs@.len() as int));
    if start == cs.len() {
        return None;
    }
    let mut value: u64 = 0;
    let mut i: usize = start;
    assert(cs@.subrange(start as int, start as int) =~= Seq::<char>::empty());
    while i < cs.len()
        invariant
            start <= i <= cs@.len(),
            cs@ == s@,
            d == cs@.subrange(start as int, cs@.len() as int),
            d == (if s@.len() > 0 && s@[0] == '+' {
                s@.drop_first()
            } else {
                s@
            }),
            value == digits_value(cs@.subrange(start as int, i as int)),
            value <= u32::MAX,
            all_digits(cs@.subrange(start as int, i as int)),
        decreases cs.len() - i,
    {
        let c = cs[i];
        assert(cs@.subrange(start as int, i + 1).drop_last() =~= cs@.subrange(start as int, i as int));
        if c < '0' || c > '9' {
            assert(!all_digits(d)) by {
                assert(d[i - start] == c);
            }
            assert(parsed_u32(s@) is None);
            return None;
        }
        let digit = (c as u32 - '0' as u32) as u64;
        value = value * 10 + digit;
        if value > 0xffff_ffff {
            proof {
                assert(d.subrange(0, (i + 1 - start) as int) =~= cs@.subrange(start as int, i + 1));
                if all_digits(d) {
                    lemma_digits_grow(d, (i + 1 - start) as int);
                }
            }
            assert(parsed_u32(s@) is None);
            return None;
        }
        i = i + 1;
        assert(all_digits(cs@.subrange(start as int, i as int))) by {
            assert forall|k: int| 0 <= k < i - start implies '0' <= #[trigger] cs@.subrange(start as int, i as int)[k]
                && cs@.subrange(start as int, i as int)[k] <= '9' by {
                if k < i - 1 - start {
                    assert(cs@.subrange(start as int, i as int)[k] == cs@.subrange(start as int, i - 1)[k]);
                }
            }
        }
    }
    assert(cs@.subrange(start as int, i as int) =~= d);
    Some(value as u32)
}

/// A longer run of digits is worth at least as much as its prefix.
proof fn lemma_digits_grow(s: Seq<char>, k: int)
    requires
        0 <= k <= s.len(),
        all_digits(s),
    ensures
        digits_value(s.subrange(0, k)) <= digits_value(s),
    decreases s.len(),
{
    if k < s.len() {
        lemma_digits_grow(s.drop_last(), k);
        assert(s.drop_last().subrange(0, k) =~= s.subrange(0, k));
        assert(all_digits(s.drop_last())) by {
            assert forall|i: int| 0 <= i < s.drop_last().len() implies '0' <= #[trigger] s.drop_last()[i]
                && s.drop_last()[i] <= '9' by {
                assert(s.drop_last()[i] == s[i]);
            }
        }
        assert(s[s.len() - 1] >= '0');
    } else {
        assert(s.subrange(0, k) =~= s);
    }
}

/// The three-letter name of a two-digit month, else the text itself.
pub open spec fn month_text(mm: Seq<char>) -> Seq<char> {
    if mm == "01"@ {
        "Jan"@
    } else if mm == "02"@ {
        "Feb"@
    } else if mm == "03"@ {
        "Mar"@
    } else if mm == "04"@ {
        "Apr"@
    } else if mm == "05"@ {
        "May"@
    } else if mm == "06"@ {
        "Jun"@
    } else if mm == "07"@ {
        "Jul"@
    } else if mm == "08"@ {
        "Aug"@
    } else if mm == "09"@ {
        "Sep"@
    } else if mm == "10"@ {
        "Oct"@
    } else if mm == "11"@ {
        "Nov"@
    } else if mm == "12"@ {
        "Dec"@
    } else {
        mm
    }
}

/// The name of a month.
fn month_name(mm: &str) -> (r: String)
    ensures
        r@ == month_text(mm@),
{
    proof {
        reveal_strlit("01");
        reveal_strlit("02");
        reveal_strlit("03");
        reveal_strlit("04");
        reveal_strlit("05");
        reveal_strlit("06");
        reveal_strlit("07");
        reveal_strlit("08");
        reveal_strlit("09");
        reveal_strlit("10");
        reveal_strlit("11");
        reveal_strlit("12");
    }
    let name = if str_eq(mm, "01") {
        "Jan"
    } else if str_eq(mm, "02") {
        "Feb"
    } else if str_eq(mm, "03") {
        "Mar"
    } else if str_eq(mm, "04") {
        "Apr"
    } else if str_eq(mm, "05") {
        "May"
    } else if str_eq(mm, "06") {
        "Jun"
    } else if str_eq(mm, "07") {
        "Jul"
    } else if str_eq(mm, "08") {
        "Aug"
    } else if str_eq(mm, "09") {
        "Sep"
    } else if str_eq(mm, "10") {
        "Oct"
    } else if str_eq(mm, "11") {
        "Nov"
    } else if str_eq(mm, "12") {
        "Dec"
    } else {
        mm
    };
    string_of(name)
}

/// The date part of an ISO timestamp (before the first 'T').
pub open spec fn date_part(ts: Seq<char>) -> Seq<char> {
    split_on(ts, 'T')[0]
}

/// A short "Mon D" date from an ISO timestamp like "2026-03-30T00:09:02",
/// or the date part when it has fewer than three '-'-separated parts.
pub open spec fn short_date_text(ts: Seq<char>) -> Seq<char> {
    let date = date_part(ts);
    let parts = split_on(date, '-');
    if parts.len() < 3 {
        date
    } else {
        month_text(parts[1]) + " "@ + decimal(
            match parsed_u32(parts[2]) {
                Some(d) => d as int,
                None => 0,
            },
        )
    }
}

/// Extract a short "Mon DD" date from an ISO timestamp.
pub fn format_short_date(ts: &str) -> (r: String)
    ensures
        r@ == short_date_text(ts@),
{
    proof {
        reveal_strlit(" ");
        lemma_split_nonempty(ts@, 'T');
    }
    let pieces = split_char(ts, 'T');
    let date = pieces[0].as_str();
    let parts = split_char(date, '-');
    if parts.len() < 3 {
        return string_of(date);
    }
    let month = month_name(parts[1].as_str());
    let day: u32 = match parse_u32(parts[2].as_str()) {
        Some(d) => d,
        None => 0,
    };
    let mut out = month;
    push_str(&mut out, " ");
    push_str(&mut out, u64_to_string(day as u64).as_str());
    out
}

/// Integers in ascending order.
pub struct Ascending;

impl Preorder<i64> for Ascending {
    open spec fn le(a: i64, b: i64) -> bool {
        a <= b
    }

    proof fn lemma_total(a: i64, b: i64) {
    }

    proof fn lemma_trans(a: i64, b: i64, c: i64) {
    }
}

impl Order<i64> for Ascending {
    fn exec_le(a: &i64, b: &i64) -> (r: bool) {
        *a <= *b
    }
}

/// The least string of the list (lexicographically), or "" for none.
pub open spec fn min_text(s: Seq<Seq<char>>) -> Seq<char>
    decreases s.len(),
{
    if s.len() == 0 {
        Seq::empty()
    } else if s.len() == 1 {
        s[0]
    } else {
        let m = min_text(s.drop_last());
        if lex_le(m, s.last()) {
            m
        } else {
            s.last()
        }
    }
}

/// The greatest string of the list (lexicographically), or "" for none.
pub open spec fn max_text(s: Seq<Seq<char>>) -> Seq<char>
    decreases s.len(),
{
    if s.len() == 0 {
        Seq::empty()
    } else if s.len() == 1 {
        s[0]
    } else {
        let m = max_text(s.drop_last());
        if lex_le(s.last(), m) {
            m
        } else {
            s.last()
        }
    }
}

/// The period line: the earliest start and latest end as short dates, and
/// the period labels by period type.
pub open spec fn periods_text(periods: Seq<CollectionPeriod>) -> Seq<char> {
    let starts = periods.map_values(|p: CollectionPeriod| p.start_timestamp@);
    let ends = periods.map_values(|p: CollectionPeriod| p.end_boundary@);
    let types = insertion_sort::<i64, Ascending>(periods.map_values(|p: CollectionPeriod| p.period_type));
    "Tracking you since "@ + short_date_text(min_text(starts)) + " through "@ + short_date_text(max_text(ends))
        + " \u{2014} "@ + join(types.map_values(|t: i64| period_label_text(t)), " \u{00b7} "@) + "\n"@
}

/// The least or greatest of the texts.
fn extreme_text(texts: &Vec<String>, greatest: bool) -> (r: String)
    ensures
        r@ == if greatest {
            max_text(texts@.map_values(|s: String| s@))
        } else {
            min_text(texts@.map_values(|s: String| s@))
        },
{
    let ghost tv = texts@.map_values(|s: String| s@);
    if texts.len() == 0 {
        return String::new();
    }
    let mut best = texts[0].clone();
    let mut i: usize = 1;
    assert(tv.subrange(0, 1) =~= seq![tv[0]]);
    while i < texts.len()
        invariant
            1 <= i <= texts.len(),
            tv == texts@.map_values(|s: String| s@),
            best@ == if greatest {
                max_text(tv.subrange(0, i as int))
            } else {
                min_text(tv.subrange(0, i as int))
            },
        decreases texts.len() - i,
    {
        assert(tv.subrange(0, i + 1).drop_last() =~= tv.subrange(0, i as int));
        let take = if greatest {
            !str_le(texts[i].as_str(), best.as_str())
        } else {
            !str_le(best.as_str(), texts[i].as_str())
        };
        if take {
            best = texts[i].clone();
        }
        i = i + 1;
    }
    assert(tv.subrange(0, i as int) =~= tv);
    best
}

/// Format collection periods as one line with the date range and the
/// period kinds.
pub fn format_periods_inline(out: &mut String, periods: &Vec<CollectionPeriod>)
    ensures
        final(out)@ == old(out)@ + periods_text(periods@),
{
    proof {
        reveal_strlit("Tracking you since ");
        reveal_strlit(" through ");
        reveal_strlit(" \u{2014} ");
        reveal_strlit(" \u{00b7} ");
        reveal_strlit("\n");
    }
    let mut starts: Vec<String> = Vec::new();
    let mut ends: Vec<String> = Vec::new();
    let mut types: Vec<i64> = Vec::new();
    let mut i: usize = 0;
    while i < periods.len()
        invariant
            i <= periods.len(),
            starts@.map_values(|s: String| s@) == periods@.subrange(0, i as int).map_values(
                |p: CollectionPeriod| p.start_timestamp@,
            ),
            ends@.map_values(|s: String| s@) == periods@.subrange(0, i as int).map_values(
                |p: CollectionPeriod| p.end_boundary@,
            ),
            types@ == periods@.subrange(0, i as int).map_values(|p: CollectionPeriod| p.period_type),
        decreases periods.len() - i,
    {
        let ghost s0 = starts@.map_values(|s: String| s@);
        let ghost e0 = ends@.map_values(|s: String| s@);
        starts.push(periods[i].start_timestamp.clone());
        ends.push(periods[i].end_boundary.clone());
        types.push(periods[i].period_type);
        assert(periods@.subrange(0, i + 1) =~= periods@.subrange(0, i as int).push(periods@[i as int]));
        assert(starts@.map_values(|s: String| s@) =~= s0.push(periods@[i as int].start_timestamp@));
        assert(ends@.map_values(|s: String| s@) =~= e0.push(periods@[i as int].end_boundary@));
        i = i + 1;
    }
    assert(periods@.subrange(0, i as int) =~= periods@);
    let start = format_short_date(extreme_text(&starts, false).as_str());
    let end = format_short_date(extreme_text(&ends, true).as_str());
    let sorted = sort_by_order::<i64, Ascending>(types);
    let ghost labels = sorted@.map_values(|t: i64| period_label_text(t));
    let ghost o0 = out@;
    push_str(out, "Tracking you since ");
    push_str(out, start.as_str());
    push_str(out, " through ");
    push_str(out, end.as_str());
    push_str(out, " \u{2014} ");
    let ghost o1 = out@;
    let mut k: usize = 0;
    while k < sorted.len()
        invariant
            k <= sorted.len(),
            labels == sorted@.map_values(|t: i64| period_label_text(t)),
            out@ == o1 + join(labels.subrange(0, k as int), " \u{00b7} "@),
        decreases sorted.len() - k,
    {
        assert(labels.subrange(0, k + 1).drop_last() =~= labels.subrange(0, k as int));
        if k > 0 {
            push_str(out, " \u{00b7} ");
        }
        let p = CollectionPeriod { start_timestamp: String::new(), end_boundary: String::new(), period_type: sorted[k] };
        push_str(out, p.period_label());
        k = k + 1;
    }
    assert(labels.subrange(0, k as int) =~= labels);
    push_str(out, "\n");
    assert(out@ =~= o0 + periods_text(periods@));
}


/// A line when the condition holds, else nothing.
pub open spec fn line_if(c: bool, line: Seq<char>) -> Seq<char> {
    if c {
        line
    } else {
        Seq::empty()
    }
}

/// The device-level counter lines.
pub open spec fn device_counter_lines(ins: Insights) -> Seq<char> {
    line_if(
        ins.bt_devices_found > 0,
        "  Bluetooth: "@ + decimal(ins.bt_devices_found as int) + " unique devices detected nearby\n"@,
    ) + line_if(ins.wifi_scans > 0, "  WiFi: "@ + decimal(ins.wifi_scans as int) + " scan result records\n"@)
        + line_if(
        ins.profiling_items > 0,
        "  Behavioral profile: "@ + decimal(ins.profiling_items as int) + " unique items about you\n"@,
    )
}

/// The config-level counter lines.
pub open spec fn config_counter_lines(ins: Insights) -> Seq<char> {
    line_if(
        ins.enrichment_rules > 0,
        "  "@ + decimal(ins.enrichment_rules as int) + " event enrichment rules injecting device state into events\n"@,
    ) + line_if(
        ins.total_event_types > 0,
        "  "@ + decimal(ins.total_event_types as int) + " total event types defined (the full surveillance catalog)\n"@,
    ) + line_if(
        ins.budget_disabled@.len() > 0,
        "  "@ + decimal(ins.budget_disabled@.len() as int) + " transforms hit their data budget cap and were throttled\n"@,
    )
}

/// The behavioral feedback line.
pub open spec fn feedback_line(ins: Insights) -> Seq<char> {
    line_if(
        ins.behavioral_domains@.len() > 0,
        "  Behavioral feedback loops: "@ + join(ins.behavioral_domains@.map_values(|s: String| s@), ", "@) + "\n"@,
    )
}

/// The surveillance counters section.
pub open spec fn counters_text(ins: Insights) -> Seq<char> {
    "\n"@ + "--- Surveillance Counters ---\n"@ + device_counter_lines(ins) + config_counter_lines(ins) + feedback_line(ins)
}

/// Append the strings joined by `sep`.
pub fn push_joined(out: &mut String, items: &Vec<String>, sep: &str)
    ensures
        final(out)@ == old(out)@ + join(items@.map_values(|s: String| s@), sep@),
{
    let ghost iv = items@.map_values(|s: String| s@);
    let ghost o0 = out@;
    let mut i: usize = 0;
    while i < items.len()
        invariant
            i <= items.len(),
            iv == items@.map_values(|s: String| s@),
            o0 == old(out)@,
            out@ == o0 + join(iv.subrange(0, i as int), sep@),
        decreases items.len() - i,
    {
        assert(iv.subrange(0, i + 1).drop_last() =~= iv.subrange(0, i as int));
        if i > 0 {
            push_str(out, sep);
        }
        push_str(out, items[i].as_str());
        i = i + 1;
    }
    assert(iv.subrange(0, i as int) =~= iv);
}

/// Append `a`, `b` and `c`.
pub(crate) fn push3(out: &mut String, a: &str, b: &str, c: &str)
    ensures
        final(out)@ == old(out)@ + (a@ + b@ + c@),
{
    let ghost o0 = out@;
    push_str(out, a);
    push_str(out, b);
    push_str(out, c);
    assert(out@ =~= o0 + (a@ + b@ + c@));
}

/// Append the device-level counter lines.
fn push_device_counters(out: &mut String, ins: &Insights)
    ensures
        final(out)@ == old(out)@ + device_counter_lines(*ins),
{
    let ghost o0 = out@;
    if ins.bt_devices_found > 0 {
        push3(out, "  Bluetooth: ", u64_to_string(ins.bt_devices_found).as_str(), " unique devices detected nearby\n");
    }
    let ghost o1 = out@;
    if ins.wifi_scans > 0 {
        push3(out, "  WiFi: ", usize_to_string(ins.wifi_scans).as_str(), " scan result records\n");
    }
    let ghost o2 = out@;
    if ins.profiling_items > 0 {
        push3(out, "  Behavioral profile: ", u64_to_string(ins.profiling_items).as_str(), " unique items about you\n");
    }
    assert(out@ =~= o0 + device_counter_lines(*ins));
}

/// Append the config-level counter lines.
fn push_config_counters(out: &mut String, ins: &Insights)
    ensures
        final(out)@ == old(out)@ + config_counter_lines(*ins),
{
    let ghost o0 = out@;
    if ins.enrichment_rules > 0 {
        push3(
            out,
            "  ",
            usize_to_string(ins.enrichment_rules).as_str(),
            " event enrichment rules injecting device state into events\n",
        );
    }
    let ghost o1 = out@;
    if ins.total_event_types > 0 {
        push3(
            out,
            "  ",
            usize_to_string(ins.total_event_types).as_str(),
            " total event types defined (the full surveillance catalog)\n",
        );
    }
    let ghost o2 = out@;
    if ins.budget_disabled.len() > 0 {
        push3(
            out,
            "  ",
            usize_to_string(ins.budget_disabled.len()).as_str(),
            " transforms hit their data budget cap and were throttled\n",
        );
    }
    assert(out@ =~= o0 + config_counter_lines(*ins));
}

/// Format the surveillance counters section.
pub fn format_counters_section(out: &mut String, ins: &Insights)
    ensures
        final(out)@ == old(out)@ + counters_text(*ins),
{
    let ghost o0 = out@;
    push_str(out, "\n");
    push_str(out, "--- Surveillance Counters ---\n");
    push_device_counters(out, ins);
    push_config_counters(out, ins);
    let ghost o1 = out@;
    if ins.behavioral_domains.len() > 0 {
        push_str(out, "  Behavioral feedback loops: ");
        push_joined(out, &ins.behavioral_domains, ", ");
        push_str(out, "\n");
    }
    assert(out@ =~= o1 + feedback_line(*ins));
    assert(out@ =~= o0 + counters_text(*ins));
}

/// The label of a data sink.
pub open spec fn sink_label(name: Seq<char>) -> Seq<char> {
    if name == "Daily"@ {
        "Daily (submitted to Apple every day)"@
    } else if name == "Never"@ {
        "Never (local only / feeds other transforms)"@
    } else if name == "90Day"@ {
        "90Day (quarterly submission to Apple)"@
    } else if name == "da2"@ {
        "da2 (secondary Apple pipeline)"@
    } else {
        name
    }
}

/// The data sinks section.
pub open spec fn sinks_text(ins: Insights) -> Seq<char> {
    if ins.data_sinks@.len() == 0 {
        Seq::empty()
    } else {
        "\n--- Where Your Data Goes ---\n"@ + concat(
            ins.data_sinks@.map_values(
                |s: SinkInfo| "  "@ + decimal(s.transform_count as int) + " transforms -> "@ + sink_label(s.name@) + "\n"@,
            ),
        )
    }
}

/// The label of a data sink.
fn sink_label_of(name: &str) -> (r: &str)
    ensures
        r@ == sink_label(name@),
{
    if str_eq(name, "Daily") {
        "Daily (submitted to Apple every day)"
    } else if str_eq(name, "Never") {
        "Never (local only / feeds other transforms)"
    } else if str_eq(name, "90Day") {
        "90Day (quarterly submission to Apple)"
    } else if str_eq(name, "da2") {
        "da2 (secondary Apple pipeline)"
    } else {
        name
    }
}

/// Format the data sinks section.
pub fn format_sinks_section(out: &mut String, ins: &Insights)
    ensures
        final(out)@ == old(out)@ + sinks_text(*ins),
{
    proof {
        reveal_strlit("\n--- Where Your Data Goes ---\n");
        reveal_strlit("  ");
        reveal_strlit(" transforms -> ");
        reveal_strlit("\n");
    }
    if ins.data_sinks.len() == 0 {
        return;
    }
    let ghost lines = ins.data_sinks@.map_values(
        |s: SinkInfo| "  "@ + decimal(s.transform_count as int) + " transforms -> "@ + sink_label(s.name@) + "\n"@,
    );
    let ghost o0 = out@;
    push_str(out, "\n--- Where Your Data Goes ---\n");
    let ghost o1 = out@;
    let mut i: usize = 0;
    while i < ins.data_sinks.len()
        invariant
            i <= ins.data_sinks.len(),
            lines == ins.data_sinks@.map_values(
                |s: SinkInfo| "  "@ + decimal(s.transform_count as int) + " transforms -> "@ + sink_label(s.name@) + "\n"@,
            ),
            out@ == o1 + concat(lines.subrange(0, i as int)),
        decreases ins.data_sinks.len() - i,
    {
        proof {
            lemma_concat_push(lines.subrange(0, i as int), lines[i as int]);
            assert(lines.subrange(0, i + 1) =~= lines.subrange(0, i as int).push(lines[i as int]));
        }
        let s = &ins.data_sinks[i];
        push_str(out, "  ");
        push_str(out, usize_to_string(s.transform_count).as_str());
        push_str(out, " transforms -> ");
        push_str(out, sink_label_of(s.name.as_str()));
        push_str(out, "\n");
        i = i + 1;
    }
    assert(lines.subrange(0, i as int) =~= lines);
    assert(out@ =~= o0 + sinks_text(*ins));
}

/// The sampling section.
pub open spec fn sampling_text(ins: Insights) -> Seq<char> {
    let s = ins.sampling;
    if s.collecting == 0 && s.sampled_out == 0 {
        Seq::empty()
    } else {
        "\n--- Sampling (your device's lottery) ---\n"@ + "  "@ + decimal(s.collecting as int)
            + " transforms actively collecting on YOUR device\n"@ + "  "@ + decimal(s.sampled_out as int)
            + " transforms you were sampled OUT of (not collecting)\n"@ + "  "@ + decimal(s.unsampled as int)
            + " transforms with no sampling (always collected)\n"@
    }
}

/// Format the sampling section.
pub fn format_sampling_section(out: &mut String, ins: &Insights)
    ensures
        final(out)@ == old(out)@ + sampling_text(*ins),
{
    proof {
        reveal_strlit("\n--- Sampling (your device's lottery) ---\n");
        reveal_strlit("  ");
        reveal_strlit(" transforms actively collecting on YOUR device\n");
        reveal_strlit(" transforms you were sampled OUT of (not collecting)\n");
        reveal_strlit(" transforms with no sampling (always collected)\n");
    }
    let s = ins.sampling;
    if s.collecting == 0 && s.sampled_out == 0 {
        return;
    }
    let ghost o0 = out@;
    push_str(out, "\n--- Sampling (your device's lottery) ---\n");
    push_str(out, "  ");
    push_str(out, usize_to_string(s.collecting).as_str());
    push_str(out, " transforms actively collecting on YOUR device\n");
    push_str(out, "  ");
    push_str(out, usize_to_string(s.sampled_out).as_str());
    push_str(out, " transforms you were sampled OUT of (not collecting)\n");
    push_str(out, "  ");
    push_str(out, usize_to_string(s.unsampled).as_str());
    push_str(out, " transforms with no sampling (always collected)\n");
    assert(out@ =~= o0 + sampling_text(*ins));
}


/// The WiFi generation of a radio technology code, if known.
pub open spec fn wifi_name(code: Seq<char>) -> Option<Seq<char>> {
    if code == "11B"@ {
        Some("WiFi 1"@)
    } else if code == "11A"@ {
        Some("WiFi 2"@)
    } else if code == "11G"@ {
        Some("WiFi 3"@)
    } else if code == "11N"@ {
        Some("WiFi 4"@)
    } else if code == "11AC"@ {
        Some("WiFi 5"@)
    } else if code == "11AX"@ {
        Some("WiFi 6"@)
    } else if code == "11BE"@ {
        Some("WiFi 7"@)
    } else {
        None
    }
}

/// A radio technology code with its WiFi generation, e.g. "11AX (WiFi 6)".
pub open spec fn wifi_label_text(code: Seq<char>) -> Seq<char> {
    match wifi_name(code) {
        Some(n) => code + " ("@ + n + ")"@,
        None => code,
    }
}

/// Map WiFi radio tech codes to human-readable labels.
pub fn wifi_label(code: &str) -> (r: String)
    ensures
        r@ == wifi_label_text(code@),
{
    let name = if str_eq(code, "11B") {
        "WiFi 1"
    } else if str_eq(code, "11A") {
        "WiFi 2"
    } else if str_eq(code, "11G") {
        "WiFi 3"
    } else if str_eq(code, "11N") {
        "WiFi 4"
    } else if str_eq(code, "11AC") {
        "WiFi 5"
    } else if str_eq(code, "11AX") {
        "WiFi 6"
    } else if str_eq(code, "11BE") {
        "WiFi 7"
    } else {
        return string_of(code);
    };
    let mut out = string_of(code);
    push3(&mut out, " (", name, ")");
    out
}

/// A labeled line when the value is set.
pub open spec fn value_line(label: Seq<char>, v: Seq<char>) -> Seq<char> {
    line_if(v.len() > 0, label + v + "\n"@)
}

/// The identity lines of the machine section.
pub open spec fn identity_lines(d: DeviceInsight) -> Seq<char> {
    line_if(
        d.platform@.len() > 0 || d.os_version@.len() > 0,
        "  Platform: "@ + (if d.platform@.len() == 0 {
            "unknown"@
        } else {
            d.platform@
        }) + (if d.os_version@.len() == 0 {
            Seq::empty()
        } else {
            " "@ + d.os_version@
        }) + "\n"@,
    ) + line_if(d.model_hash@.len() > 0, "  Model ID: "@ + d.model_hash@ + " (opaque hash)\n"@) + value_line(
        "  Safari: "@,
        d.safari_version@,
    )
}

/// The state lines of the machine section.
pub open spec fn state_lines(d: DeviceInsight) -> Seq<char> {
    line_if(d.wifi_radio@.len() > 0, "  WiFi: "@ + wifi_label_text(d.wifi_radio@) + "\n"@) + value_line(
        "  Network: "@,
        d.network_interface@,
    ) + value_line("  Thermal: "@, d.thermal_state@) + value_line("  Low Power Mode: "@, d.low_power_mode@)
        + value_line("  Apple Intelligence: locale="@, d.ai_locale@)
}

/// The queried state pairs, one per line.
pub open spec fn queried_lines(states: Seq<(Seq<char>, Seq<char>)>) -> Seq<char> {
    if states.len() == 0 {
        Seq::empty()
    } else {
        "  Queried states:\n"@ + concat(
            states.map_values(|kv: (Seq<char>, Seq<char>)| "    "@ + kv.0 + " = "@ + kv.1 + "\n"@),
        )
    }
}

/// The machine section: what Apple knows about the hardware.
pub open spec fn device_text(d: DeviceInsight, states: Seq<(Seq<char>, Seq<char>)>) -> Seq<char> {
    if d.platform@.len() == 0 && d.os_version@.len() == 0 && d.safari_version@.len() == 0 && d.wifi_radio@.len() == 0
        && d.network_interface@.len() == 0 && states.len() == 0 {
        Seq::empty()
    } else {
        "\n--- Your Machine ---\n"@ + identity_lines(d) + state_lines(d) + queried_lines(states)
    }
}

/// Append a labeled line when the value is set.
fn push_value_line(out: &mut String, label: &str, v: &String)
    ensures
        final(out)@ == old(out)@ + value_line(label@, v@),
{
    if !v.as_str().is_empty() {
        push3(out, label, v.as_str(), "\n");
    }
}

/// Append the identity lines.
fn push_identity_lines(out: &mut String, d: &DeviceInsight)
    ensures
        final(out)@ == old(out)@ + identity_lines(*d),
{
    let ghost o0 = out@;
    if !d.platform.as_str().is_empty() || !d.os_version.as_str().is_empty() {
        push_str(out, "  Platform: ");
        if d.platform.as_str().is_empty() {
            push_str(out, "unknown");
        } else {
            push_str(out, d.platform.as_str());
        }
        if !d.os_version.as_str().is_empty() {
            push_str(out, " ");
            push_str(out, d.os_version.as_str());
        }
        push_str(out, "\n");
    }
    let ghost o1 = out@;
    if !d.model_hash.as_str().is_empty() {
        push3(out, "  Model ID: ", d.model_hash.as_str(), " (opaque hash)\n");
    }
    push_value_line(out, "  Safari: ", &d.safari_version);
    assert(out@ =~= o0 + identity_lines(*d));
}

/// Append the state lines.
fn push_state_lines(out: &mut String, d: &DeviceInsight)
    ensures
        final(out)@ == old(out)@ + state_lines(*d),
{
    let ghost o0 = out@;
    if !d.wifi_radio.as_str().is_empty() {
        push3(out, "  WiFi: ", wifi_label(d.wifi_radio.as_str()).as_str(), "\n");
    }
    push_value_line(out, "  Network: ", &d.network_interface);
    push_value_line(out, "  Thermal: ", &d.thermal_state);
    push_value_line(out, "  Low Power Mode: ", &d.low_power_mode);
    push_value_line(out, "  Apple Intelligence: locale=", &d.ai_locale);
    assert(out@ =~= o0 + state_lines(*d));
}

/// Append the queried state lines.
fn push_queried_lines(out: &mut String, states: &Vec<(String, String)>)
    ensures
        final(out)@ == old(out)@ + queried_lines(states@.map_values(|p: (String, String)| (p.0@, p.1@))),
{
    let ghost sv = states@.map_values(|p: (String, String)| (p.0@, p.1@));
    if states.len() == 0 {
        return;
    }
    let ghost lines = sv.map_values(|kv: (Seq<char>, Seq<char>)| "    "@ + kv.0 + " = "@ + kv.1 + "\n"@);
    let ghost o0 = out@;
    push_str(out, "  Queried states:\n");
    let ghost o1 = out@;
    let mut i: usize = 0;
    while i < states.len()
        invariant
            i <= states.len(),
            sv == states@.map_values(|p: (String, String)| (p.0@, p.1@)),
            lines == sv.map_values(|kv: (Seq<char>, Seq<char>)| "    "@ + kv.0 + " = "@ + kv.1 + "\n"@),
            out@ == o1 + concat(lines.subrange(0, i as int)),
        decreases states.len() - i,
    {
        proof {
            lemma_concat_push(lines.subrange(0, i as int), lines[i as int]);
            assert(lines.subrange(0, i + 1) =~= lines.subrange(0, i as int).push(lines[i as int]));
        }
        push_str(out, "    ");
        push3(out, states[i].0.as_str(), " = ", states[i].1.as_str());
        push_str(out, "\n");
        i = i + 1;
    }
    assert(lines.subrange(0, i as int) =~= lines);
}

/// Format the machine section: what Apple knows about the hardware, and
/// the queried device states.
pub fn format_device_section(out: &mut String, ins: &Insights, states: &Vec<(String, String)>)
    ensures
        final(out)@ == old(out)@ + device_text(ins.device, states@.map_values(|p: (String, String)| (p.0@, p.1@))),
{
    let d = &ins.device;
    if d.platform.as_str().is_empty() && d.os_version.as_str().is_empty() && d.safari_version.as_str().is_empty()
        && d.wifi_radio.as_str().is_empty() && d.network_interface.as_str().is_empty() && states.len() == 0 {
        return;
    }
    let ghost o0 = out@;
    push_str(out, "\n--- Your Machine ---\n");
    push_identity_lines(out, d);
    push_state_lines(out, d);
    push_queried_lines(out, states);
    assert(out@ =~= o0 + device_text(ins.device, states@.map_values(|p: (String, String)| (p.0@, p.1@))));
}

/// One line per fingerprinted binary (at most ten).
pub open spec fn fingerprint_lines(bins: Seq<BinaryFingerprint>) -> Seq<char> {
    concat(
        first_n(bins, 10).map_values(
            |b: BinaryFingerprint| "  "@ + b.cdhash@ + "  "@ + crate::output::signing_text(b.signing_id@) + "\n"@,
        ),
    )
}

/// The binaries section.
pub open spec fn binaries_text(ins: Insights) -> Seq<char> {
    let n = ins.fingerprinted_binaries@.len();
    if ins.executables_measured == 0 && n == 0 {
        Seq::empty()
    } else {
        "\n--- Binaries Fingerprinted (CDHash) ---\n"@ + "  "@ + decimal(ins.executables_measured as int)
            + " executables measured\n"@ + (if n > 0 {
            "  "@ + decimal(n as int) + " unique binaries with cryptographic fingerprints:\n\n"@ + fingerprint_lines(
                ins.fingerprinted_binaries@,
            ) + line_if(n > 10, "  ... and "@ + decimal(n - 10) + " more\n"@)
        } else {
            Seq::empty()
        }) + "\n  Apple has a cryptographic inventory of every binary on your machine.\n"@
    }
}

/// Append the fingerprint lines.
fn push_fingerprints(out: &mut String, bins: &Vec<BinaryFingerprint>)
    ensures
        final(out)@ == old(out)@ + fingerprint_lines(bins@),
{
    let n: usize = if bins.len() < 10 { bins.len() } else { 10 };
    let ghost lines = first_n(bins@, 10).map_values(
        |b: BinaryFingerprint| "  "@ + b.cdhash@ + "  "@ + crate::output::signing_text(b.signing_id@) + "\n"@,
    );
    let ghost o0 = out@;
    let mut i: usize = 0;
    while i < n
        invariant
            i <= n,
            n == first_n(bins@, 10).len(),
            n <= bins@.len(),
            lines == first_n(bins@, 10).map_values(
                |b: BinaryFingerprint| "  "@ + b.cdhash@ + "  "@ + crate::output::signing_text(b.signing_id@) + "\n"@,
            ),
            out@ == o0 + concat(lines.subrange(0, i as int)),
        decreases n - i,
    {
        proof {
            lemma_concat_push(lines.subrange(0, i as int), lines[i as int]);
            assert(lines.subrange(0, i + 1) =~= lines.subrange(0, i as int).push(lines[i as int]));
            assert(first_n(bins@, 10)[i as int] == bins@[i as int]);
        }
        push3(out, "  ", bins[i].cdhash.as_str(), "  ");
        if bins[i].signing_id.as_str().is_empty() {
            push_str(out, "(unsigned)");
        } else {
            push_str(out, bins[i].signing_id.as_str());
        }
        push_str(out, "\n");
        proof {
            reveal_strlit("(unsigned)");
        }
        i = i + 1;
    }
    assert(lines.subrange(0, i as int) =~= lines);
}

/// Format the binaries fingerprinted section.
pub fn format_binaries_section(out: &mut String, ins: &Insights)
    ensures
        final(out)@ == old(out)@ + binaries_text(*ins),
{
    let n = ins.fingerprinted_binaries.len();
    if ins.executables_measured == 0 && n == 0 {
        return;
    }
    let ghost o0 = out@;
    push_str(out, "\n--- Binaries Fingerprinted (CDHash) ---\n");
    push3(out, "  ", usize_to_string(ins.executables_measured).as_str(), " executables measured\n");
    let ghost o1 = out@;
    if n > 0 {
        push3(out, "  ", usize_to_string(n).as_str(), " unique binaries with cryptographic fingerprints:\n\n");
        push_fingerprints(out, &ins.fingerprinted_binaries);
        if n > 10 {
            push3(out, "  ... and ", usize_to_string(n - 10).as_str(), " more\n");
        }
    }
    push_str(out, "\n  Apple has a cryptographic inventory of every binary on your machine.\n");
    assert(out@ =~= o0 + binaries_text(*ins));
}


/// What `str::to_lowercase` returns: the Unicode lowercase mapping of each
/// character.
pub uninterp spec fn lowercase(s: Seq<char>) -> Seq<char>;

/// `str::to_lowercase` (std); its result is named by `lowercase`.
#[verifier::external_body]
fn to_lower(s: &str) -> (r: String)
    ensures
        r@ == lowercase(s@),
{
    s.to_lowercase()
}

/// A model is an Espresso model by its name.
pub open spec fn is_espresso(name: Seq<char>) -> bool {
    crate::text::is_prefix("espresso:"@, name) || name == "espresso"@
}

/// The models whose name does (or does not) mark them as Espresso models.
pub open spec fn models_where(m: Seq<(Seq<char>, Seq<char>, Seq<char>)>, espresso: bool) -> Seq<
    (Seq<char>, Seq<char>, Seq<char>),
>
    decreases m.len(),
{
    if m.len() == 0 {
        Seq::empty()
    } else {
        let a = models_where(m.drop_last(), espresso);
        if is_espresso(m.last().0) == espresso {
            a.push(m.last())
        } else {
            a
        }
    }
}

/// Models by name, ignoring case.
pub struct ByLowerName;

impl Preorder<(Seq<char>, Seq<char>, Seq<char>)> for ByLowerName {
    open spec fn le(a: (Seq<char>, Seq<char>, Seq<char>), b: (Seq<char>, Seq<char>, Seq<char>)) -> bool {
        lex_le(lowercase(a.0), lowercase(b.0))
    }

    proof fn lemma_total(a: (Seq<char>, Seq<char>, Seq<char>), b: (Seq<char>, Seq<char>, Seq<char>)) {
        crate::sort::lemma_lex_total(lowercase(a.0), lowercase(b.0));
    }

    proof fn lemma_trans(
        a: (Seq<char>, Seq<char>, Seq<char>),
        b: (Seq<char>, Seq<char>, Seq<char>),
        c: (Seq<char>, Seq<char>, Seq<char>),
    ) {
        crate::sort::lemma_lex_trans(lowercase(a.0), lowercase(b.0), lowercase(c.0));
    }
}

/// Models by name.
pub struct ByName;

impl Preorder<(Seq<char>, Seq<char>, Seq<char>)> for ByName {
    open spec fn le(a: (Seq<char>, Seq<char>, Seq<char>), b: (Seq<char>, Seq<char>, Seq<char>)) -> bool {
        lex_le(a.0, b.0)
    }

    proof fn lemma_total(a: (Seq<char>, Seq<char>, Seq<char>), b: (Seq<char>, Seq<char>, Seq<char>)) {
        crate::sort::lemma_lex_total(a.0, b.0);
    }

    proof fn lemma_trans(
        a: (Seq<char>, Seq<char>, Seq<char>),
        b: (Seq<char>, Seq<char>, Seq<char>),
        c: (Seq<char>, Seq<char>, Seq<char>),
    ) {
        crate::sort::lemma_lex_trans(a.0, b.0, c.0);
    }
}

/// Model triples as plain values.
pub open spec fn triple_views(v: Seq<(String, String, String)>) -> Seq<(Seq<char>, Seq<char>, Seq<char>)> {
    v.map_values(|t: (String, String, String)| (t.0@, t.1@, t.2@))
}

/// Model triples by lowercased name.
pub struct TripleByLowerName;

impl Preorder<(String, String, String)> for TripleByLowerName {
    open spec fn le(a: (String, String, String), b: (String, String, String)) -> bool {
        lex_le(lowercase(a.0@), lowercase(b.0@))
    }

    proof fn lemma_total(a: (String, String, String), b: (String, String, String)) {
        crate::sort::lemma_lex_total(lowercase(a.0@), lowercase(b.0@));
    }

    proof fn lemma_trans(a: (String, String, String), b: (String, String, String), c: (String, String, String)) {
        crate::sort::lemma_lex_trans(lowercase(a.0@), lowercase(b.0@), lowercase(c.0@));
    }
}

impl Order<(String, String, String)> for TripleByLowerName {
    fn exec_le(a: &(String, String, String), b: &(String, String, String)) -> (r: bool) {
        let x = to_lower(a.0.as_str());
        let y = to_lower(b.0.as_str());
        str_le(x.as_str(), y.as_str())
    }
}

/// Model triples by name.
pub struct TripleByName;

impl Preorder<(String, String, String)> for TripleByName {
    open spec fn le(a: (String, String, String), b: (String, String, String)) -> bool {
        lex_le(a.0@, b.0@)
    }

    proof fn lemma_total(a: (String, String, String), b: (String, String, String)) {
        crate::sort::lemma_lex_total(a.0@, b.0@);
    }

    proof fn lemma_trans(a: (String, String, String), b: (String, String, String), c: (String, String, String)) {
        crate::sort::lemma_lex_trans(a.0@, b.0@, c.0@);
    }
}

impl Order<(String, String, String)> for TripleByName {
    fn exec_le(a: &(String, String, String), b: &(String, String, String)) -> (r: bool) {
        str_le(a.0.as_str(), b.0.as_str())
    }
}

/// The line of a named model: name, compute unit in brackets when known, bundle.
pub open spec fn model_line(m: (Seq<char>, Seq<char>, Seq<char>)) -> Seq<char> {
    "  "@ + m.0 + (if m.2.len() == 0 {
        Seq::empty()
    } else {
        " ["@ + m.2 + "]"@
    }) + " ("@ + m.1 + ")\n"@
}

/// The compute unit of a model, or "unknown".
pub open spec fn unit_of(m: (Seq<char>, Seq<char>, Seq<char>)) -> Seq<char> {
    if m.2.len() == 0 {
        "unknown"@
    } else {
        m.2
    }
}

/// The Espresso summary line: count, then models per compute unit.
pub open spec fn espresso_line(esp: Seq<(Seq<char>, Seq<char>, Seq<char>)>) -> Seq<char> {
    let counts = crate::summary::tally(esp.map_values(|m: (Seq<char>, Seq<char>, Seq<char>)| unit_of(m)));
    "  espresso ("@ + decimal(esp.len() as int) + ") "@ + join(
        counts.map_values(|c: (Seq<char>, nat)| c.0 + " \u{00d7}"@ + decimal(c.1 as int)),
        " \u{00b7} "@,
    ) + "\n"@
}

/// The ML models section: named models sorted by name ignoring case, then
/// the Espresso models counted per compute unit.
pub open spec fn ml_text(models: Seq<(Seq<char>, Seq<char>, Seq<char>)>) -> Seq<char> {
    if models.len() == 0 {
        Seq::empty()
    } else {
        let named = insertion_sort::<(Seq<char>, Seq<char>, Seq<char>), ByLowerName>(models_where(models, false));
        let esp = insertion_sort::<(Seq<char>, Seq<char>, Seq<char>), ByName>(models_where(models, true));
        "\n--- "@ + decimal(models.len() as int) + " ML Models Running On Your Data ---\n"@ + concat(
            named.map_values(|m: (Seq<char>, Seq<char>, Seq<char>)| model_line(m)),
        ) + (if esp.len() > 0 {
            espresso_line(esp)
        } else {
            Seq::empty()
        })
    }
}

/// Whether a model name marks an Espresso model.
fn espresso_name(name: &str) -> (r: bool)
    ensures
        r == is_espresso(name@),
{
    crate::text::starts_with(name, "espresso:") || str_eq(name, "espresso")
}

/// The models split into named and Espresso ones, as triples.
fn split_models(models: &Vec<MlModelInsight>) -> (r: (Vec<(String, String, String)>, Vec<(String, String, String)>))
    ensures
        triple_views(r.0@) == models_where(crate::extract::model_views(models@), false),
        triple_views(r.1@) == models_where(crate::extract::model_views(models@), true),
{
    let ghost mv = crate::extract::model_views(models@);
    let mut named: Vec<(String, String, String)> = Vec::new();
    let mut esp: Vec<(String, String, String)> = Vec::new();
    let mut i: usize = 0;
    while i < models.len()
        invariant
            i <= models.len(),
            mv == crate::extract::model_views(models@),
            triple_views(named@) == models_where(mv.subrange(0, i as int), false),
            triple_views(esp@) == models_where(mv.subrange(0, i as int), true),
        decreases models.len() - i,
    {
        assert(mv.subrange(0, i + 1).drop_last() =~= mv.subrange(0, i as int));
        assert(mv.subrange(0, i + 1).last() == mv[i as int]);
        let m = &models[i];
        let t = (m.name.clone(), m.bundle.clone(), m.compute_unit.clone());
        let ghost tv = (t.0@, t.1@, t.2@);
        if espresso_name(m.name.as_str()) {
            let ghost e0 = triple_views(esp@);
            esp.push(t);
            assert(triple_views(esp@) =~= e0.push(tv));
        } else {
            let ghost n0 = triple_views(named@);
            named.push(t);
            assert(triple_views(named@) =~= n0.push(tv));
        }
        i = i + 1;
    }
    assert(mv.subrange(0, i as int) =~= mv);
    (named, esp)
}

/// Keys with their counts, in order of first occurrence.
fn tally_strings(keys: &Vec<String>) -> (t: Vec<(String, usize)>)
    ensures
        crate::summary::event_count_views(t@) == crate::summary::tally(keys@.map_values(|s: String| s@)),
{
    let ghost kv = keys@.map_values(|s: String| s@);
    let mut t: Vec<(String, usize)> = Vec::new();
    let mut n: usize = 0;
    assert(crate::summary::event_count_views(t@) =~= Seq::<(Seq<char>, nat)>::empty());
    assert(kv.subrange(0, 0) =~= Seq::<Seq<char>>::empty());
    while n < keys.len()
        invariant
            n <= keys@.len(),
            kv == keys@.map_values(|s: String| s@),
            crate::summary::event_count_views(t@) == crate::summary::tally(kv.subrange(0, n as int)),
        decreases keys.len() - n,
    {
        let ghost pre = kv.subrange(0, n as int);
        assert(kv.subrange(0, n + 1).drop_last() =~= pre);
        assert(kv.subrange(0, n + 1).last() == keys@[n as int]@);
        proof {
            crate::summary::lemma_tally(pre);
        }
        let ghost tv = crate::summary::event_count_views(t@);
        let name = keys[n].as_str();
        let found = crate::summary::find_event(&t, name);
        if found.is_some() {
            let i = found.unwrap();
            assert(tv[i as int].0 == name@);
            assert((choose|j: int| 0 <= j < tv.len() && tv[j].0 == name@) == i as int) by {
                let j = choose|j: int| 0 <= j < tv.len() && tv[j].0 == name@;
                if j != i as int {
                    if j < i {
                        assert(tv[j].0 != tv[i as int].0);
                    } else {
                        assert(tv[i as int].0 != tv[j].0);
                    }
                }
            }
            let old_count = t[i].1;
            assert(old_count <= n);
            let key = t[i].0.clone();
            t.set(i, (key, old_count + 1));
            assert(crate::summary::event_count_views(t@) =~= tv.update(i as int, (name@, tv[i as int].1 + 1)));
        } else {
            assert(!exists|j: int| 0 <= j < tv.len() && tv[j].0 == name@) by {
                if exists|j: int| 0 <= j < tv.len() && tv[j].0 == name@ {
                    let j = choose|j: int| 0 <= j < tv.len() && tv[j].0 == name@;
                    assert(t@[j].0@ != name@);
                }
            }
            t.push((string_of(name), 1));
            assert(crate::summary::event_count_views(t@) =~= tv.push((name@, 1nat)));
        }
        n = n + 1;
    }
    assert(kv.subrange(0, n as int) =~= kv);
    t
}

/// Append the Espresso summary line.
fn push_espresso_line(out: &mut String, esp: &Vec<(String, String, String)>)
    ensures
        final(out)@ == old(out)@ + espresso_line(triple_views(esp@)),
{
    let ghost ev = triple_views(esp@);
    let mut units: Vec<String> = Vec::new();
    let mut i: usize = 0;
    while i < esp.len()
        invariant
            i <= esp.len(),
            ev == triple_views(esp@),
            units@.map_values(|s: String| s@) == ev.subrange(0, i as int).map_values(
                |m: (Seq<char>, Seq<char>, Seq<char>)| unit_of(m),
            ),
        decreases esp.len() - i,
    {
        let ghost u0 = units@.map_values(|s: String| s@);
        if esp[i].2.as_str().is_empty() {
            units.push(string_of("unknown"));
        } else {
            units.push(esp[i].2.clone());
        }
        assert(ev.subrange(0, i + 1) =~= ev.subrange(0, i as int).push(ev[i as int]));
        assert(units@.map_values(|s: String| s@) =~= u0.push(unit_of(ev[i as int])));
        i = i + 1;
    }
    assert(ev.subrange(0, i as int) =~= ev);
    let counts = tally_strings(&units);
    let ghost cv = crate::summary::event_count_views(counts@);
    let ghost parts = cv.map_values(|c: (Seq<char>, nat)| c.0 + " \u{00d7}"@ + decimal(c.1 as int));
    let ghost o0 = out@;
    push3(out, "  espresso (", usize_to_string(esp.len()).as_str(), ") ");
    let ghost o1 = out@;
    let mut k: usize = 0;
    while k < counts.len()
        invariant
            k <= counts.len(),
            cv == crate::summary::event_count_views(counts@),
            parts == cv.map_values(|c: (Seq<char>, nat)| c.0 + " \u{00d7}"@ + decimal(c.1 as int)),
            out@ == o1 + join(parts.subrange(0, k as int), " \u{00b7} "@),
        decreases counts.len() - k,
    {
        assert(parts.subrange(0, k + 1).drop_last() =~= parts.subrange(0, k as int));
        if k > 0 {
            push_str(out, " \u{00b7} ");
        }
        push3(out, counts[k].0.as_str(), " \u{00d7}", usize_to_string(counts[k].1).as_str());
        k = k + 1;
    }
    assert(parts.subrange(0, k as int) =~= parts);
    push_str(out, "\n");
    assert(out@ =~= o0 + espresso_line(ev));
}

/// Append the lines of the named models.
fn push_model_lines(out: &mut String, named: &Vec<(String, String, String)>)
    ensures
        final(out)@ == old(out)@ + concat(
            triple_views(named@).map_values(|m: (Seq<char>, Seq<char>, Seq<char>)| model_line(m)),
        ),
{
    let ghost lines = triple_views(named@).map_values(|m: (Seq<char>, Seq<char>, Seq<char>)| model_line(m));
    let ghost o0 = out@;
    let mut i: usize = 0;
    while i < named.len()
        invariant
            i <= named.len(),
            lines == triple_views(named@).map_values(|m: (Seq<char>, Seq<char>, Seq<char>)| model_line(m)),
            out@ == o0 + concat(lines.subrange(0, i as int)),
        decreases named.len() - i,
    {
        proof {
            lemma_concat_push(lines.subrange(0, i as int), lines[i as int]);
            assert(lines.subrange(0, i + 1) =~= lines.subrange(0, i as int).push(lines[i as int]));
        }
        let ghost before = out@;
        push_str(out, "  ");
        push_str(out, named[i].0.as_str());
        if !named[i].2.as_str().is_empty() {
            push3(out, " [", named[i].2.as_str(), "]");
        }
        push3(out, " (", named[i].1.as_str(), ")\n");
        assert(out@ =~= before + lines[i as int]);
        i = i + 1;
    }
    assert(lines.subrange(0, i as int) =~= lines);
}

/// Format the ML models section, grouped by type and sorted.
pub fn format_ml_section(out: &mut String, ins: &Insights)
    ensures
        final(out)@ == old(out)@ + ml_text(crate::extract::model_views(ins.ml_models@)),
{
    if ins.ml_models.len() == 0 {
        return;
    }
    let ghost mv = crate::extract::model_views(ins.ml_models@);
    let ghost o0 = out@;
    push3(out, "\n--- ", usize_to_string(ins.ml_models.len()).as_str(), " ML Models Running On Your Data ---\n");
    let (named, esp) = split_models(&ins.ml_models);
    let ghost n0 = named@;
    let ghost e0 = esp@;
    let named = sort_by_order::<(String, String, String), TripleByLowerName>(named);
    let esp = sort_by_order::<(String, String, String), TripleByName>(esp);
    proof {
        crate::sort::lemma_sort_map::<
            (String, String, String),
            (Seq<char>, Seq<char>, Seq<char>),
            TripleByLowerName,
            ByLowerName,
        >(n0, |t: (String, String, String)| (t.0@, t.1@, t.2@));
        crate::sort::lemma_sort_map::<(String, String, String), (Seq<char>, Seq<char>, Seq<char>), TripleByName, ByName>(
            e0,
            |t: (String, String, String)| (t.0@, t.1@, t.2@),
        );
    }
    push_model_lines(out, &named);
    let ghost o1 = out@;
    if esp.len() > 0 {
        push_espresso_line(out, &esp);
    }
    assert(out@ =~= o0 + ml_text(mv));
}


/// The display group of a prediction view name.
pub open spec fn group_of(name: Seq<char>) -> Seq<char> {
    if crate::text::is_prefix("ITD"@, name) || crate::text::is_prefix("SP"@, name) {
        "Index / Storage"@
    } else if contains(name, "Entity"@) || contains(name, "entity"@) || contains(name, "person"@) || contains(
        name,
        "Person"@,
    ) || contains(name, "loi"@) {
        "Entity Relevance"@
    } else if contains(name, "Interaction"@) || contains(name, "interaction"@) {
        "Interaction Tracking"@
    } else if contains(name, "Context"@) || contains(name, "context"@) {
        "Context Signals"@
    } else if contains(name, "siri"@) || contains(name, "Siri"@) {
        "Siri"@
    } else if contains(name, "Apps"@) || contains(name, "apps"@) {
        "App Usage"@
    } else {
        "Other"@
    }
}

/// The display position of a prediction group.
pub open spec fn group_rank(g: Seq<char>) -> nat {
    if g == "Context Signals"@ {
        0
    } else if g == "Entity Relevance"@ {
        1
    } else if g == "App Usage"@ {
        2
    } else if g == "Interaction Tracking"@ {
        3
    } else if g == "Siri"@ {
        4
    } else if g == "Index / Storage"@ {
        5
    } else if g == "Other"@ {
        6
    } else {
        7
    }
}

/// Categorize a prediction view name into a display group.
pub fn prediction_group(name: &str) -> (g: &'static str)
    ensures
        g@ == group_of(name@),
{
    if crate::text::starts_with(name, "ITD") || crate::text::starts_with(name, "SP") {
        "Index / Storage"
    } else if contains_str(name, "Entity") || contains_str(name, "entity") || contains_str(name, "person")
        || contains_str(name, "Person") || contains_str(name, "loi") {
        "Entity Relevance"
    } else if contains_str(name, "Interaction") || contains_str(name, "interaction") {
        "Interaction Tracking"
    } else if contains_str(name, "Context") || contains_str(name, "context") {
        "Context Signals"
    } else if contains_str(name, "siri") || contains_str(name, "Siri") {
        "Siri"
    } else if contains_str(name, "Apps") || contains_str(name, "apps") {
        "App Usage"
    } else {
        "Other"
    }
}

/// The display position of a group.
fn rank_of(g: &str) -> (r: u8)
    ensures
        r == group_rank(g@),
{
    if str_eq(g, "Context Signals") {
        0
    } else if str_eq(g, "Entity Relevance") {
        1
    } else if str_eq(g, "App Usage") {
        2
    } else if str_eq(g, "Interaction Tracking") {
        3
    } else if str_eq(g, "Siri") {
        4
    } else if str_eq(g, "Index / Storage") {
        5
    } else if str_eq(g, "Other") {
        6
    } else {
        7
    }
}

/// Predictions by group position, then by name ignoring case.
pub struct ByGroup;

impl Preorder<Seq<char>> for ByGroup {
    open spec fn le(a: Seq<char>, b: Seq<char>) -> bool {
        group_rank(group_of(a)) < group_rank(group_of(b)) || (group_rank(group_of(a)) == group_rank(group_of(b))
            && lex_le(lowercase(a), lowercase(b)))
    }

    proof fn lemma_total(a: Seq<char>, b: Seq<char>) {
        crate::sort::lemma_lex_total(lowercase(a), lowercase(b));
    }

    proof fn lemma_trans(a: Seq<char>, b: Seq<char>, c: Seq<char>) {
        if group_rank(group_of(a)) == group_rank(group_of(b)) && group_rank(group_of(b)) == group_rank(group_of(c)) {
            crate::sort::lemma_lex_trans(lowercase(a), lowercase(b), lowercase(c));
        }
    }
}

impl Preorder<String> for ByGroup {
    open spec fn le(a: String, b: String) -> bool {
        <ByGroup as Preorder<Seq<char>>>::le(a@, b@)
    }

    proof fn lemma_total(a: String, b: String) {
        <ByGroup as Preorder<Seq<char>>>::lemma_total(a@, b@);
    }

    proof fn lemma_trans(a: String, b: String, c: String) {
        <ByGroup as Preorder<Seq<char>>>::lemma_trans(a@, b@, c@);
    }
}

impl Order<String> for ByGroup {
    fn exec_le(a: &String, b: &String) -> (r: bool) {
        let ra = rank_of(prediction_group(a.as_str()));
        let rb = rank_of(prediction_group(b.as_str()));
        if ra != rb {
            ra < rb
        } else {
            let x = to_lower(a.as_str());
            let y = to_lower(b.as_str());
            str_le(x.as_str(), y.as_str())
        }
    }
}

/// Items gathered per group, groups in order of first appearance.
pub open spec fn group_items(items: Seq<Seq<char>>) -> Seq<(Seq<char>, Seq<Seq<char>>)>
    decreases items.len(),
{
    if items.len() == 0 {
        Seq::empty()
    } else {
        let gs = group_items(items.drop_last());
        let v = items.last();
        let g = group_of(v);
        if exists|i: int| 0 <= i < gs.len() && gs[i].0 == g {
            let i = choose|i: int| 0 <= i < gs.len() && gs[i].0 == g;
            gs.update(i, (g, gs[i].1.push(v)))
        } else {
            gs.push((g, seq![v]))
        }
    }
}

/// Groups are listed once each.
proof fn lemma_group_items(items: Seq<Seq<char>>)
    ensures
        forall|i: int, j: int|
            0 <= i < j < group_items(items).len() ==> group_items(items)[i].0 != group_items(items)[j].0,
    decreases items.len(),
{
    if items.len() > 0 {
        lemma_group_items(items.drop_last());
        let gs = group_items(items.drop_last());
        let g = group_of(items.last());
        let u = group_items(items);
        if exists|i: int| 0 <= i < gs.len() && gs[i].0 == g {
            assert forall|a: int, b: int| 0 <= a < b < u.len() implies u[a].0 != u[b].0 by {
                assert(u[a].0 == gs[a].0 && u[b].0 == gs[b].0);
            }
        } else {
            assert forall|a: int, b: int| 0 <= a < b < u.len() implies u[a].0 != u[b].0 by {
                if b == u.len() - 1 {
                    assert(gs[a].0 != g);
                }
            }
        }
    }
}

/// The predictions section: view names sorted by group and name, one line
/// per group.
pub open spec fn predictions_text(views: Seq<Seq<char>>) -> Seq<char> {
    if views.len() == 0 {
        Seq::empty()
    } else {
        let groups = group_items(insertion_sort::<Seq<char>, ByGroup>(views));
        "\n--- "@ + decimal(views.len() as int) + " Behavioral Predictions Generated ---\n"@ + concat(
            groups.map_values(|g: (Seq<char>, Seq<Seq<char>>)| "  ["@ + g.0 + "] "@ + join(g.1, ", "@) + "\n"@),
        )
    }
}

/// Group entries as plain values.
pub open spec fn group_views(v: Seq<(String, Vec<String>)>) -> Seq<(Seq<char>, Seq<Seq<char>>)> {
    v.map_values(|g: (String, Vec<String>)| (g.0@, g.1@.map_values(|s: String| s@)))
}

/// Position of the group's entry.
fn find_group(groups: &Vec<(String, Vec<String>)>, g: &str) -> (r: Option<usize>)
    ensures
        match r {
            Some(i) => i < groups@.len() && groups@[i as int].0@ == g@,
            None => forall|k: int| 0 <= k < groups@.len() ==> groups@[k].0@ != g@,
        },
{
    let mut i: usize = 0;
    while i < groups.len()
        invariant
            i <= groups.len(),
            forall|k: int| 0 <= k < i ==> groups@[k].0@ != g@,
        decreases groups.len() - i,
    {
        if str_eq(groups[i].0.as_str(), g) {
            return Some(i);
        }
        i = i + 1;
    }
    None
}

/// Gather items per group.
fn gather_groups(items: &Vec<String>) -> (r: Vec<(String, Vec<String>)>)
    ensures
        group_views(r@) == group_items(items@.map_values(|s: String| s@)),
{
    let ghost iv = items@.map_values(|s: String| s@);
    let mut groups: Vec<(String, Vec<String>)> = Vec::new();
    let mut n: usize = 0;
    assert(group_views(groups@) =~= Seq::<(Seq<char>, Seq<Seq<char>>)>::empty());
    assert(iv.subrange(0, 0) =~= Seq::<Seq<char>>::empty());
    while n < items.len()
        invariant
            n <= items.len(),
            iv == items@.map_values(|s: String| s@),
            group_views(groups@) == group_items(iv.subrange(0, n as int)),
        decreases items.len() - n,
    {
        let ghost pre = iv.subrange(0, n as int);
        assert(iv.subrange(0, n + 1).drop_last() =~= pre);
        assert(iv.subrange(0, n + 1).last() == items@[n as int]@);
        proof {
            lemma_group_items(pre);
        }
        let ghost gv = group_views(groups@);
        let v = items[n].as_str();
        let g = prediction_group(v);
        match find_group(&groups, g) {
            Some(i) => {
                assert(gv[i as int].0 == g@);
                assert((choose|j: int| 0 <= j < gv.len() && gv[j].0 == g@) == i as int) by {
                    let j = choose|j: int| 0 <= j < gv.len() && gv[j].0 == g@;
                    if j != i as int {
                        if j < i {
                            assert(gv[j].0 != gv[i as int].0);
                        } else {
                            assert(gv[i as int].0 != gv[j].0);
                        }
                    }
                }
                let ghost before = groups@;
                let ghost l0 = groups@[i as int].1@.map_values(|s: String| s@);
                groups[i].1.push(string_of(v));
                assert(groups@[i as int].1@.map_values(|s: String| s@) =~= l0.push(v@));
                assert(group_views(groups@) =~= gv.update(i as int, (g@, gv[i as int].1.push(v@)))) by {
                    assert forall|k: int| 0 <= k < groups@.len() && k != i implies groups@[k] == before[k] by {}
                }
            },
            None => {
                assert(!exists|j: int| 0 <= j < gv.len() && gv[j].0 == g@) by {
                    if exists|j: int| 0 <= j < gv.len() && gv[j].0 == g@ {
                        let j = choose|j: int| 0 <= j < gv.len() && gv[j].0 == g@;
                        assert(groups@[j].0@ != g@);
                    }
                }
                let mut list: Vec<String> = Vec::new();
                list.push(string_of(v));
                assert(list@.map_values(|s: String| s@) =~= seq![v@]);
                groups.push((string_of(g), list));
                assert(group_views(groups@) =~= gv.push((g@, seq![v@])));
            },
        }
        n = n + 1;
    }
    assert(iv.subrange(0, n as int) =~= iv);
    groups
}

/// Format the behavioral predictions section, grouped and sorted.
pub fn format_predictions_section(out: &mut String, ins: &Insights)
    ensures
        final(out)@ == old(out)@ + predictions_text(ins.intelligence_views@.map_values(|s: String| s@)),
{
    if ins.intelligence_views.len() == 0 {
        return;
    }
    let ghost vv = ins.intelligence_views@.map_values(|s: String| s@);
    let ghost o0 = out@;
    push3(
        out,
        "\n--- ",
        usize_to_string(ins.intelligence_views.len()).as_str(),
        " Behavioral Predictions Generated ---\n",
    );
    let mut copy: Vec<String> = Vec::new();
    let mut i: usize = 0;
    while i < ins.intelligence_views.len()
        invariant
            i <= ins.intelligence_views.len(),
            copy@ == ins.intelligence_views@.subrange(0, i as int),
        decreases ins.intelligence_views.len() - i,
    {
        copy.push(ins.intelligence_views[i].clone());
        assert(copy@ =~= ins.intelligence_views@.subrange(0, i + 1));
        i = i + 1;
    }
    assert(copy@ =~= ins.intelligence_views@);
    let ghost c0 = copy@;
    let sorted = sort_by_order::<String, ByGroup>(copy);
    proof {
        crate::sort::lemma_sort_map::<String, Seq<char>, ByGroup, ByGroup>(c0, |s: String| s@);
    }
    let groups = gather_groups(&sorted);
    let ghost gv = group_views(groups@);
    let ghost lines = gv.map_values(
        |g: (Seq<char>, Seq<Seq<char>>)| "  ["@ + g.0 + "] "@ + join(g.1, ", "@) + "\n"@,
    );
    let ghost o1 = out@;
    let mut k: usize = 0;
    while k < groups.len()
        invariant
            k <= groups.len(),
            gv == group_views(groups@),
            lines == gv.map_values(|g: (Seq<char>, Seq<Seq<char>>)| "  ["@ + g.0 + "] "@ + join(g.1, ", "@) + "\n"@),
            out@ == o1 + concat(lines.subrange(0, k as int)),
        decreases groups.len() - k,
    {
        proof {
            lemma_concat_push(lines.subrange(0, k as int), lines[k as int]);
            assert(lines.subrange(0, k + 1) =~= lines.subrange(0, k as int).push(lines[k as int]));
        }
        let ghost before = out@;
        push3(out, "  [", groups[k].0.as_str(), "] ");
        push_joined(out, &groups[k].1, ", ");
        push_str(out, "\n");
        assert(out@ =~= before + lines[k as int]);
        k = k + 1;
    }
    assert(lines.subrange(0, k as int) =~= lines);
    assert(out@ =~= o0 + predictions_text(vv));
}


/// The number of foreground apps.
pub open spec fn foreground_count(apps: Seq<AppInsight>) -> nat
    decreases apps.len(),
{
    if apps.len() == 0 {
        0
    } else {
        foreground_count(apps.drop_last()) + if apps.last().foreground {
            1nat
        } else {
            0nat
        }
    }
}

/// The table row of an app: name marked '*' when in the foreground.
pub open spec fn app_row(a: AppInsight) -> Seq<Seq<char>> {
    seq![
        (if a.foreground {
            "*"@
        } else {
            " "@
        }) + a.name@,
        a.version@,
        crate::output::duration_text(a.active_seconds),
        crate::output::duration_text(a.uptime_seconds),
        decimal(a.activations as int),
        decimal(a.launches as int),
        a.caps@,
    ]
}

/// The rows of the apps table: the column titles, then one row per app.
pub open spec fn app_rows(apps: Seq<AppInsight>) -> Seq<Seq<Seq<char>>> {
    seq![seq!["App"@, "Version"@, "Active"@, "Uptime"@, "Activations"@, "Launches"@, "Caps"@]] + apps.map_values(
        |a: AppInsight| app_row(a),
    )
}

/// The apps section: counts, the table, and the capability legend when any
/// app has capabilities.
pub open spec fn apps_text(apps: Seq<AppInsight>) -> Seq<char> {
    if apps.len() == 0 {
        Seq::empty()
    } else {
        let fg = foreground_count(apps);
        "--- Apps You Used ("@ + decimal(fg as int) + " foreground, "@ + decimal(apps.len() - fg)
            + " background) ---\n"@ + "  (* = foreground app)\n\n"@ + crate::output::rounded_table_no_index(
            7,
            app_rows(apps),
        ) + line_if(
            exists|i: int| 0 <= i < apps.len() && apps[i].caps@.len() > 0,
            "  C=clipboard K=keychain N=network S=security\n"@,
        ) + "\n"@
    }
}

/// Format the apps section with foreground/background distinction and
/// capability indicators.
pub fn format_apps_section(out: &mut String, ins: &Insights)
    ensures
        final(out)@ == old(out)@ + apps_text(ins.apps@),
{
    if ins.apps.len() == 0 {
        return;
    }
    let apps = &ins.apps;
    let mut fg: usize = 0;
    let mut has_caps = false;
    let mut rows: Vec<[String; 7]> = Vec::new();
    rows.push(
        [
            string_of("App"),
            string_of("Version"),
            string_of("Active"),
            string_of("Uptime"),
            string_of("Activations"),
            string_of("Launches"),
            string_of("Caps"),
        ],
    );
    let mut i: usize = 0;
    assert(crate::output::table_cells(rows@) =~~= app_rows(apps@.subrange(0, 0)));
    while i < apps.len()
        invariant
            i <= apps@.len(),
            fg == foreground_count(apps@.subrange(0, i as int)),
            fg <= i,
            has_caps == exists|k: int| 0 <= k < i && apps@[k].caps@.len() > 0,
            crate::output::table_cells(rows@) == app_rows(apps@.subrange(0, i as int)),
        decreases apps.len() - i,
    {
        let a = &apps[i];
        assert(apps@.subrange(0, i + 1).drop_last() =~= apps@.subrange(0, i as int));
        if a.foreground {
            fg = fg + 1;
        }
        if !a.caps.as_str().is_empty() {
            has_caps = true;
        }
        let mut name = string_of(if a.foreground { "*" } else { " " });
        push_str(&mut name, a.name.as_str());
        let row = [
            name,
            a.version.clone(),
            crate::output::format_duration(a.active_seconds),
            crate::output::format_duration(a.uptime_seconds),
            i64_to_string(a.activations),
            i64_to_string(a.launches),
            a.caps.clone(),
        ];
        assert(row@.map_values(|s: String| s@) =~= app_row(*a));
        let ghost before = crate::output::table_cells(rows@);
        rows.push(row);
        i = i + 1;
        assert(crate::output::table_cells(rows@) =~= before.push(app_row(*a)));
        assert(apps@.subrange(0, i as int) =~= apps@.subrange(0, i - 1).push(*a));
        assert(apps@.subrange(0, i as int).map_values(|a: AppInsight| app_row(a)) =~= apps@.subrange(0, i - 1).map_values(
            |a: AppInsight| app_row(a),
        ).push(app_row(*a)));
        assert(crate::output::table_cells(rows@) =~= app_rows(apps@.subrange(0, i as int)));
        assert(has_caps == exists|k: int| 0 <= k < i && apps@[k].caps@.len() > 0) by {
            if has_caps && !(exists|k: int| 0 <= k < i - 1 && apps@[k].caps@.len() > 0) {
                assert(apps@[i - 1].caps@.len() > 0);
            }
        }
    }
    assert(apps@.subrange(0, i as int) =~= apps@);
    let table = crate::output::render_table_no_index(rows);
    let ghost o0 = out@;
    push3(out, "--- Apps You Used (", usize_to_string(fg).as_str(), " foreground, ");
    push3(out, usize_to_string(apps.len() - fg).as_str(), " background) ---\n", "  (* = foreground app)\n\n");
    push_str(out, table.as_str());
    if has_caps {
        push_str(out, "  C=clipboard K=keychain N=network S=security\n");
    }
    push_str(out, "\n");
    assert(out@ =~= o0 + apps_text(apps@));
}


/// The report header: totals, collection periods, and records collected
/// despite analytics being disabled.
pub open spec fn header_text(sm: Summary) -> Seq<char> {
    "=== What Apple Knows About You ===\n\n"@ + decimal(sm.total_records as int)
        + " telemetry records collected this period\n"@ + (if sm.collection_periods@.len() > 0 {
        periods_text(sm.collection_periods@)
    } else {
        Seq::empty()
    }) + line_if(
        sm.opt_out_count > 0,
        decimal(sm.opt_out_count as int) + " records collected DESPITE analytics being disabled\n"@,
    ) + "\n"@
}

/// One line per named count.
pub open spec fn count_lines(v: Seq<(Seq<char>, usize)>) -> Seq<char> {
    concat(v.map_values(|c: (Seq<char>, usize)| "    "@ + c.0 + ": "@ + decimal(c.1 as int) + "\n"@))
}

/// Category counts with category names.
pub open spec fn named_category_counts(v: Seq<(Category, usize)>) -> Seq<(Seq<char>, usize)> {
    v.map_values(|c: (Category, usize)| (category_name(c.0), c.1))
}

/// The records section: totals, counts per category and the top events.
pub open spec fn records_text(sm: Summary) -> Seq<char> {
    "--- Records ---\n"@ + "  Total decoded records: "@ + decimal(sm.total_records as int) + "\n"@
        + "  OptOut records: "@ + decimal(sm.opt_out_count as int) + "\n"@ + "  Main records: "@ + decimal(
        sm.main_count as int,
    ) + "\n"@ + (if sm.category_counts@.len() > 0 {
        "  By category:\n"@ + count_lines(named_category_counts(sm.category_counts@))
    } else {
        Seq::empty()
    }) + (if sm.top_events@.len() > 0 {
        "  Top events:\n"@ + count_lines(crate::summary::pair_views(sm.top_events@))
    } else {
        Seq::empty()
    }) + "\n"@
}

/// The whole summary report.
pub open spec fn summary_text(sm: Summary) -> Seq<char> {
    let ins = sm.insights;
    header_text(sm) + records_text(sm) + apps_text(ins.apps@) + binaries_text(ins) + ml_text(
        crate::extract::model_views(ins.ml_models@),
    ) + predictions_text(ins.intelligence_views@.map_values(|s: String| s@)) + device_text(
        ins.device,
        sm.queried_states@.map_values(|p: (String, String)| (p.0@, p.1@)),
    ) + counters_text(ins) + sinks_text(ins) + sampling_text(ins)
}

/// Append the report header.
fn push_header(out: &mut String, sm: &Summary)
    ensures
        final(out)@ == old(out)@ + header_text(*sm),
{
    let ghost o0 = out@;
    push_str(out, "=== What Apple Knows About You ===\n\n");
    push_str(out, usize_to_string(sm.total_records).as_str());
    push_str(out, " telemetry records collected this period\n");
    let ghost o1 = out@;
    if sm.collection_periods.len() > 0 {
        format_periods_inline(out, &sm.collection_periods);
    }
    let ghost o2 = out@;
    if sm.opt_out_count > 0 {
        push_str(out, usize_to_string(sm.opt_out_count).as_str());
        push_str(out, " records collected DESPITE analytics being disabled\n");
    }
    push_str(out, "\n");
    assert(out@ =~= o0 + header_text(*sm));
}

/// Append one line per category count.
fn push_category_lines(out: &mut String, v: &Vec<(Category, usize)>)
    ensures
        final(out)@ == old(out)@ + count_lines(named_category_counts(v@)),
{
    let ghost lines = named_category_counts(v@).map_values(
        |c: (Seq<char>, usize)| "    "@ + c.0 + ": "@ + decimal(c.1 as int) + "\n"@,
    );
    let ghost o0 = out@;
    let mut i: usize = 0;
    while i < v.len()
        invariant
            i <= v.len(),
            lines == named_category_counts(v@).map_values(
                |c: (Seq<char>, usize)| "    "@ + c.0 + ": "@ + decimal(c.1 as int) + "\n"@,
            ),
            out@ == o0 + concat(lines.subrange(0, i as int)),
        decreases v.len() - i,
    {
        proof {
            lemma_concat_push(lines.subrange(0, i as int), lines[i as int]);
            assert(lines.subrange(0, i + 1) =~= lines.subrange(0, i as int).push(lines[i as int]));
        }
        let ghost before = out@;
        push3(out, "    ", v[i].0.to_string().as_str(), ": ");
        push_str(out, usize_to_string(v[i].1).as_str());
        push_str(out, "\n");
        assert(out@ =~= before + lines[i as int]);
        i = i + 1;
    }
    assert(lines.subrange(0, i as int) =~= lines);
}

/// Append one line per named count.
fn push_count_lines(out: &mut String, v: &Vec<(String, usize)>)
    ensures
        final(out)@ == old(out)@ + count_lines(crate::summary::pair_views(v@)),
{
    let ghost lines = crate::summary::pair_views(v@).map_values(
        |c: (Seq<char>, usize)| "    "@ + c.0 + ": "@ + decimal(c.1 as int) + "\n"@,
    );
    let ghost o0 = out@;
    let mut i: usize = 0;
    while i < v.len()
        invariant
            i <= v.len(),
            lines == crate::summary::pair_views(v@).map_values(
                |c: (Seq<char>, usize)| "    "@ + c.0 + ": "@ + decimal(c.1 as int) + "\n"@,
            ),
            out@ == o0 + concat(lines.subrange(0, i as int)),
        decreases v.len() - i,
    {
        proof {
            lemma_concat_push(lines.subrange(0, i as int), lines[i as int]);
            assert(lines.subrange(0, i + 1) =~= lines.subrange(0, i as int).push(lines[i as int]));
        }
        let ghost before = out@;
        push3(out, "    ", v[i].0.as_str(), ": ");
        push_str(out, usize_to_string(v[i].1).as_str());
        push_str(out, "\n");
        assert(out@ =~= before + lines[i as int]);
        i = i + 1;
    }
    assert(lines.subrange(0, i as int) =~= lines);
}

/// Append the records section.
#[verifier::rlimit(40)]
fn push_records(out: &mut String, sm: &Summary)
    ensures
        final(out)@ == old(out)@ + records_text(*sm),
{
    let ghost o0 = out@;
    push_str(out, "--- Records ---\n");
    push3(out, "  Total decoded records: ", usize_to_string(sm.total_records).as_str(), "\n");
    push3(out, "  OptOut records: ", usize_to_string(sm.opt_out_count).as_str(), "\n");
    push3(out, "  Main records: ", usize_to_string(sm.main_count).as_str(), "\n");
    let ghost o1 = out@;
    if sm.category_counts.len() > 0 {
        push_str(out, "  By category:\n");
        push_category_lines(out, &sm.category_counts);
    }
    let ghost o2 = out@;
    if sm.top_events.len() > 0 {
        push_str(out, "  Top events:\n");
        push_count_lines(out, &sm.top_events);
    }
    push_str(out, "\n");
    assert(out@ =~= o0 + records_text(*sm));
}

/// Format a summary as a human-readable report.
pub fn format_summary(summary: &Summary) -> (r: String)
    ensures
        r@ == summary_text(*summary),
{
    let ins = &summary.insights;
    let mut out = String::new();
    push_header(&mut out, summary);
    push_records(&mut out, summary);
    format_apps_section(&mut out, ins);
    format_binaries_section(&mut out, ins);
    format_ml_section(&mut out, ins);
    format_predictions_section(&mut out, ins);
    format_device_section(&mut out, ins, &summary.queried_states);
    format_counters_section(&mut out, ins);
    format_sinks_section(&mut out, ins);
    format_sampling_section(&mut out, ins);
    assert(out@ =~= summary_text(*summary));
    out
}

} // verus!
