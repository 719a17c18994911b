//! Output formatting for terminal tables and reports.
use crate::category::{category_name, Category};
use crate::json::{decimal, display_text, format_value, i64_to_string, u64_to_string, usize_to_string, JsonValue};
use crate::schema::{AppProfile, DecodedRecord, EventInfo};
use crate::text::{push_char, push_str, string_of};
use vstd::prelude::*;

pub use crate::output_summary::format_summary;

verus! {

broadcast use vstd::string::group_string_axioms;

/// The text of a table in tabled's rounded style, built with `Table::new`
/// from rows of `width` cells (tabled puts a header row of the column
/// indices first).
pub uninterp spec fn rounded_table(width: nat, rows: Seq<Seq<Seq<char>>>) -> Seq<char>;

/// The text of such a table whose first row (the column indices) has been
/// removed before styling.
pub uninterp spec fn rounded_table_no_index(width: nat, rows: Seq<Seq<Seq<char>>>) -> Seq<char>;

/// The cells of table rows, as plain text.
pub open spec fn table_cells<const N: usize>(rows: Seq<[String; N]>) -> Seq<Seq<Seq<char>>> {
    rows.map_values(|r: [String; N]| r@.map_values(|s: String| s@))
}

/// `tabled::Table::new(rows).with(Style::rounded()).to_string()`: the
/// result is named by `rounded_table` of the width and the cell texts.
#[verifier::external_body]
fn render_table<const N: usize>(rows: Vec<[String; N]>) -> (t: String)
    ensures
        t@ == rounded_table(N as nat, table_cells(rows@)),
{
    tabled::Table::new(rows).with(tabled::settings::Style::rounded()).to_string()
}

/// `tabled::Table::new(rows).with(Remove::row(Rows::first())).with(Style::rounded()).to_string()`:
/// the result is named by `rounded_table_no_index` of the width and the cell texts.
#[verifier::external_body]
pub(crate) fn render_table_no_index<const N: usize>(rows: Vec<[String; N]>) -> (t: String)
    ensures
        t@ == rounded_table_no_index(N as nat, table_cells(rows@)),
{
    tabled::Table::new(rows)
        .with(tabled::settings::Remove::row(tabled::settings::object::Rows::first()))
        .with(tabled::settings::Style::rounded())
        .to_string()
}

/// A duration in seconds as text: "0s" when not positive, else hours and
/// minutes, minutes and seconds, or seconds.
pub open spec fn duration_text(secs: i64) -> Seq<char> {
    if secs <= 0 {
        "0s"@
    } else {
        let h = secs / 3600;
        let m = (secs % 3600) / 60;
        let s = secs % 60;
        if h > 0 {
            decimal(h as int) + "h "@ + decimal(m as int) + "m"@
        } else if m > 0 {
            decimal(m as int) + "m "@ + decimal(s as int) + "s"@
        } else {
            decimal(s as int) + "s"@
        }
    }
}

/// Format seconds into a human-readable duration.
pub fn format_duration(secs: i64) -> (r: String)
    ensures
        r@ == duration_text(secs),
{
    proof {
        reveal_strlit("0s");
        reveal_strlit("h ");
        reveal_strlit("m");
        reveal_strlit("m ");
        reveal_strlit("s");
    }
    if secs <= 0 {
        return string_of("0s");
    }
    let h = secs / 3600;
    let m = (secs % 3600) / 60;
    let s = secs % 60;
    if h > 0 {
        let mut out = i64_to_string(h);
        push_str(&mut out, "h ");
        push_str(&mut out, i64_to_string(m).as_str());
        push_str(&mut out, "m");
        out
    } else if m > 0 {
        let mut out = i64_to_string(m);
        push_str(&mut out, "m ");
        push_str(&mut out, i64_to_string(s).as_str());
        push_str(&mut out, "s");
        out
    } else {
        let mut out = i64_to_string(s);
        push_str(&mut out, "s");
        out
    }
}

/// `name=value` for each field, joined by ", ", or "(empty)".
pub open spec fn fields_text(fields: Seq<(String, JsonValue)>) -> Seq<char> {
    if fields.len() == 0 {
        "(empty)"@
    } else {
        fields_join(fields)
    }
}

/// `name=value` for each field, joined by ", ".
pub open spec fn fields_join(fields: Seq<(String, JsonValue)>) -> Seq<char>
    decreases fields.len(),
{
    if fields.len() == 0 {
        Seq::empty()
    } else if fields.len() == 1 {
        fields[0].0@ + "="@ + display_text(fields[0].1)
    } else {
        fields_join(fields.drop_last()) + ", "@ + fields.last().0@ + "="@ + display_text(fields.last().1)
    }
}

/// Format labeled fields as a compact display string.
pub fn format_fields(fields: &Vec<(String, JsonValue)>) -> (r: String)
    ensures
        r@ == fields_text(fields@),
{
    proof {
        reveal_strlit("(empty)");
        reveal_strlit("=");
        reveal_strlit(", ");
    }
    if fields.len() == 0 {
        return string_of("(empty)");
    }
    let mut out = String::new();
    let mut i: usize = 0;
    while i < fields.len()
        invariant
            i <= fields.len(),
            out@ == fields_join(fields@.subrange(0, i as int)),
        decreases fields.len() - i,
    {
        assert(fields@.subrange(0, i + 1).drop_last() =~= fields@.subrange(0, i as int));
        if i > 0 {
            push_str(&mut out, ", ");
        }
        push_str(&mut out, fields[i].0.as_str());
        push_str(&mut out, "=");
        push_str(&mut out, format_value(&fields[i].1).as_str());
        i = i + 1;
        assert(fields@.subrange(0, i as int).last() == fields@[i - 1]);
    }
    assert(fields@.subrange(0, i as int) =~= fields@);
    out
}


/// The first event name of a record, or "(none)".
pub open spec fn event_or_none(r: DecodedRecord) -> Seq<char> {
    if r.event_names@.len() > 0 {
        r.event_names@[0]@
    } else {
        "(none)"@
    }
}

/// The row of a decoded record.
pub open spec fn decode_row(r: DecodedRecord) -> Seq<Seq<char>> {
    seq![category_name(r.category), event_or_none(r), r.transform_name@, r.config_type@, fields_text(r.fields@)]
}

/// The rows of the decode table: the header, then one row per record.
pub open spec fn decode_rows(records: Seq<DecodedRecord>) -> Seq<Seq<Seq<char>>> {
    seq![seq!["Category"@, "Event"@, "Transform"@, "Config"@, "Fields"@]] + records.map_values(
        |r: DecodedRecord| decode_row(r),
    )
}

/// The decode table has a header row and then one row per record, in order.
/// Under the header "Config" each row holds its record's config type; under
/// "Transform" its transform name; under "Category" its category's name;
/// under "Event" its first event name, or "(none)"; under "Fields" its
/// fields as `name=value` pairs.
pub proof fn lemma_decode_table_columns(records: Seq<DecodedRecord>)
    ensures
        decode_rows(records).len() == records.len() + 1,
        decode_rows(records)[0] == seq!["Category"@, "Event"@, "Transform"@, "Config"@, "Fields"@],
        forall|i: int, j: int|
            #![trigger decode_rows(records)[i + 1][j]]
            0 <= i < records.len() && 0 <= j < 5 ==> {
                &&& decode_rows(records)[i + 1].len() == 5
                &&& decode_rows(records)[0][j] == "Config"@ ==> decode_rows(records)[i + 1][j] == records[i].config_type@
                &&& decode_rows(records)[0][j] == "Transform"@ ==> decode_rows(records)[i + 1][j]
                    == records[i].transform_name@
                &&& decode_rows(records)[0][j] == "Category"@ ==> decode_rows(records)[i + 1][j] == category_name(
                    records[i].category,
                )
                &&& decode_rows(records)[0][j] == "Event"@ ==> decode_rows(records)[i + 1][j] == (if records[i].event_names@.len()
                    > 0 {
                    records[i].event_names@[0]@
                } else {
                    "(none)"@
                })
                &&& decode_rows(records)[0][j] == "Fields"@ ==> decode_rows(records)[i + 1][j] == fields_text(
                    records[i].fields@,
                )
            },
{
    reveal_strlit("Category");
    reveal_strlit("Event");
    reveal_strlit("Transform");
    reveal_strlit("Config");
    reveal_strlit("Fields");
    let h = seq!["Category"@, "Event"@, "Transform"@, "Config"@, "Fields"@];
    assert(h[0][1] != h[3][1]);
    assert(h[1][0] != h[3][0] && h[2][0] != h[3][0] && h[4][0] != h[3][0]);
    assert(h[0][1] != h[2][1] && h[1][0] != h[2][0] && h[4][0] != h[2][0]);
    assert(h[1][0] != h[0][0] && h[4][0] != h[0][0]);
    assert(h[4][0] != h[1][0]);
    assert forall|i: int, j: int| 0 <= i < records.len() && 0 <= j < 5 implies {
        &&& #[trigger] decode_rows(records)[i + 1][j] == decode_row(records[i])[j]
        &&& decode_rows(records)[i + 1].len() == 5
    } by {
        assert(decode_rows(records)[i + 1] == decode_row(records[i]));
    }
}

/// Format decoded records as a table, or say that there are none.
pub fn format_decode_table(records: &[DecodedRecord]) -> (t: String)
    ensures
        t@ == if records@.len() == 0 {
            "No records found."@
        } else {
            rounded_table(5, decode_rows(records@))
        },
{
    proof {
        reveal_strlit("No records found.");
        reveal_strlit("(none)");
    }
    if records.len() == 0 {
        return string_of("No records found.");
    }
    let mut rows: Vec<[String; 5]> = Vec::new();
    rows.push(
        [
            string_of("Category"),
            string_of("Event"),
            string_of("Transform"),
            string_of("Config"),
            string_of("Fields"),
        ],
    );
    let mut i: usize = 0;
    assert(table_cells(rows@) =~~= decode_rows(records@.subrange(0, 0)));
    while i < records.len()
        invariant
            i <= records@.len(),
            table_cells(rows@) == decode_rows(records@.subrange(0, i as int)),
        decreases records.len() - i,
    {
        let r = &records[i];
        let event = if r.event_names.len() > 0 {
            r.event_names[0].clone()
        } else {
            string_of("(none)")
        };
        let row = [r.category.to_string(), event, r.transform_name.clone(), r.config_type.clone(), format_fields(&r.fields)];
        let ghost before = table_cells(rows@);
        assert(row@.map_values(|s: String| s@) =~= decode_row(*r));
        rows.push(row);
        i = i + 1;
        assert(table_cells(rows@) =~= before.push(decode_row(*r)));
        assert(records@.subrange(0, i as int) =~= records@.subrange(0, i - 1).push(*r));
        assert(records@.subrange(0, i as int).map_values(|r: DecodedRecord| decode_row(r)) =~= records@.subrange(
            0,
            i - 1,
        ).map_values(|r: DecodedRecord| decode_row(r)).push(decode_row(*r)));
        assert(table_cells(rows@) =~= decode_rows(records@.subrange(0, i as int)));
    }
    assert(records@.subrange(0, i as int) =~= records@);
    render_table(rows)
}

/// The rows of the events table: the header, then one row per event.
pub open spec fn event_rows(events: Seq<EventInfo>) -> Seq<Seq<Seq<char>>> {
    seq![seq!["Event"@, "Category"@, "Transforms"@]] + events.map_values(
        |e: EventInfo| seq![e.event_name@, category_name(e.category), decimal(e.transform_count as int)],
    )
}

/// Format event info as a table, or say that there are none.
pub fn format_events_table(events: &[EventInfo]) -> (t: String)
    ensures
        t@ == if events@.len() == 0 {
            "No events found."@
        } else {
            rounded_table(3, event_rows(events@))
        },
{
    proof {
        reveal_strlit("No events found.");
    }
    if events.len() == 0 {
        return string_of("No events found.");
    }
    let mut rows: Vec<[String; 3]> = Vec::new();
    rows.push([string_of("Event"), string_of("Category"), string_of("Transforms")]);
    let mut i: usize = 0;
    assert(table_cells(rows@) =~~= event_rows(events@.subrange(0, 0)));
    while i < events.len()
        invariant
            i <= events@.len(),
            table_cells(rows@) == event_rows(events@.subrange(0, i as int)),
        decreases events.len() - i,
    {
        let e = &events[i];
        let row = [e.event_name.clone(), e.category.to_string(), u64_to_string(e.transform_count as u64)];
        assert(row@.map_values(|s: String| s@) =~= seq![
            e.event_name@,
            category_name(e.category),
            decimal(e.transform_count as int),
        ]);
        let ghost before = table_cells(rows@);
        let ghost er = seq![e.event_name@, category_name(e.category), decimal(e.transform_count as int)];
        rows.push(row);
        i = i + 1;
        assert(table_cells(rows@) =~= before.push(er));
        assert(events@.subrange(0, i as int) =~= events@.subrange(0, i - 1).push(*e));
        assert(events@.subrange(0, i as int).map_values(
            |e: EventInfo| seq![e.event_name@, category_name(e.category), decimal(e.transform_count as int)],
        ) =~= events@.subrange(0, i - 1).map_values(
            |e: EventInfo| seq![e.event_name@, category_name(e.category), decimal(e.transform_count as int)],
        ).push(er));
        assert(table_cells(rows@) =~= event_rows(events@.subrange(0, i as int)));
    }
    assert(events@.subrange(0, i as int) =~= events@);
    render_table(rows)
}


/// The pieces joined end to end.
pub open spec fn concat(s: Seq<Seq<char>>) -> Seq<char>
    decreases s.len(),
{
    if s.len() == 0 {
        Seq::empty()
    } else {
        concat(s.drop_last()) + s.last()
    }
}

/// The pieces joined with `sep` between them.
pub open spec fn join(s: Seq<Seq<char>>, sep: Seq<char>) -> Seq<char>
    decreases s.len(),
{
    if s.len() == 0 {
        Seq::empty()
    } else if s.len() == 1 {
        s[0]
    } else {
        join(s.drop_last(), sep) + sep + s.last()
    }
}

/// Joining a longer list.
pub proof fn lemma_concat_push(s: Seq<Seq<char>>, x: Seq<char>)
    ensures
        concat(s.push(x)) == concat(s) + x,
{
    assert(s.push(x).drop_last() =~= s);
}

/// The `Debug` text of a list of integers: "[1, 2, 3]".
pub open spec fn i64_list_text(v: Seq<i64>) -> Seq<char> {
    "["@ + join(v.map_values(|x: i64| decimal(x as int)), ", "@) + "]"@
}

/// Format a list of integers as `Debug` does.
fn format_i64_list(v: &Vec<i64>) -> (r: String)
    ensures
        r@ == i64_list_text(v@),
{
    proof {
        reveal_strlit("[");
        reveal_strlit("]");
        reveal_strlit(", ");
    }
    let ghost parts = v@.map_values(|x: i64| decimal(x as int));
    let mut out = String::new();
    let mut i: usize = 0;
    while i < v.len()
        invariant
            i <= v.len(),
            parts == v@.map_values(|x: i64| decimal(x as int)),
            out@ == join(parts.subrange(0, i as int), ", "@),
        decreases v.len() - i,
    {
        assert(parts.subrange(0, i + 1).drop_last() =~= parts.subrange(0, i as int));
        if i > 0 {
            push_str(&mut out, ", ");
        }
        push_str(&mut out, i64_to_string(v[i]).as_str());
        i = i + 1;
    }
    assert(parts.subrange(0, i as int) =~= parts);
    let mut r = string_of("[");
    push_str(&mut r, out.as_str());
    push_str(&mut r, "]");
    r
}

/// One line per capability: kind and source event.
pub open spec fn capability_lines(caps: Seq<(Seq<char>, Seq<char>)>) -> Seq<char> {
    concat(caps.map_values(|c: (Seq<char>, Seq<char>)| "    "@ + c.0 + " ("@ + c.1 + ")\n"@))
}

/// One line per security API.
pub open spec fn api_lines(apis: Seq<Seq<char>>) -> Seq<char> {
    concat(apis.map_values(|a: Seq<char>| "    "@ + a + "\n"@))
}

/// A signing identifier, or "(unsigned)" when empty.
pub open spec fn signing_text(id: Seq<char>) -> Seq<char> {
    if id.len() == 0 {
        "(unsigned)"@
    } else {
        id
    }
}

/// One line per binary: cdhash and signing identifier.
pub open spec fn binary_lines(bins: Seq<(Seq<char>, Seq<char>)>) -> Seq<char> {
    concat(bins.map_values(|b: (Seq<char>, Seq<char>)| "    "@ + b.0 + "  "@ + signing_text(b.1) + "\n"@))
}

/// One line per hardware pair.
pub open spec fn hardware_lines(hw: Seq<(Seq<char>, Seq<char>)>) -> Seq<char> {
    concat(hw.map_values(|h: (Seq<char>, Seq<char>)| "    "@ + h.0 + ": "@ + h.1 + "\n"@))
}

/// The heading of a profile: bundle ID, version, record count.
pub open spec fn profile_head(p: crate::app_profile::ProfileView) -> Seq<char> {
    "=== "@ + p.bundle_id + " ===\n"@ + (if p.version.len() > 0 {
        "  Version: "@ + p.version + "\n"@
    } else {
        Seq::empty()
    }) + "  Records: "@ + decimal(p.record_count as int) + "\n"@
}

/// The usage lines of a profile, when it has any active or up time.
pub open spec fn profile_usage(p: crate::app_profile::ProfileView) -> Seq<char> {
    if p.active_seconds > 0 || p.uptime_seconds > 0 {
        "  Active: "@ + duration_text(p.active_seconds) + "  Uptime: "@ + duration_text(p.uptime_seconds)
            + "  Foreground: "@ + (if p.foreground {
            "yes"@
        } else {
            "no"@
        }) + "\n"@ + "  Activations: "@ + decimal(p.activations as int) + "  Launches: "@ + decimal(
            p.launches as int,
        ) + "\n"@
    } else {
        Seq::empty()
    }
}

/// The network lines of a profile, when it has network information.
pub open spec fn profile_network(p: crate::app_profile::ProfileView) -> Seq<char> {
    if p.interface.len() > 0 || p.bytes_values.len() > 0 {
        "\n  Network:\n"@ + (if p.interface.len() > 0 {
            "    Interface: "@ + p.interface + "\n"@
        } else {
            Seq::empty()
        }) + (if p.bytes_values.len() > 0 {
            "    Byte values: "@ + i64_list_text(p.bytes_values) + "\n"@
        } else {
            Seq::empty()
        })
    } else {
        Seq::empty()
    }
}

/// A titled block of lines, present when there are lines.
pub open spec fn block(present: bool, title: Seq<char>, lines: Seq<char>) -> Seq<char> {
    if present {
        title + lines
    } else {
        Seq::empty()
    }
}

/// The text block of one app profile.
pub open spec fn profile_text(p: crate::app_profile::ProfileView) -> Seq<char> {
    profile_head(p) + profile_usage(p) + block(
        p.capabilities.len() > 0,
        "\n  Capabilities:\n"@,
        capability_lines(p.capabilities),
    ) + block(p.security_apis.len() > 0, "\n  Security APIs:\n"@, api_lines(p.security_apis)) + block(
        p.binaries.len() > 0,
        "\n  Binaries Fingerprinted:\n"@,
        binary_lines(p.binaries),
    ) + profile_network(p) + block(p.hardware.len() > 0, "\n  Hardware:\n"@, hardware_lines(p.hardware))
        + "\n"@
}

/// The report of app profiles, or a note that none matched.
pub open spec fn app_profiles_text(ps: Seq<crate::app_profile::ProfileView>) -> Seq<char> {
    if ps.len() == 0 {
        "No matching app profiles found."@
    } else {
        concat(ps.map_values(|p: crate::app_profile::ProfileView| profile_text(p)))
    }
}

/// Joining two lists end to end joins their texts end to end.
proof fn lemma_concat_append(s: Seq<Seq<char>>, t: Seq<Seq<char>>)
    ensures
        concat(s + t) == concat(s) + concat(t),
    decreases t.len(),
{
    if t.len() == 0 {
        assert(s + t =~= s);
        assert(concat(t) =~= Seq::<char>::empty());
    } else {
        lemma_concat_append(s, t.drop_last());
        assert((s + t).drop_last() =~= s + t.drop_last());
        assert((s + t).last() == t.last());
    }
}

/// The text is empty or ends with a line break.
pub open spec fn ends_line(x: Seq<char>) -> bool {
    x.len() == 0 || x.last() == '\n'
}

/// Pieces that each end with a line break join into text that does.
proof fn lemma_concat_lines(s: Seq<Seq<char>>)
    requires
        forall|i: int| 0 <= i < s.len() ==> (#[trigger] s[i]).len() > 0 && s[i].last() == '\n',
    ensures
        ends_line(concat(s)),
    decreases s.len(),
{
    if s.len() > 0 {
        lemma_concat_lines(s.drop_last());
        assert(s.last() == s[s.len() - 1]);
    }
}

/// Text that ends with a line break, followed by text that is empty or
/// ends with one, ends with one.
proof fn lemma_ends_line_add(a: Seq<char>, b: Seq<char>)
    requires
        a.len() > 0 && a.last() == '\n',
        ends_line(b),
    ensures
        (a + b).len() > 0 && (a + b).last() == '\n',
{
    if b.len() > 0 {
        assert((a + b)[(a + b).len() - 1] == b[b.len() - 1]);
    } else {
        assert(a + b =~= a);
    }
}

/// Text followed by a line break ends with one.
proof fn lemma_nl_end(x: Seq<char>)
    ensures
        (x + "\n"@).len() > 0,
        (x + "\n"@).last() == '\n',
{
    reveal_strlit("\n");
    assert((x + "\n"@)[(x + "\n"@).len() - 1] == "\n"@[0]);
}

/// A titled block is empty or ends with a line break.
proof fn lemma_block_line(present: bool, title: Seq<char>, lines: Seq<char>)
    requires
        title.len() > 0 && title.last() == '\n',
        ends_line(lines),
    ensures
        ends_line(block(present, title, lines)),
{
    if present {
        lemma_ends_line_add(title, lines);
    }
}

/// The parts of a profile's text before its final line break end with one.
proof fn lemma_profile_body_line(p: crate::app_profile::ProfileView)
    ensures
        ({
            let body = profile_head(p) + profile_usage(p) + block(
                p.capabilities.len() > 0,
                "\n  Capabilities:\n"@,
                capability_lines(p.capabilities),
            ) + block(p.security_apis.len() > 0, "\n  Security APIs:\n"@, api_lines(p.security_apis)) + block(
                p.binaries.len() > 0,
                "\n  Binaries Fingerprinted:\n"@,
                binary_lines(p.binaries),
            ) + profile_network(p) + block(p.hardware.len() > 0, "\n  Hardware:\n"@, hardware_lines(p.hardware));
            body.len() > 0 && body.last() == '\n'
        }),
{
    reveal_strlit("\n  Capabilities:\n");
    reveal_strlit("\n  Security APIs:\n");
    reveal_strlit("\n  Binaries Fingerprinted:\n");
    reveal_strlit("\n  Hardware:\n");
    reveal_strlit("\n");
    reveal_strlit(")\n");
    let caps = p.capabilities.map_values(|c: (Seq<char>, Seq<char>)| "    "@ + c.0 + " ("@ + c.1 + ")\n"@);
    assert forall|i: int| 0 <= i < caps.len() implies (#[trigger] caps[i]).len() > 0 && caps[i].last() == '\n' by {
        let c = p.capabilities[i];
        assert(caps[i] == "    "@ + c.0 + " ("@ + c.1 + ")\n"@);
        assert(caps[i][caps[i].len() - 1] == ")\n"@[1]);
    }
    lemma_concat_lines(caps);
    let apis = p.security_apis.map_values(|a: Seq<char>| "    "@ + a + "\n"@);
    assert forall|i: int| 0 <= i < apis.len() implies (#[trigger] apis[i]).len() > 0 && apis[i].last() == '\n' by {
        lemma_nl_end("    "@ + p.security_apis[i]);
    }
    lemma_concat_lines(apis);
    let bins = p.binaries.map_values(|b: (Seq<char>, Seq<char>)| "    "@ + b.0 + "  "@ + signing_text(b.1) + "\n"@);
    assert forall|i: int| 0 <= i < bins.len() implies (#[trigger] bins[i]).len() > 0 && bins[i].last() == '\n' by {
        let b = p.binaries[i];
        lemma_nl_end("    "@ + b.0 + "  "@ + signing_text(b.1));
    }
    lemma_concat_lines(bins);
    let hws = p.hardware.map_values(|h: (Seq<char>, Seq<char>)| "    "@ + h.0 + ": "@ + h.1 + "\n"@);
    assert forall|i: int| 0 <= i < hws.len() implies (#[trigger] hws[i]).len() > 0 && hws[i].last() == '\n' by {
        let h = p.hardware[i];
        lemma_nl_end("    "@ + h.0 + ": "@ + h.1);
    }
    lemma_concat_lines(hws);
    let head = profile_head(p);
    lemma_nl_end(
        "=== "@ + p.bundle_id + " ===\n"@ + (if p.version.len() > 0 {
            "  Version: "@ + p.version + "\n"@
        } else {
            Seq::empty()
        }) + "  Records: "@ + decimal(p.record_count as int),
    );
    let usage = profile_usage(p);
    if p.active_seconds > 0 || p.uptime_seconds > 0 {
        lemma_nl_end(
            "  Active: "@ + duration_text(p.active_seconds) + "  Uptime: "@ + duration_text(p.uptime_seconds)
                + "  Foreground: "@ + (if p.foreground {
                "yes"@
            } else {
                "no"@
            }) + "\n"@ + "  Activations: "@ + decimal(p.activations as int) + "  Launches: "@ + decimal(
                p.launches as int,
            ),
        );
    }
    lemma_ends_line_add(head, usage);
    let x1 = head + usage;
    let b1 = block(p.capabilities.len() > 0, "\n  Capabilities:\n"@, capability_lines(p.capabilities));
    lemma_block_line(p.capabilities.len() > 0, "\n  Capabilities:\n"@, capability_lines(p.capabilities));
    lemma_ends_line_add(x1, b1);
    let x2 = x1 + b1;
    let b2 = block(p.security_apis.len() > 0, "\n  Security APIs:\n"@, api_lines(p.security_apis));
    lemma_block_line(p.security_apis.len() > 0, "\n  Security APIs:\n"@, api_lines(p.security_apis));
    lemma_ends_line_add(x2, b2);
    let x3 = x2 + b2;
    let b3 = block(p.binaries.len() > 0, "\n  Binaries Fingerprinted:\n"@, binary_lines(p.binaries));
    lemma_block_line(p.binaries.len() > 0, "\n  Binaries Fingerprinted:\n"@, binary_lines(p.binaries));
    lemma_ends_line_add(x3, b3);
    let x4 = x3 + b3;
    let net = profile_network(p);
    if p.interface.len() > 0 || p.bytes_values.len() > 0 {
        let a = "\n  Network:\n"@ + (if p.interface.len() > 0 {
            "    Interface: "@ + p.interface + "\n"@
        } else {
            Seq::empty()
        });
        if p.bytes_values.len() > 0 {
            lemma_nl_end(a + "    Byte values: "@ + i64_list_text(p.bytes_values));
        } else if p.interface.len() > 0 {
            lemma_nl_end("\n  Network:\n"@ + "    Interface: "@ + p.interface);
            assert(net =~= "\n  Network:\n"@ + "    Interface: "@ + p.interface + "\n"@);
        }
    }
    lemma_ends_line_add(x4, net);
    let x5 = x4 + net;
    let b4 = block(p.hardware.len() > 0, "\n  Hardware:\n"@, hardware_lines(p.hardware));
    lemma_block_line(p.hardware.len() > 0, "\n  Hardware:\n"@, hardware_lines(p.hardware));
    lemma_ends_line_add(x5, b4);
}

/// A profile's block starts with its "=== bundle ===" heading line and ends
/// with a blank line.
pub proof fn lemma_profile_text_shape(p: crate::app_profile::ProfileView)
    ensures
        crate::text::is_prefix("=== "@ + p.bundle_id + " ===\n"@, profile_text(p)),
        profile_text(p).len() >= 2,
        profile_text(p)[profile_text(p).len() - 2] == '\n',
        profile_text(p).last() == '\n',
        app_profiles_text(seq![p]) == profile_text(p),
{
    reveal_strlit("\n");
    lemma_profile_body_line(p);
    let t = profile_text(p);
    let hd = "=== "@ + p.bundle_id + " ===\n"@;
    assert(t.subrange(0, hd.len() as int) =~= hd);
    assert(t[t.len() - 1] == "\n"@[0]);
    let f = |q: crate::app_profile::ProfileView| profile_text(q);
    assert(seq![p].map_values(f) =~= seq![t]);
    assert(seq![t].drop_last() =~= Seq::<Seq<char>>::empty());
    assert(seq![t].last() == t);
    assert(concat(Seq::<Seq<char>>::empty()) =~= Seq::<char>::empty());
    assert(concat(seq![t]) =~= concat(Seq::<Seq<char>>::empty()) + t);
}

/// The report of several profiles is the report of the first ones followed
/// by the report of the rest; each profile's block starts with its
/// "=== bundle ===" heading and ends with a blank line.
pub proof fn lemma_app_profiles_text_append(
    a: Seq<crate::app_profile::ProfileView>,
    b: Seq<crate::app_profile::ProfileView>,
)
    requires
        a.len() > 0,
        b.len() > 0,
    ensures
        app_profiles_text(a + b) == app_profiles_text(a) + app_profiles_text(b),
{
    let f = |p: crate::app_profile::ProfileView| profile_text(p);
    assert((a + b).map_values(f) =~= a.map_values(f) + b.map_values(f));
    lemma_concat_append(a.map_values(f), b.map_values(f));
}

/// Append the capability lines.
fn push_capability_lines(out: &mut String, caps: &Vec<crate::schema::AppCapability>)
    ensures
        final(out)@ == old(out)@ + capability_lines(caps@.map_values(|c: crate::schema::AppCapability| (c.kind@, c.source_event@))),
{
    proof {
        reveal_strlit("    ");
        reveal_strlit(" (");
        reveal_strlit(")\n");
    }
    let ghost cv = caps@.map_values(|c: crate::schema::AppCapability| (c.kind@, c.source_event@));
    let ghost lines = cv.map_values(|c: (Seq<char>, Seq<char>)| "    "@ + c.0 + " ("@ + c.1 + ")\n"@);
    let ghost o0 = out@;
    let mut i: usize = 0;
    while i < caps.len()
        invariant
            i <= caps.len(),
            cv == caps@.map_values(|c: crate::schema::AppCapability| (c.kind@, c.source_event@)),
            lines == cv.map_values(|c: (Seq<char>, Seq<char>)| "    "@ + c.0 + " ("@ + c.1 + ")\n"@),
            o0 == old(out)@,
            out@ == o0 + concat(lines.subrange(0, i as int)),
        decreases caps.len() - i,
    {
        proof {
            lemma_concat_push(lines.subrange(0, i as int), lines[i as int]);
            assert(lines.subrange(0, i + 1) =~= lines.subrange(0, i as int).push(lines[i as int]));
        }
        push_str(out, "    ");
        push_str(out, caps[i].kind.as_str());
        push_str(out, " (");
        push_str(out, caps[i].source_event.as_str());
        push_str(out, ")\n");
        i = i + 1;
    }
    assert(lines.subrange(0, i as int) =~= lines);
}

/// Append one line per string.
fn push_api_lines(out: &mut String, apis: &Vec<String>)
    ensures
        final(out)@ == old(out)@ + api_lines(apis@.map_values(|s: String| s@)),
{
    proof {
        reveal_strlit("    ");
        reveal_strlit("\n");
    }
    let ghost av = apis@.map_values(|s: String| s@);
    let ghost lines = av.map_values(|a: Seq<char>| "    "@ + a + "\n"@);
    let ghost o0 = out@;
    let mut i: usize = 0;
    while i < apis.len()
        invariant
            i <= apis.len(),
            av == apis@.map_values(|s: String| s@),
            lines == av.map_values(|a: Seq<char>| "    "@ + a + "\n"@),
            o0 == old(out)@,
            out@ == o0 + concat(lines.subrange(0, i as int)),
        decreases apis.len() - i,
    {
        proof {
            lemma_concat_push(lines.subrange(0, i as int), lines[i as int]);
            assert(lines.subrange(0, i + 1) =~= lines.subrange(0, i as int).push(lines[i as int]));
        }
        push_str(out, "    ");
        push_str(out, apis[i].as_str());
        push_str(out, "\n");
        i = i + 1;
    }
    assert(lines.subrange(0, i as int) =~= lines);
}

/// Append one line per binary.
fn push_binary_lines(out: &mut String, bins: &Vec<crate::schema::BinaryFingerprint>)
    ensures
        final(out)@ == old(out)@ + binary_lines(bins@.map_values(|b: crate::schema::BinaryFingerprint| (b.cdhash@, b.signing_id@))),
{
    proof {
        reveal_strlit("    ");
        reveal_strlit("  ");
        reveal_strlit("\n");
        reveal_strlit("(unsigned)");
    }
    let ghost bv = bins@.map_values(|b: crate::schema::BinaryFingerprint| (b.cdhash@, b.signing_id@));
    let ghost lines = bv.map_values(|b: (Seq<char>, Seq<char>)| "    "@ + b.0 + "  "@ + signing_text(b.1) + "\n"@);
    let ghost o0 = out@;
    let mut i: usize = 0;
    while i < bins.len()
        invariant
            i <= bins.len(),
            bv == bins@.map_values(|b: crate::schema::BinaryFingerprint| (b.cdhash@, b.signing_id@)),
            lines == bv.map_values(|b: (Seq<char>, Seq<char>)| "    "@ + b.0 + "  "@ + signing_text(b.1) + "\n"@),
            o0 == old(out)@,
            out@ == o0 + concat(lines.subrange(0, i as int)),
        decreases bins.len() - i,
    {
        proof {
            lemma_concat_push(lines.subrange(0, i as int), lines[i as int]);
            assert(lines.subrange(0, i + 1) =~= lines.subrange(0, i as int).push(lines[i as int]));
        }
        push_str(out, "    ");
        push_str(out, bins[i].cdhash.as_str());
        push_str(out, "  ");
        if bins[i].signing_id.as_str().is_empty() {
            push_str(out, "(unsigned)");
        } else {
            push_str(out, bins[i].signing_id.as_str());
        }
        push_str(out, "\n");
        i = i + 1;
    }
    assert(lines.subrange(0, i as int) =~= lines);
}

/// Append one line per hardware pair.
fn push_hardware_lines(out: &mut String, hw: &Vec<(String, String)>)
    ensures
        final(out)@ == old(out)@ + hardware_lines(hw@.map_values(|h: (String, String)| (h.0@, h.1@))),
{
    proof {
        reveal_strlit("    ");
        reveal_strlit(": ");
        reveal_strlit("\n");
    }
    let ghost hv = hw@.map_values(|h: (String, String)| (h.0@, h.1@));
    let ghost lines = hv.map_values(|h: (Seq<char>, Seq<char>)| "    "@ + h.0 + ": "@ + h.1 + "\n"@);
    let ghost o0 = out@;
    let mut i: usize = 0;
    while i < hw.len()
        invariant
            i <= hw.len(),
            hv == hw@.map_values(|h: (String, String)| (h.0@, h.1@)),
            lines == hv.map_values(|h: (Seq<char>, Seq<char>)| "    "@ + h.0 + ": "@ + h.1 + "\n"@),
            o0 == old(out)@,
            out@ == o0 + concat(lines.subrange(0, i as int)),
        decreases hw.len() - i,
    {
        proof {
            lemma_concat_push(lines.subrange(0, i as int), lines[i as int]);
            assert(lines.subrange(0, i + 1) =~= lines.subrange(0, i as int).push(lines[i as int]));
        }
        push_str(out, "    ");
        push_str(out, hw[i].0.as_str());
        push_str(out, ": ");
        push_str(out, hw[i].1.as_str());
        push_str(out, "\n");
        i = i + 1;
    }
    assert(lines.subrange(0, i as int) =~= lines);
}

/// Append the heading of a profile.
fn push_profile_head(out: &mut String, p: &AppProfile)
    ensures
        final(out)@ == old(out)@ + profile_head(p@),
{
    proof {
        reveal_strlit("=== ");
        reveal_strlit(" ===\n");
        reveal_strlit("  Version: ");
        reveal_strlit("\n");
        reveal_strlit("  Records: ");
    }
    let ghost o0 = out@;
    push_str(out, "=== ");
    push_str(out, p.bundle_id.as_str());
    push_str(out, " ===\n");
    let ghost o1 = out@;
    if !p.version.as_str().is_empty() {
        push_str(out, "  Version: ");
        push_str(out, p.version.as_str());
        push_str(out, "\n");
    }
    push_str(out, "  Records: ");
    push_str(out, usize_to_string(p.record_count).as_str());
    push_str(out, "\n");
    assert(out@ =~= o0 + profile_head(p@));
}

/// Append the usage lines of a profile.
fn push_profile_usage(out: &mut String, p: &AppProfile)
    ensures
        final(out)@ == old(out)@ + profile_usage(p@),
{
    proof {
        reveal_strlit("\n");
        reveal_strlit("  Active: ");
        reveal_strlit("  Uptime: ");
        reveal_strlit("  Foreground: ");
        reveal_strlit("yes");
        reveal_strlit("no");
        reveal_strlit("  Activations: ");
        reveal_strlit("  Launches: ");
    }
    let ghost o0 = out@;
    if p.active_seconds > 0 || p.uptime_seconds > 0 {
        push_str(out, "  Active: ");
        push_str(out, format_duration(p.active_seconds).as_str());
        push_str(out, "  Uptime: ");
        push_str(out, format_duration(p.uptime_seconds).as_str());
        push_str(out, "  Foreground: ");
        push_str(out, if p.foreground { "yes" } else { "no" });
        push_str(out, "\n");
        push_str(out, "  Activations: ");
        push_str(out, i64_to_string(p.activations).as_str());
        push_str(out, "  Launches: ");
        push_str(out, i64_to_string(p.launches).as_str());
        push_str(out, "\n");
    }
    assert(out@ =~= o0 + profile_usage(p@));
}

/// Append the network lines of a profile.
fn push_profile_network(out: &mut String, p: &AppProfile)
    ensures
        final(out)@ == old(out)@ + profile_network(p@),
{
    proof {
        reveal_strlit("\n");
        reveal_strlit("\n  Network:\n");
        reveal_strlit("    Interface: ");
        reveal_strlit("    Byte values: ");
    }
    let ghost o0 = out@;
    if !p.network.interface.as_str().is_empty() || p.network.bytes_values.len() > 0 {
        push_str(out, "\n  Network:\n");
        let ghost o1 = out@;
        if !p.network.interface.as_str().is_empty() {
            push_str(out, "    Interface: ");
            push_str(out, p.network.interface.as_str());
            push_str(out, "\n");
        }
        let ghost o2 = out@;
        if p.network.bytes_values.len() > 0 {
            push_str(out, "    Byte values: ");
            push_str(out, format_i64_list(&p.network.bytes_values).as_str());
            push_str(out, "\n");
        }
    }
    assert(out@ =~= o0 + profile_network(p@));
}

/// Append the capabilities block of a profile.
fn push_capability_block(out: &mut String, p: &AppProfile)
    ensures
        final(out)@ == old(out)@ + block(p@.capabilities.len() > 0, "\n  Capabilities:\n"@, capability_lines(p@.capabilities)),
{
    proof {
        reveal_strlit("\n  Capabilities:\n");
    }
    if p.capabilities.len() > 0 {
        push_str(out, "\n  Capabilities:\n");
        push_capability_lines(out, &p.capabilities);
    }
}

/// Append the security APIs block of a profile.
fn push_api_block(out: &mut String, p: &AppProfile)
    ensures
        final(out)@ == old(out)@ + block(p@.security_apis.len() > 0, "\n  Security APIs:\n"@, api_lines(p@.security_apis)),
{
    proof {
        reveal_strlit("\n  Security APIs:\n");
    }
    if p.security_apis.len() > 0 {
        push_str(out, "\n  Security APIs:\n");
        push_api_lines(out, &p.security_apis);
    }
}

/// Append the binaries block of a profile.
fn push_binary_block(out: &mut String, p: &AppProfile)
    ensures
        final(out)@ == old(out)@ + block(p@.binaries.len() > 0, "\n  Binaries Fingerprinted:\n"@, binary_lines(p@.binaries)),
{
    proof {
        reveal_strlit("\n  Binaries Fingerprinted:\n");
    }
    if p.binaries.len() > 0 {
        push_str(out, "\n  Binaries Fingerprinted:\n");
        push_binary_lines(out, &p.binaries);
    }
}

/// Append the hardware block of a profile.
fn push_hardware_block(out: &mut String, p: &AppProfile)
    ensures
        final(out)@ == old(out)@ + block(p@.hardware.len() > 0, "\n  Hardware:\n"@, hardware_lines(p@.hardware)),
{
    proof {
        reveal_strlit("\n  Hardware:\n");
    }
    if p.hardware.len() > 0 {
        push_str(out, "\n  Hardware:\n");
        push_hardware_lines(out, &p.hardware);
    }
}

/// Append the text block of one profile.
#[verifier::spinoff_prover]
#[verifier::rlimit(60)]
fn push_profile(out: &mut String, p: &AppProfile)
    ensures
        final(out)@ == old(out)@ + profile_text(p@),
{
    proof {
        reveal_strlit("\n");
    }
    let ghost pv = p@;
    let ghost h = profile_head(pv);
    let ghost u = profile_usage(pv);
    let ghost c = block(pv.capabilities.len() > 0, "\n  Capabilities:\n"@, capability_lines(pv.capabilities));
    let ghost a = block(pv.security_apis.len() > 0, "\n  Security APIs:\n"@, api_lines(pv.security_apis));
    let ghost b = block(pv.binaries.len() > 0, "\n  Binaries Fingerprinted:\n"@, binary_lines(pv.binaries));
    let ghost n = profile_network(pv);
    let ghost w = block(pv.hardware.len() > 0, "\n  Hardware:\n"@, hardware_lines(pv.hardware));
    assert(profile_text(pv) == h + u + c + a + b + n + w + "\n"@);
    let ghost o0 = out@;
    push_profile_head(out, p);
    push_profile_usage(out, p);
    assert(out@ =~= o0 + (h + u));
    push_capability_block(out, p);
    push_api_block(out, p);
    assert(out@ =~= o0 + (h + u + c + a));
    push_binary_block(out, p);
    push_profile_network(out, p);
    assert(out@ =~= o0 + (h + u + c + a + b + n));
    push_hardware_block(out, p);
    push_str(out, "\n");
    assert(out@ =~= o0 + (h + u + c + a + b + n + w + "\n"@));
}

/// Format a detailed per-app profile for terminal display.
pub fn format_app_profile(profiles: &[AppProfile]) -> (r: String)
    ensures
        r@ == app_profiles_text(crate::app_profile::views(profiles@)),
{
    proof {
        reveal_strlit("No matching app profiles found.");
    }
    if profiles.len() == 0 {
        return string_of("No matching app profiles found.");
    }
    let ghost texts = crate::app_profile::views(profiles@).map_values(
        |p: crate::app_profile::ProfileView| profile_text(p),
    );
    let mut out = String::new();
    let mut i: usize = 0;
    while i < profiles.len()
        invariant
            i <= profiles@.len(),
            texts == crate::app_profile::views(profiles@).map_values(
                |p: crate::app_profile::ProfileView| profile_text(p),
            ),
            out@ == concat(texts.subrange(0, i as int)),
        decreases profiles.len() - i,
    {
        proof {
            lemma_concat_push(texts.subrange(0, i as int), texts[i as int]);
            assert(texts.subrange(0, i + 1) =~= texts.subrange(0, i as int).push(texts[i as int]));
        }
        push_profile(&mut out, &profiles[i]);
        i = i + 1;
    }
    assert(texts.subrange(0, i as int) =~= texts);
    out
}


/// Division truncating toward zero, as Rust divides integers.
pub open spec fn tdiv(a: int, b: int) -> int {
    if a >= 0 {
        a / b
    } else {
        -((-a) / b)
    }
}

/// Remainder of division truncating toward zero.
pub open spec fn tmod(a: int, b: int) -> int {
    a - b * tdiv(a, b)
}

/// Days since the Unix epoch as (year, month, day) of the proleptic
/// Gregorian calendar, by Howard Hinnant's civil-from-days algorithm.
pub open spec fn civil_from_days(days: int) -> (int, int, int) {
    let z = days + 719_468;
    let era = tdiv(if z >= 0 {
        z
    } else {
        z - 146_096
    }, 146_097);
    let doe = z - era * 146_097;
    let yoe = tdiv(doe - tdiv(doe, 1460) + tdiv(doe, 36524) - tdiv(doe, 146_096), 365);
    let y = yoe + era * 400;
    let doy = doe - (365 * yoe + tdiv(yoe, 4) - tdiv(yoe, 100));
    let mp = tdiv(5 * doy + 2, 153);
    let d = doy - tdiv(153 * mp + 2, 5) + 1;
    let m = if mp < 10 {
        mp + 3
    } else {
        mp - 9
    };
    (if m <= 2 {
        y + 1
    } else {
        y
    }, m, d)
}

/// The day of the era lies within the era.
proof fn lemma_day_of_era(z: int)
    ensures
        0 <= z - tdiv(if z >= 0 {
            z
        } else {
            z - 146_096
        }, 146_097) * 146_097 <= 146_096,
{
    if z >= 0 {
        assert(z == 146_097 * (z / 146_097) + z % 146_097);
    } else {
        let w = 146_096 - z;
        assert(w == 146_097 * (w / 146_097) + w % 146_097);
    }
}

/// Convert days since Unix epoch to (year, month, day).
#[verifier::rlimit(40)]
pub fn days_to_ymd(days: i64) -> (r: (i64, i64, i64))
    requires
        days + 719_468 <= i64::MAX,
    ensures
        (r.0 as int, r.1 as int, r.2 as int) == civil_from_days(days as int),
        1 <= r.1 <= 12,
        1 <= r.2 <= 31,
{
    let z = days + 719_468;
    let era = (if z >= 0 { z } else { z - 146_096 }) / 146_097;
    proof {
        lemma_day_of_era(z as int);
    }
    let doe = z - era * 146_097;
    let yoe = (doe - doe / 1460 + doe / 36524 - doe / 146_096) / 365;
    assert(0 <= yoe <= 399);
    let y = yoe + era * 400;
    let doy = doe - (365 * yoe + yoe / 4 - yoe / 100);
    assert(0 <= doy <= 365);
    let mp = (5 * doy + 2) / 153;
    assert(0 <= mp <= 11);
    let d = doy - (153 * mp + 2) / 5 + 1;
    assert(1 <= d <= 31);
    let m = if mp < 10 { mp + 3 } else { mp - 9 };
    let y = if m <= 2 { y + 1 } else { y };
    (y, m, d)
}

/// `n` zeros.
pub open spec fn zeros(n: int) -> Seq<char>
    decreases n,
{
    if n <= 0 {
        Seq::empty()
    } else {
        zeros(n - 1).push('0')
    }
}

/// An integer padded with zeros to `width` characters, the sign counted,
/// as `{:0width}` prints it.
pub open spec fn padded(n: int, width: int) -> Seq<char> {
    if n < 0 {
        "-"@ + zeros(width - 1 - crate::json::nat_digits((-n) as nat).len()) + crate::json::nat_digits((-n) as nat)
    } else {
        zeros(width - crate::json::nat_digits(n as nat).len()) + crate::json::nat_digits(n as nat)
    }
}

/// Ten to the power `k`.
pub open spec fn ten_pow(k: nat) -> nat
    decreases k,
{
    if k == 0 {
        1
    } else {
        10 * ten_pow((k - 1) as nat)
    }
}

/// Decimal digits of a 64-bit value number at most twenty.
proof fn lemma_digits_short(n: nat)
    requires
        n <= u64::MAX,
    ensures
        crate::json::nat_digits(n).len() <= 20,
{
    reveal_with_fuel(ten_pow, 21);
    assert(ten_pow(20) == 100_000_000_000_000_000_000nat);
    lemma_digits_len(n, 20);
}

/// Decimal digits of a number below 10^k number at most k.
proof fn lemma_digits_len(n: nat, k: nat)
    requires
        k >= 1,
        n < ten_pow(k),
    ensures
        crate::json::nat_digits(n).len() <= k,
    decreases k,
{
    if n >= 10 {
        if k == 1 {
            assert(ten_pow(1) == 10) by {
                reveal_with_fuel(ten_pow, 2);
            }
            assert(false);
        }
        assert(n / 10 < ten_pow((k - 1) as nat)) by (nonlinear_arith)
            requires
                n < 10 * ten_pow((k - 1) as nat),
        ;
        lemma_digits_len(n / 10, (k - 1) as nat);
    }
}

/// Append `k` zeros.
fn push_zeros(out: &mut String, k: i64)
    ensures
        final(out)@ == old(out)@ + zeros(k as int),
    decreases k,
{
    if k > 0 {
        push_zeros(out, k - 1);
        push_char(out, '0');
    }
}

/// An integer padded with zeros as `{:0width}` prints it.
fn pad_i64(n: i64, width: i64) -> (r: String)
    requires
        n > i64::MIN,
        0 <= width <= 8,
    ensures
        r@ == padded(n as int, width as int),
{
    proof {
        reveal_strlit("-");
    }
    let digits = if n < 0 { u64_to_string((-n) as u64) } else { u64_to_string(n as u64) };
    let dl = crate::text::chars_of(digits.as_str()).len();
    proof {
        lemma_digits_short(if n < 0 {
            (-n) as nat
        } else {
            n as nat
        });
    }
    let len = dl as i64;
    let mut out = String::new();
    if n < 0 {
        push_char(&mut out, '-');
        push_zeros(&mut out, width - 1 - len);
    } else {
        push_zeros(&mut out, width - len);
    }
    push_str(&mut out, digits.as_str());
    out
}


/// A microsecond timestamp as "YYYY-MM-DD HH:MM UTC" (integer division
/// truncating toward zero, as Rust divides).
pub open spec fn timestamp_text(us: int) -> Seq<char> {
    let secs = tdiv(us, 1_000_000);
    let days = tdiv(secs, 86400);
    let rem = tmod(secs, 86400);
    let hours = tdiv(rem, 3600);
    let minutes = tdiv(tmod(rem, 3600), 60);
    let ymd = civil_from_days(days);
    padded(ymd.0, 4) + "-"@ + padded(ymd.1, 2) + "-"@ + padded(ymd.2, 2) + " "@ + padded(hours, 2) + ":"@ + padded(
        minutes,
        2,
    ) + " UTC"@
}

/// Format a microsecond timestamp as a human-readable date string.
pub fn format_timestamp(microseconds: i64) -> (r: String)
    ensures
        r@ == timestamp_text(microseconds as int),
{
    let secs = microseconds / 1_000_000;
    assert(-10_000_000_000_000 <= secs <= 10_000_000_000_000);
    let days_since_epoch = secs / 86400;
    assert(-200_000_000 <= days_since_epoch <= 200_000_000);
    let remaining = secs % 86400;
    let hours = remaining / 3600;
    let minutes = (remaining % 3600) / 60;
    let (year, month, day) = days_to_ymd(days_since_epoch);
    let mut out = pad_i64(year, 4);
    push_str(&mut out, "-");
    push_str(&mut out, pad_i64(month, 2).as_str());
    push_str(&mut out, "-");
    push_str(&mut out, pad_i64(day, 2).as_str());
    push_str(&mut out, " ");
    push_str(&mut out, pad_i64(hours, 2).as_str());
    push_str(&mut out, ":");
    push_str(&mut out, pad_i64(minutes, 2).as_str());
    push_str(&mut out, " UTC");
    out
}

} // verus!
