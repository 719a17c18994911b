//! Record and event selection for the command-line reports.
use crate::category::Category;
use crate::schema::{DecodedRecord, EventInfo};
use crate::text::{contains, contains_str, str_eq};
use vstd::prelude::*;

verus! {

broadcast use vstd::string::group_string_axioms;

/// Whether a record passes the filters (all of them).
pub open spec fn record_selected(
    r: DecodedRecord,
    category: Option<Category>,
    event: Option<Seq<char>>,
    opt_out_only: bool,
) -> bool {
    &&& (category matches Some(c) ==> r.category == c)
    &&& (event matches Some(e) ==> exists|i: int|
        0 <= i < r.event_names@.len() && contains(#[trigger] r.event_names@[i]@, e))
    &&& (opt_out_only ==> r.config_type@ == "OptOut"@)
}

/// The records that pass the filters, in order.
pub open spec fn selected_records(
    rs: Seq<DecodedRecord>,
    category: Option<Category>,
    event: Option<Seq<char>>,
    opt_out_only: bool,
) -> Seq<DecodedRecord>
    decreases rs.len(),
{
    if rs.len() == 0 {
        Seq::empty()
    } else {
        let a = selected_records(rs.drop_last(), category, event, opt_out_only);
        if record_selected(rs.last(), category, event, opt_out_only) {
            a.push(rs.last())
        } else {
            a
        }
    }
}

/// Whether some event name contains the text.
fn any_event_contains(r: &DecodedRecord, e: &str) -> (b: bool)
    ensures
        b == exists|i: int| 0 <= i < r.event_names@.len() && contains(#[trigger] r.event_names@[i]@, e@),
{
    let mut i: usize = 0;
    while i < r.event_names.len()
        invariant
            i <= r.event_names@.len(),
            forall|k: int| 0 <= k < i ==> !contains(#[trigger] r.event_names@[k]@, e@),
        decreases r.event_names.len() - i,
    {
        if contains_str(r.event_names[i].as_str(), e) {
            return true;
        }
        i = i + 1;
    }
    false
}

/// Keep the records of the category, with an event name containing the
/// text, from OptOut configs, as asked (all filters at once), then at most
/// `limit` of them.
pub fn filter_records(
    records: Vec<DecodedRecord>,
    category: Option<Category>,
    event: Option<&str>,
    opt_out_only: bool,
    limit: Option<usize>,
) -> (r: Vec<DecodedRecord>)
    ensures
        ({
            let s = selected_records(
                records@,
                category,
                match event {
                    Some(e) => Some(e@),
                    None => None,
                },
                opt_out_only,
            );
            r@ == match limit {
                Some(n) => if n < s.len() {
                    s.subrange(0, n as int)
                } else {
                    s
                },
                None => s,
            }
        }),
{
    proof {
        reveal_strlit("OptOut");
    }
    let ghost ev = match event {
        Some(e) => Some(e@),
        None => None,
    };
    let ghost orig = records@;
    let mut rest = records;
    let mut out: Vec<DecodedRecord> = Vec::new();
    let ghost mut k: int = 0;
    assert(orig.subrange(0, 0) =~= Seq::<DecodedRecord>::empty());
    assert(rest@ =~= orig.subrange(0, orig.len() as int));
    while rest.len() > 0
        invariant
            0 <= k <= orig.len(),
            rest@ == orig.subrange(k, orig.len() as int),
            out@ == selected_records(orig.subrange(0, k), category, ev, opt_out_only),
            ev == match event {
                Some(e) => Some(e@),
                None => None::<Seq<char>>,
            },
        decreases rest.len(),
    {
        let ghost old_rest = rest@;
        let r = rest.remove(0);
        assert(old_rest[0] == r);
        assert(orig.subrange(0, k + 1).drop_last() =~= orig.subrange(0, k));
        assert(orig.subrange(0, k + 1).last() == r);
        let cat_ok = match category {
            Some(c) => r.category == c,
            None => true,
        };
        let event_ok = match event {
            Some(e) => any_event_contains(&r, e),
            None => true,
        };
        let opt_ok = !opt_out_only || str_eq(r.config_type.as_str(), "OptOut");
        if cat_ok && event_ok && opt_ok {
            out.push(r);
        }
        proof {
            k = k + 1;
        }
        assert(rest@ =~= orig.subrange(k, orig.len() as int));
    }
    assert(orig.subrange(0, k) =~= orig);
    match limit {
        Some(n) => {
            out.truncate(n);
        },
        None => {},
    }
    out
}

/// The events of the category, in order.
pub open spec fn events_of(es: Seq<EventInfo>, c: Category) -> Seq<EventInfo>
    decreases es.len(),
{
    if es.len() == 0 {
        Seq::empty()
    } else {
        let a = events_of(es.drop_last(), c);
        if es.last().category == c {
            a.push(es.last())
        } else {
            a
        }
    }
}

/// Keep the events of the category, when one is given.
pub fn filter_events(events: Vec<EventInfo>, category: Option<Category>) -> (r: Vec<EventInfo>)
    ensures
        r@ == match category {
            Some(c) => events_of(events@, c),
            None => events@,
        },
{
    let c = match category {
        Some(c) => c,
        None => {
            return events;
        },
    };
    let ghost orig = events@;
    let mut rest = events;
    let mut out: Vec<EventInfo> = Vec::new();
    let ghost mut k: int = 0;
    assert(orig.subrange(0, 0) =~= Seq::<EventInfo>::empty());
    assert(rest@ =~= orig.subrange(0, orig.len() as int));
    while rest.len() > 0
        invariant
            0 <= k <= orig.len(),
            rest@ == orig.subrange(k, orig.len() as int),
            out@ == events_of(orig.subrange(0, k), c),
        decreases rest.len(),
    {
        let ghost old_rest = rest@;
        let e = rest.remove(0);
        assert(old_rest[0] == e);
        assert(orig.subrange(0, k + 1).drop_last() =~= orig.subrange(0, k));
        assert(orig.subrange(0, k + 1).last() == e);
        if e.category == c {
            out.push(e);
        }
        proof {
            k = k + 1;
        }
        assert(rest@ =~= orig.subrange(k, orig.len() as int));
    }
    assert(orig.subrange(0, k) =~= orig);
    out
}

} // verus!
