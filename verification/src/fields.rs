//! Lookup of labeled field values by name.
use crate::json::{number_text, value_i64, value_u64, JsonValue};
use vstd::prelude::*;

verus! {

/// The text a field value yields when read as a string: a string's own
/// characters or a number's text.
pub open spec fn text_value(v: JsonValue) -> Option<Seq<char>> {
    match v {
        JsonValue::Str(s) => Some(s@),
        JsonValue::Number(n) => Some(number_text(n)),
        _ => None,
    }
}

/// The first field named `name` whose value reads as text, read as text.
pub open spec fn field_text(fields: Seq<(String, JsonValue)>, name: Seq<char>) -> Option<Seq<char>>
    decreases fields.len(),
{
    if fields.len() == 0 {
        None
    } else if fields[0].0@ == name && text_value(fields[0].1) is Some {
        text_value(fields[0].1)
    } else {
        field_text(fields.drop_first(), name)
    }
}

/// The first field named `name` whose value is an `i64`, else 0.
pub open spec fn field_int(fields: Seq<(String, JsonValue)>, name: Seq<char>) -> i64
    decreases fields.len(),
{
    if fields.len() == 0 {
        0
    } else if fields[0].0@ == name && value_i64(fields[0].1) is Some {
        value_i64(fields[0].1)->0
    } else {
        field_int(fields.drop_first(), name)
    }
}

/// The first field named `name` whose value is a `u64`, else 0.
pub open spec fn field_nat(fields: Seq<(String, JsonValue)>, name: Seq<char>) -> u64
    decreases fields.len(),
{
    if fields.len() == 0 {
        0
    } else if fields[0].0@ == name && value_u64(fields[0].1) is Some {
        value_u64(fields[0].1)->0
    } else {
        field_nat(fields.drop_first(), name)
    }
}

/// The field text as an owned string, or the empty string when absent.
pub open spec fn field_text_or_empty(fields: Seq<(String, JsonValue)>, name: Seq<char>) -> Seq<char> {
    match field_text(fields, name) {
        Some(t) => t,
        None => Seq::empty(),
    }
}

/// Read a field value as text, if it is a string or a number.
fn read_text(v: &JsonValue) -> (r: Option<String>)
    ensures
        match (r, text_value(*v)) {
            (Some(a), Some(b)) => a@ == b,
            (None, None) => true,
            _ => false,
        },
{
    match v {
        JsonValue::Str(s) => Some(s.clone()),
        JsonValue::Number(n) => Some(n.to_text()),
        _ => None,
    }
}

/// Get a string field value by name.
pub fn field_str(fields: &Vec<(String, JsonValue)>, name: &str) -> (r: Option<String>)
    ensures
        match (r, field_text(fields@, name@)) {
            (Some(a), Some(b)) => a@ == b,
            (None, None) => true,
            _ => false,
        },
{
    let mut i: usize = 0;
    assert(fields@.skip(0) =~= fields@);
    while i < fields.len()
        invariant
            i <= fields.len(),
            field_text(fields@, name@) == field_text(fields@.skip(i as int), name@),
        decreases fields.len() - i,
    {
        assert(fields@.skip(i as int)[0] == fields@[i as int]);
        assert(fields@.skip(i as int).drop_first() =~= fields@.skip(i + 1));
        if crate::text::str_eq(fields[i].0.as_str(), name) {
            let t = read_text(&fields[i].1);
            if t.is_some() {
                return t;
            }
        }
        i = i + 1;
    }
    None
}

/// Get an i64 field value by name (0 when absent).
pub fn field_i64(fields: &Vec<(String, JsonValue)>, name: &str) -> (r: i64)
    ensures
        r == field_int(fields@, name@),
{
    let mut i: usize = 0;
    assert(fields@.skip(0) =~= fields@);
    while i < fields.len()
        invariant
            i <= fields.len(),
            field_int(fields@, name@) == field_int(fields@.skip(i as int), name@),
        decreases fields.len() - i,
    {
        assert(fields@.skip(i as int)[0] == fields@[i as int]);
        assert(fields@.skip(i as int).drop_first() =~= fields@.skip(i + 1));
        if crate::text::str_eq(fields[i].0.as_str(), name) {
            match fields[i].1.as_i64() {
                Some(n) => {
                    return n;
                },
                None => {},
            }
        }
        i = i + 1;
    }
    0
}

/// Get a u64 field value by name (0 when absent).
pub fn field_u64(fields: &Vec<(String, JsonValue)>, name: &str) -> (r: u64)
    ensures
        r == field_nat(fields@, name@),
{
    let mut i: usize = 0;
    assert(fields@.skip(0) =~= fields@);
    while i < fields.len()
        invariant
            i <= fields.len(),
            field_nat(fields@, name@) == field_nat(fields@.skip(i as int), name@),
        decreases fields.len() - i,
    {
        assert(fields@.skip(i as int)[0] == fields@[i as int]);
        assert(fields@.skip(i as int).drop_first() =~= fields@.skip(i + 1));
        if crate::text::str_eq(fields[i].0.as_str(), name) {
            match fields[i].1.as_u64() {
                Some(n) => {
                    return n;
                },
                None => {},
            }
        }
        i = i + 1;
    }
    0
}

/// A field's text, or the empty string when absent (`unwrap_or_default`).
pub fn field_str_or_empty(fields: &Vec<(String, JsonValue)>, name: &str) -> (r: String)
    ensures
        r@ == field_text_or_empty(fields@, name@),
{
    match field_str(fields, name) {
        Some(s) => s,
        None => String::new(),
    }
}

/// Whether a field reads as exactly the given text (`field_str(..).as_deref() == Some(..)`).
pub fn field_is(fields: &Vec<(String, JsonValue)>, name: &str, expected: &str) -> (r: bool)
    ensures
        r == (field_text(fields@, name@) == Some(expected@)),
{
    match field_str(fields, name) {
        Some(s) => crate::text::str_eq(s.as_str(), expected),
        None => false,
    }
}

} // verus!
