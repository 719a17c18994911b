//! The library's model of a decoded JSON value, and decimal rendering of
//! integers.
use crate::text::{push_char, push_str, string_of};
use vstd::prelude::*;

verus! {

broadcast use vstd::string::group_string_axioms;

/// A JSON number, as serde_json holds it.
#[derive(Debug, PartialEq)]
pub enum JsonNumber {
    /// An integer that fits in `i64`.
    Int(i64),
    /// A non-negative integer that fits in `u64`.
    UInt(u64),
    /// A number with a fraction or exponent, held by its rendered text.
    Float(String),
}

/// A JSON value as it appears in a telemetry field.
#[derive(Debug, PartialEq)]
pub enum JsonValue {
    /// `null`.
    Null,
    /// `true` or `false`.
    Bool(bool),
    /// A number.
    Number(JsonNumber),
    /// A string.
    Str(String),
    /// An array: its elements, and its compact JSON text.
    Array(Vec<JsonValue>, String),
    /// An object, held by its compact JSON text.
    Object(String),
}

/// The decimal digit character for `d` in `0..10`.
pub open spec fn digit_char(d: int) -> char {
    (('0' as int) + d) as char
}

/// Decimal digits of a natural number, without sign or leading zeros.
pub open spec fn nat_digits(n: nat) -> Seq<char>
    decreases n,
{
    if n < 10 {
        seq![digit_char(n as int)]
    } else {
        nat_digits(n / 10).push(digit_char((n % 10) as int))
    }
}

/// Decimal rendering of an integer, as `Display` prints it.
pub open spec fn decimal(n: int) -> Seq<char> {
    if n < 0 {
        seq!['-'] + nat_digits((-n) as nat)
    } else {
        nat_digits(n as nat)
    }
}

/// The text of a JSON number, as serde_json prints it.
pub open spec fn number_text(n: JsonNumber) -> Seq<char> {
    match n {
        JsonNumber::Int(i) => decimal(i as int),
        JsonNumber::UInt(u) => decimal(u as int),
        JsonNumber::Float(t) => t@,
    }
}

/// `Value::as_str`.
pub open spec fn value_str(v: JsonValue) -> Option<Seq<char>> {
    match v {
        JsonValue::Str(s) => Some(s@),
        _ => None,
    }
}

/// `Value::as_i64`.
pub open spec fn value_i64(v: JsonValue) -> Option<i64> {
    match v {
        JsonValue::Number(JsonNumber::Int(i)) => Some(i),
        JsonValue::Number(JsonNumber::UInt(u)) => if u <= i64::MAX {
            Some(u as i64)
        } else {
            None
        },
        _ => None,
    }
}

/// `Value::as_u64`.
pub open spec fn value_u64(v: JsonValue) -> Option<u64> {
    match v {
        JsonValue::Number(JsonNumber::Int(i)) => if i >= 0 {
            Some(i as u64)
        } else {
            None
        },
        JsonValue::Number(JsonNumber::UInt(u)) => Some(u),
        _ => None,
    }
}

/// The compact display of a value: a string's own characters, `null`,
/// `true`/`false`, a number's text, or an array's or object's JSON text.
pub open spec fn display_text(v: JsonValue) -> Seq<char> {
    match v {
        JsonValue::Null => "null"@,
        JsonValue::Bool(b) => if b {
            "true"@
        } else {
            "false"@
        },
        JsonValue::Number(n) => number_text(n),
        JsonValue::Str(s) => s@,
        JsonValue::Array(_, t) => t@,
        JsonValue::Object(t) => t@,
    }
}

/// The digit character for a value below ten.
fn digit(d: u64) -> (c: char)
    requires
        d < 10,
    ensures
        c == digit_char(d as int),
{
    let b: u8 = 48u8 + (d as u8);
    b as char
}

/// Decimal rendering of a `u64`.
pub fn u64_to_string(n: u64) -> (s: String)
    ensures
        s@ == decimal(n as int),
    decreases n,
{
    if n < 10 {
        let mut s = String::new();
        push_char(&mut s, digit(n));
        assert(s@ =~= nat_digits(n as nat));
        s
    } else {
        let mut s = u64_to_string(n / 10);
        push_char(&mut s, digit(n % 10));
        s
    }
}

/// Decimal rendering of an `i64`.
pub fn i64_to_string(n: i64) -> (s: String)
    ensures
        s@ == decimal(n as int),
{
    if n < 0 {
        let m: u64 = if n == i64::MIN {
            9223372036854775808u64
        } else {
            (-n) as u64
        };
        let digits = u64_to_string(m);
        let mut s = string_of("-");
        proof {
            reveal_strlit("-");
        }
        push_str(&mut s, digits.as_str());
        assert(s@ =~= seq!['-'] + nat_digits((-n) as nat));
        s
    } else {
        u64_to_string(n as u64)
    }
}

/// Decimal rendering of a `usize`.
pub fn usize_to_string(n: usize) -> (s: String)
    ensures
        s@ == decimal(n as int),
{
    u64_to_string(n as u64)
}

impl JsonNumber {
    /// A copy of this number.
    pub fn copy(&self) -> (r: JsonNumber)
        ensures
            r == *self,
    {
        match self {
            JsonNumber::Int(i) => JsonNumber::Int(*i),
            JsonNumber::UInt(u) => JsonNumber::UInt(*u),
            JsonNumber::Float(t) => JsonNumber::Float(t.clone()),
        }
    }

    /// The number's text (`Number::to_string`).
    pub fn to_text(&self) -> (s: String)
        ensures
            s@ == number_text(*self),
    {
        match self {
            JsonNumber::Int(i) => i64_to_string(*i),
            JsonNumber::UInt(u) => u64_to_string(*u),
            JsonNumber::Float(t) => t.clone(),
        }
    }
}

impl JsonValue {
    /// `Value::as_str`.
    pub fn as_str(&self) -> (r: Option<&str>)
        ensures
            match (r, value_str(*self)) {
                (Some(a), Some(b)) => a@ == b,
                (None, None) => true,
                _ => false,
            },
    {
        match self {
            JsonValue::Str(s) => Some(s.as_str()),
            _ => None,
        }
    }

    /// `Value::as_i64`.
    pub fn as_i64(&self) -> (r: Option<i64>)
        ensures
            r == value_i64(*self),
    {
        match self {
            JsonValue::Number(JsonNumber::Int(i)) => Some(*i),
            JsonValue::Number(JsonNumber::UInt(u)) => {
                if *u <= 9223372036854775807u64 {
                    Some(*u as i64)
                } else {
                    None
                }
            },
            _ => None,
        }
    }

    /// `Value::as_u64`.
    pub fn as_u64(&self) -> (r: Option<u64>)
        ensures
            r == value_u64(*self),
    {
        match self {
            JsonValue::Number(JsonNumber::Int(i)) => {
                if *i >= 0 {
                    Some(*i as u64)
                } else {
                    None
                }
            },
            JsonValue::Number(JsonNumber::UInt(u)) => Some(*u),
            _ => None,
        }
    }
}

/// Format a single JSON value for display, keeping it compact.
pub fn format_value(val: &JsonValue) -> (s: String)
    ensures
        s@ == display_text(*val),
{
    match val {
        JsonValue::Null => string_of("null"),
        JsonValue::Bool(b) => if *b {
            string_of("true")
        } else {
            string_of("false")
        },
        JsonValue::Number(n) => n.to_text(),
        JsonValue::Str(s) => s.clone(),
        JsonValue::Array(_, t) => t.clone(),
        JsonValue::Object(t) => t.clone(),
    }
}


/// A JSON document as serde_json parses it, carried opaquely.
#[verifier::external_type_specification]
#[verifier::external_body]
pub struct ExJsonDocument(serde_json::Value);

/// What `serde_json::from_str::<serde_json::Value>` makes of a text, in the
/// library's model: `None` where the text is not valid JSON.
pub uninterp spec fn json_parse(text: Seq<char>) -> Option<JsonValue>;

/// `serde_json::from_str::<serde_json::Value>`, with the parsed document
/// turned into the library's model; the result is named by `json_parse`.
#[verifier::external_body]
pub fn parse_json(text: &str) -> (r: Option<JsonValue>)
    ensures
        r == json_parse(text@),
{
    match serde_json::from_str::<serde_json::Value>(text) {
        Ok(v) => Some(json_model(&v)),
        Err(_) => None,
    }
}

/// A serde_json value in the library's model, one arm per variant: a number
/// as `u64`, else `i64`, else its text; an array element by element with its
/// compact text; an object by its compact text.
#[verifier::external_body]
fn json_model(v: &serde_json::Value) -> JsonValue {
    match v {
        serde_json::Value::Null => JsonValue::Null,
        serde_json::Value::Bool(b) => JsonValue::Bool(*b),
        serde_json::Value::Number(n) => JsonValue::Number(match (n.as_u64(), n.as_i64()) {
            (Some(u), _) => JsonNumber::UInt(u),
            (None, Some(i)) => JsonNumber::Int(i),
            (None, None) => JsonNumber::Float(n.to_string()),
        }),
        serde_json::Value::String(s) => JsonValue::Str(s.clone()),
        serde_json::Value::Array(a) => JsonValue::Array(a.iter().map(json_model).collect(), v.to_string()),
        serde_json::Value::Object(_) => JsonValue::Object(v.to_string()),
    }
}

} // verus!
