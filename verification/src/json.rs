//! The pieces of JSON text from which the canonical texts are put together.
//!
//! Strings and numbers are written by `serde_json`; the texts around them are
//! fixed by this crate.
use vstd::prelude::*;
use vstd::string::*;

verus! {

/// The JSON string literal for a text, quotes and escapes included.
pub uninterp spec fn json_string_text(text: Seq<char>) -> Seq<char>;

/// The JSON number for a time of `nanos` nanoseconds, in seconds.
pub uninterp spec fn json_seconds_text(nanos: u64) -> Seq<char>;

/// The decimal digit of a value below ten.
pub open spec fn decimal_digit(value: nat) -> char {
    seq!['0', '1', '2', '3', '4', '5', '6', '7', '8', '9'][value as int]
}

/// The decimal text of a number, without leading zeros.
pub open spec fn decimal_text(value: nat) -> Seq<char>
    decreases value,
{
    if value < 10 {
        seq![decimal_digit(value)]
    } else {
        decimal_text(value / 10).push(decimal_digit(value % 10))
    }
}

/// The JSON text for an optional string: the literal, or `null`.
pub open spec fn json_optional_string_text(text: Option<Seq<char>>) -> Seq<char> {
    match text {
        Some(text) => json_string_text(text),
        None => "null"@,
    }
}

/// `serde_json::Value`'s `Display` for a JSON string: the text as a JSON
/// string literal.
#[verifier::external_body]
pub(crate) fn json_string(text: &str) -> (out: String)
    ensures
        out@ == json_string_text(text@),
{
    serde_json::Value::String(text.to_owned()).to_string()
}

/// `serde_json::Value`'s `Display` for an unsigned number: its decimal
/// digits.
#[verifier::external_body]
pub(crate) fn json_unsigned(value: u64) -> (out: String)
    ensures
        out@ == decimal_text(value as nat),
{
    serde_json::Value::from(value).to_string()
}

/// `serde_json::Value`'s `Display` for the double that
/// `std::time::Duration::as_secs_f64` gives for `nanos` nanoseconds.
#[verifier::external_body]
pub(crate) fn json_seconds(nanos: u64) -> (out: String)
    ensures
        out@ == json_seconds_text(nanos),
{
    serde_json::Value::from(std::time::Duration::from_nanos(nanos).as_secs_f64()).to_string()
}

/// The JSON text for an optional string.
pub fn json_optional_string(text: &Option<String>) -> (out: String)
    ensures
        out@ == json_optional_string_text(
            match *text {
                Some(t) => Some(t@),
                None => None,
            },
        ),
{
    match text {
        Some(t) => json_string(t.as_str()),
        None => String::from_str("null"),
    }
}

} // verus!
