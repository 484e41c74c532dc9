//! Fresh identifiers and timestamps.

use vstd::prelude::*;

use chrono::Datelike;

verus! {

/// A fresh random UUID (version 4) in its hyphenated text form, by `uuid::Uuid::new_v4`
/// and its `Display`. The hyphenated form is always 36 characters long; which UUID
/// comes out is random and is not stated.
#[verifier::external_body]
pub(crate) fn new_uuid() -> (id: String)
    ensures
        id@.len() == 36,
{
    uuid::Uuid::new_v4().to_string()
}

/// The current UTC time in RFC 3339 form, by `chrono::Utc::now().to_rfc3339()`.
/// The time depends on the clock, so nothing is stated of the text.
#[verifier::external_body]
pub(crate) fn now_rfc3339() -> (t: String)
{
    chrono::Utc::now().to_rfc3339()
}

/// The calendar date (year, month, day) that `chrono::NaiveDateTime::parse_from_str`
/// reads from a text with a format, or `None` where it fails.
pub uninterp spec fn naive_datetime_parse(text: Seq<char>, fmt: Seq<char>) -> Option<(i32, u32, u32)>;

/// The calendar date that `chrono::NaiveDate::parse_from_str` reads from a text with a
/// format, or `None` where it fails.
pub uninterp spec fn naive_date_parse(text: Seq<char>, fmt: Seq<char>) -> Option<(i32, u32, u32)>;

/// Parses a date and time by `chrono::NaiveDateTime::parse_from_str` and keeps its
/// date. The result is named, not stated; chrono documents that a month is in 1..=12
/// and a day in 1..=31.
#[verifier::external_body]
pub(crate) fn parse_naive_datetime(text: &str, fmt: &str) -> (r: Option<(i32, u32, u32)>)
    ensures
        r == naive_datetime_parse(text@, fmt@),
        r matches Some((y, m, d)) ==> 1 <= m <= 12 && 1 <= d <= 31,
{
    match chrono::NaiveDateTime::parse_from_str(text, fmt) {
        Ok(dt) => Some((dt.year(), dt.month(), dt.day())),
        Err(_) => None,
    }
}

/// Parses a date by `chrono::NaiveDate::parse_from_str`. The result is named, not
/// stated; chrono documents that a month is in 1..=12 and a day in 1..=31.
#[verifier::external_body]
pub(crate) fn parse_naive_date(text: &str, fmt: &str) -> (r: Option<(i32, u32, u32)>)
    ensures
        r == naive_date_parse(text@, fmt@),
        r matches Some((y, m, d)) ==> 1 <= m <= 12 && 1 <= d <= 31,
{
    match chrono::NaiveDate::parse_from_str(text, fmt) {
        Ok(d) => Some((d.year(), d.month(), d.day())),
        Err(_) => None,
    }
}

} // verus!
