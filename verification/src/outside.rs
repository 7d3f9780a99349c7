use vstd::prelude::*;

use crate::dates::{Date, DateTime, TimeOfDay, date_valid, datetime_valid};
use chrono::{Datelike, Timelike};

verus! {

// What serde_json hands back for a given document is a function of the
// bytes and the path asked for alone, but stating it in full would mean
// writing out a JSON parser. Each reading below therefore gets a name, and
// the one trusted item that applies it; everything downstream is verified
// against the names.

/// The string member of the top-level JSON object under `key`: `Some` of
/// its text exactly when the bytes parse as a JSON object whose member
/// `key` is a string, `None` otherwise.
pub uninterp spec fn json_top_str(body: Seq<u8>, key: Seq<char>) -> Option<Seq<u8>>;

/// The length of the array member of the top-level JSON object under
/// `key`, when the bytes parse as an object whose member `key` is an array.
pub uninterp spec fn json_array_len_of(body: Seq<u8>, key: Seq<char>) -> Option<int>;

/// The string member `field` of the `i`-th element of the array member
/// `key` of the top-level JSON object, when all of that holds of the bytes.
pub uninterp spec fn json_entry_str(body: Seq<u8>, key: Seq<char>, i: int, field: Seq<char>) -> Option<Seq<u8>>;

/// Relies on serde_json::from_slice and Value::get / Value::as_str: reads
/// one top-level string member of the JSON document.
#[verifier::external_body]
pub(crate) fn top_str_field(body: &Vec<u8>, key: &str) -> (r: Option<Vec<u8>>)
    ensures
        match r {
            Some(b) => json_top_str(body@, key@) == Some(b@),
            None => json_top_str(body@, key@) is None,
        },
{
    let v: serde_json::Value = serde_json::from_slice(body.as_slice()).ok()?;
    Some(v.get(key)?.as_str()?.as_bytes().to_vec())
}

/// Relies on serde_json::from_slice and Value::get / Value::as_array:
/// reads the length of one top-level array member of the JSON document.
#[verifier::external_body]
pub(crate) fn array_len_field(body: &Vec<u8>, key: &str) -> (r: Option<usize>)
    ensures
        match r {
            Some(n) => json_array_len_of(body@, key@) == Some(n as int),
            None => json_array_len_of(body@, key@) is None,
        },
{
    let v: serde_json::Value = serde_json::from_slice(body.as_slice()).ok()?;
    Some(v.get(key)?.as_array()?.len())
}

/// Relies on serde_json::from_slice, Value::get, slice::get and
/// Value::as_str: reads one string field of one element of a top-level
/// array member of the JSON document.
#[verifier::external_body]
pub(crate) fn entry_str_field(body: &Vec<u8>, key: &str, i: usize, field: &str) -> (r: Option<
    Vec<u8>,
>)
    ensures
        match r {
            Some(b) => json_entry_str(body@, key@, i as int, field@) == Some(b@),
            None => json_entry_str(body@, key@, i as int, field@) is None,
        },
{
    let v: serde_json::Value = serde_json::from_slice(body.as_slice()).ok()?;
    Some(v.get(key)?.as_array()?.get(i)?.get(field)?.as_str()?.as_bytes().to_vec())
}

/// Relies on chrono::Local::now: the current local calendar date. The year
/// is clamped into the four-digit range, to leap years at both edges so
/// that a February 29 stays a valid date, making the claim unconditional
/// on the system clock.
#[verifier::external_body]
pub(crate) fn local_today() -> (r: Date)
    ensures
        date_valid(r),
{
    let now = chrono::Local::now().date_naive();
    Date { year: now.year().clamp(4, 9996) as u16, month: now.month() as u8, day: now.day() as u8 }
}

/// Relies on chrono::Local::now: the current local time, as plain calendar
/// fields, always a valid timestamp. The year is clamped as in
/// `local_today`; the time fields are in range by chrono's own bounds.
#[verifier::external_body]
pub(crate) fn local_now() -> (r: DateTime)
    ensures
        datetime_valid(r),
{
    let now = chrono::Local::now().naive_local();
    DateTime {
        date: Date {
            year: now.year().clamp(4, 9996) as u16,
            month: now.month() as u8,
            day: now.day() as u8,
        },
        time: TimeOfDay {
            hour: now.hour() as u8,
            minute: now.minute() as u8,
            second: now.second() as u8,
        },
    }
}

} // verus!
