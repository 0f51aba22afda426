//! Normalisation of "slot or time" inputs, so that equal requests look equal.

use vstd::prelude::*;
use vstd::string::*;
use crate::text::{parse_u64, parse_u64_spec, trim, trimmed};

verus! {

/// Why an input was refused. Each variant names the refused value.
#[derive(Clone, Debug)]
pub enum NormalizeError {
    InvalidSlot(String),
    InvalidTime(String),
}

/// The mathematical value of a [`NormalizeError`].
pub enum NormalizeErrorView {
    InvalidSlot(Seq<char>),
    InvalidTime(Seq<char>),
}

impl View for NormalizeError {
    type V = NormalizeErrorView;

    open spec fn view(&self) -> NormalizeErrorView {
        match *self {
            NormalizeError::InvalidSlot(s) => NormalizeErrorView::InvalidSlot(s@),
            NormalizeError::InvalidTime(s) => NormalizeErrorView::InvalidTime(s@),
        }
    }
}

impl NormalizeError {
    /// The error in words.
    pub fn message(&self) -> (r: String)
        ensures
            r@ == match self@ {
                NormalizeErrorView::InvalidSlot(s) => "invalid slot: "@ + s,
                NormalizeErrorView::InvalidTime(s) => "invalid time: "@ + s,
            },
    {
        match self {
            NormalizeError::InvalidSlot(s) => String::from_str("invalid slot: ").concat(s.as_str()),
            NormalizeError::InvalidTime(s) => String::from_str("invalid time: ").concat(s.as_str()),
        }
    }
}

/// The Unix time, in seconds, that `s` denotes when read as an RFC 3339
/// timestamp by the `time` crate, if it is one: date, time of day and UTC
/// offset, all three.
pub uninterp spec fn rfc3339_unix_seconds(s: Seq<char>) -> Option<i64>;

/// Calls `time::OffsetDateTime::parse` with the `Rfc3339` description, then
/// `unix_timestamp` on what was parsed: `None` where the parser refuses `s`.
#[verifier::external_body]
fn rfc3339_to_unix(s: &str) -> (r: Option<i64>)
    ensures
        r == rfc3339_unix_seconds(s@),
{
    match time::OffsetDateTime::parse(s, &time::format_description::well_known::Rfc3339) {
        Ok(t) => Some(t.unix_timestamp()),
        Err(_) => None,
    }
}

/// What an input is once it has been read as a slot number.
pub open spec fn slot_of(s: Seq<char>) -> Result<u64, NormalizeErrorView> {
    match parse_u64_spec(trimmed(s)) {
        Some(n) => Ok(n),
        None => Err(NormalizeErrorView::InvalidSlot(s)),
    }
}

/// What an input is once the timestamp parser has answered `parsed` for it.
pub open spec fn time_of(s: Seq<char>, parsed: Option<i64>) -> Result<i64, NormalizeErrorView> {
    match parsed {
        Some(t) => Ok(t),
        None => Err(NormalizeErrorView::InvalidTime(s)),
    }
}

/// What a "slot or time" input normalises to.
pub open spec fn normalized(input: Seq<char>) -> Result<(Option<u64>, Option<i64>), NormalizeErrorView> {
    let s = trimmed(input);
    if s.len() == 0 {
        Ok((None, None))
    } else {
        match parse_u64_spec(s) {
            Some(n) => Ok((Some(n), None)),
            None => match time_of(s, rfc3339_unix_seconds(trimmed(s))) {
                Ok(t) => Ok((None, Some(t))),
                Err(e) => Err(e),
            },
        }
    }
}

/// The view of a result whose error is a [`NormalizeError`].
pub open spec fn outcome<T>(r: Result<T, NormalizeError>) -> Result<T, NormalizeErrorView> {
    match r {
        Ok(v) => Ok(v),
        Err(e) => Err(e@),
    }
}

/// Reads a slot number: a decimal integer, whitespace around it ignored.
pub fn parse_slot(s: &str) -> (r: Result<u64, NormalizeError>)
    ensures
        outcome(r) == slot_of(s@),
{
    match parse_u64(trim(s)) {
        Some(n) => Ok(n),
        None => Err(NormalizeError::InvalidSlot(String::from_str(s))),
    }
}

/// Turns the answer of the timestamp parser for `s` into a result: the Unix
/// time that was parsed, or an error that names `s`.
pub fn time_result(s: &str, parsed: Option<i64>) -> (r: Result<i64, NormalizeError>)
    ensures
        outcome(r) == time_of(s@, parsed),
{
    match parsed {
        Some(t) => Ok(t),
        None => Err(NormalizeError::InvalidTime(String::from_str(s))),
    }
}

/// Reads an RFC 3339 timestamp, whitespace around it ignored, and returns its
/// Unix time in seconds.
pub fn parse_time_rfc3339(s: &str) -> (r: Result<i64, NormalizeError>)
    ensures
        outcome(r) == time_of(s@, rfc3339_unix_seconds(trimmed(s@))),
{
    time_result(s, rfc3339_to_unix(trim(s)))
}

/// Normalises a "slot or time" input to `(slot, unix time)`.
///
/// Empty or blank input gives neither. Input that reads as an unsigned decimal
/// integer is a slot. Anything else has to be an RFC 3339 timestamp and gives
/// its Unix time; if it is not, the error names the trimmed input. The two
/// are never both set.
pub fn normalize_slot_time(slot_or_time: &str) -> (r: Result<(Option<u64>, Option<i64>), NormalizeError>)
    ensures
        outcome(r) == normalized(slot_or_time@),
        r matches Ok((slot, unix_ts)) ==> !(slot is Some && unix_ts is Some),
{
    let s = trim(slot_or_time);
    if s.unicode_len() == 0 {
        return Ok((None, None));
    }
    if let Some(slot) = parse_u64(s) {
        return Ok((Some(slot), None));
    }
    match parse_time_rfc3339(s) {
        Ok(ts) => Ok((None, Some(ts))),
        Err(e) => Err(e),
    }
}

} // verus!
