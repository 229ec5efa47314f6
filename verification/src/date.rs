//! Date bucketing: every attendance event is assigned one canonical
//! `YYYY-MM-DD` day key. The fallback chain is fixed: an explicit start
//! time if it parses as RFC 3339, else the trailing token of the
//! formatted-date field, else the caller's current UTC date.

use vstd::prelude::*;

use crate::models::QuizRecord;
use crate::text::{last_token, last_token_spec};

verus! {

/// The day an RFC 3339 timestamp names, rendered `%Y-%m-%d` in the
/// timestamp's own offset; `None` when the string does not parse.
pub uninterp spec fn rfc3339_day(s: Seq<char>) -> Option<Seq<char>>;

/// Relies on chrono's `DateTime::parse_from_rfc3339` and the `%Y-%m-%d`
/// formatting of the parsed value: which strings parse, and what day each
/// renders to, depend on the input characters alone.
#[verifier::external_body]
fn parse_rfc3339_day(s: &str) -> (r: Option<String>)
    ensures
        match (r, rfc3339_day(s@)) {
            (Some(d), Some(m)) => d@ == m,
            (None, None) => true,
            _ => false,
        },
{
    match chrono::DateTime::parse_from_rfc3339(s) {
        Ok(dt) => Some(dt.format("%Y-%m-%d").to_string()),
        Err(_) => None,
    }
}

/// The day key of an event whose start time is missing or unparseable:
/// the trailing token of its formatted date, else `today`.
pub open spec fn fallback_bucket(r: QuizRecord, today: Seq<char>) -> Seq<char> {
    match r.date_formatted {
        Some(df) => match last_token_spec(df@) {
            Some(t) => t,
            None => today,
        },
        None => today,
    }
}

/// The day key of one event: its start time if that parses as RFC 3339,
/// else the trailing token of its formatted date, else `today`.
pub open spec fn bucket_of(r: QuizRecord, today: Seq<char>) -> Seq<char> {
    match r.start_time {
        Some(st) => match rfc3339_day(st@) {
            Some(d) => d,
            None => fallback_bucket(r, today),
        },
        None => fallback_bucket(r, today),
    }
}

/// The formatted-date leg of the fallback chain.
fn classify_fallback(record: &QuizRecord, today: &String) -> (r: String)
    ensures
        r@ == fallback_bucket(*record, today@),
{
    match &record.date_formatted {
        Some(df) => match last_token(df.as_str()) {
            Some(t) => t,
            None => today.clone(),
        },
        None => today.clone(),
    }
}

/// Assigns `record` its canonical day key, `today` being the current UTC
/// date the caller read.
pub fn classify_date(record: &QuizRecord, today: &String) -> (r: String)
    ensures
        r@ == bucket_of(*record, today@),
{
    match &record.start_time {
        Some(st) => match parse_rfc3339_day(st.as_str()) {
            Some(d) => d,
            None => classify_fallback(record, today),
        },
        None => classify_fallback(record, today),
    }
}

} // verus!
