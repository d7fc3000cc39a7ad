//! Wrappers around the system clock, through the `chrono` crate.
//!
//! Every value here depends on the moment of the call, so the contracts
//! state only what holds of every outcome.

use vstd::prelude::*;
use std::fmt::Write;

verus! {

/// Relies on `chrono::Utc::now` and the `Datelike` accessors: the returned
/// month is in `1..=12` and the day in `1..=31`.
#[verifier::external_body]
pub(crate) fn now_ymd() -> (r: (u32, u32, u32))
    ensures
        1 <= r.1 <= 12,
        1 <= r.2 <= 31,
{
    let now = chrono::Utc::now();
    (
        chrono::Datelike::year(&now) as u32,
        chrono::Datelike::month(&now),
        chrono::Datelike::day(&now),
    )
}

/// Relies on chrono's rendering of `Utc::now` with `%Y%m%d%H%M%S`: each
/// field is zero-padded to a fixed width, the year to at least four digits.
#[verifier::external_body]
pub(crate) fn now_stamp14() -> (r: String)
    ensures
        r@.len() >= 14,
{
    chrono::Utc::now().format("%Y%m%d%H%M%S").to_string()
}

/// Relies on chrono's rendering of `Utc::now` with `%Y-%m-%dT%H:%M:%S`.
#[verifier::external_body]
pub(crate) fn now_datetime19() -> (r: String)
    ensures
        r@.len() >= 19,
{
    chrono::Utc::now().format("%Y-%m-%dT%H:%M:%S").to_string()
}

/// Relies on `chrono::Utc::now().timestamp()`: the seconds since the Unix
/// epoch, rendered in decimal.
#[verifier::external_body]
pub(crate) fn now_unix_string() -> (r: String)
    ensures
        r@.len() >= 1,
{
    chrono::Utc::now().timestamp().to_string()
}

/// Relies on `chrono::Utc::now().timestamp_millis()`: the milliseconds
/// since the Unix epoch, rendered in decimal.
#[verifier::external_body]
pub(crate) fn now_unix_ms_string() -> (r: String)
    ensures
        r@.len() >= 1,
{
    chrono::Utc::now().timestamp_millis().to_string()
}

/// Relies on `chrono::DateTime::to_rfc3339` on `Utc::now`.
#[verifier::external_body]
pub(crate) fn now_iso() -> (r: String)
    ensures
        r@.len() >= 1,
{
    chrono::Utc::now().to_rfc3339()
}

/// Relies on chrono's free-form date formatting of `Utc::now`; a format
/// string chrono cannot render yields the empty string instead.
#[verifier::external_body]
pub(crate) fn now_formatted(fmt: &str) -> String {
    let mut out = String::new();
    match write!(out, "{}", chrono::Utc::now().format(fmt)) {
        Ok(()) => out,
        Err(_) => String::new(),
    }
}

} // verus!
