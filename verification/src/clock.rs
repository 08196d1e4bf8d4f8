//! Time: instants read from and written as RFC 3339 text, the current time,
//! reminder times, and when an automatic backup is due.
use vstd::prelude::*;
use chrono::{DateTime, Datelike, Local, SecondsFormat, Timelike};
use std::time::{SystemTime, UNIX_EPOCH};
use crate::text::{owned, trim_text, trimmed};

verus! {

/// An instant as chrono counts it: whole seconds since 1970-01-01T00:00:00Z
/// (`DateTime::timestamp`) and the nanoseconds past that second
/// (`DateTime::timestamp_subsec_nanos`, at least 10^9 only inside a leap second).
#[derive(Clone, Copy, Debug, PartialEq, Eq)]
pub struct Timestamp {
    pub secs: i64,
    pub nanos: u32,
}

/// A reading of the system clock.
#[verifier::external_type_specification]
#[verifier::external_body]
pub struct ExSystemTime(SystemTime);

/// A local calendar date and wall-clock time, field by field.
#[derive(Clone, Copy, Debug, PartialEq, Eq)]
pub struct LocalDateTime {
    pub year: i32,
    pub month: u32,
    pub day: u32,
    pub hour: u32,
    pub minute: u32,
    pub second: u32,
}

/// What `DateTime::parse_from_rfc3339` reads from a text: the instant as
/// (timestamp, subsecond nanoseconds), or `None` when the text is rejected.
pub uninterp spec fn rfc3339_instant(text: Seq<char>) -> Option<(i64, u32)>;

/// The text `to_rfc3339_opts(SecondsFormat::Millis, true)` gives for the UTC
/// instant (timestamp, subsecond nanoseconds), or `None` when
/// `DateTime::from_timestamp` cannot represent that instant.
pub uninterp spec fn rfc3339_millis_text(secs: i64, nanos: u32) -> Option<Seq<char>>;

/// Calls `chrono::DateTime::parse_from_rfc3339` and reads the parsed instant
/// with `timestamp` and `timestamp_subsec_nanos`. The contract claims that the
/// result is `rfc3339_instant` of the text, and that a parsed instant can be
/// rebuilt by `DateTime::from_timestamp` (chrono documents that round trip),
/// so that it has an RFC 3339 text.
#[verifier::external_body]
pub(crate) fn parse_rfc3339(text: &str) -> (r: Option<(i64, u32)>)
    ensures
        r == rfc3339_instant(text@),
        r matches Some((s, n)) ==> rfc3339_millis_text(s, n) is Some,
{
    match DateTime::parse_from_rfc3339(text) {
        Ok(parsed) => Some((parsed.timestamp(), parsed.timestamp_subsec_nanos())),
        Err(_) => None,
    }
}

/// Calls `chrono::DateTime::from_timestamp` and, when it gives an instant,
/// `to_rfc3339_opts(SecondsFormat::Millis, true)` on it. The contract claims
/// that the result is `rfc3339_millis_text` of the arguments.
#[verifier::external_body]
pub(crate) fn format_rfc3339_millis(secs: i64, nanos: u32) -> (r: Option<String>)
    ensures
        match r {
            Some(t) => rfc3339_millis_text(secs, nanos) == Some(t@),
            None => rfc3339_millis_text(secs, nanos) is None,
        },
{
    match DateTime::from_timestamp(secs, nanos) {
        Some(instant) => Some(instant.to_rfc3339_opts(SecondsFormat::Millis, true)),
        None => None,
    }
}

/// Calls `std::time::SystemTime::now`. Nothing is claimed of the reading: it
/// is whatever the system clock says.
#[verifier::external_body]
fn system_time_now() -> SystemTime {
    SystemTime::now()
}

/// Calls `SystemTime::duration_since(UNIX_EPOCH)` and reads the duration with
/// `as_secs` and `subsec_nanos`. The contract claims what std documents of
/// `subsec_nanos`: the nanoseconds are a fraction of a second. `None` comes
/// back when the reading lies before the Unix epoch.
#[verifier::external_body]
fn since_unix_epoch(reading: &SystemTime) -> (r: Option<(u64, u32)>)
    ensures
        r matches Some((_, n)) ==> n < 1_000_000_000,
{
    match reading.duration_since(UNIX_EPOCH) {
        Ok(elapsed) => Some((elapsed.as_secs(), elapsed.subsec_nanos())),
        Err(_) => None,
    }
}

/// Calls `chrono::DateTime::from_timestamp` and, when it gives an instant,
/// `with_timezone(&Local)` on it, then reads the local date and time with the
/// `Datelike` and `Timelike` accessors. The contract claims that an instant
/// comes back exactly when `from_timestamp` accepts the arguments (the same
/// condition as for `rfc3339_millis_text`), and the ranges chrono documents
/// for the accessors. Which local time comes back depends on the machine's
/// time zone, so nothing more is claimed. Chrono looks the offset up only
/// for an instant that `from_timestamp` accepted.
#[verifier::external_body]
fn local_date_time_at(secs: i64, nanos: u32) -> (r: Option<LocalDateTime>)
    ensures
        r is Some <==> rfc3339_millis_text(secs, nanos) is Some,
        r matches Some(t) ==> valid_local_date_time(t),
{
    match DateTime::from_timestamp(secs, nanos) {
        Some(instant) => {
            let t = instant.with_timezone(&Local);
            Some(LocalDateTime {
                year: t.year(),
                month: t.month(),
                day: t.day(),
                hour: t.hour(),
                minute: t.minute(),
                second: t.second(),
            })
        },
        None => None,
    }
}

/// The current time from the system clock, or `None` when the clock reads
/// before 1970 or so far ahead that chrono cannot hold the instant.
pub fn utc_now() -> (r: Option<Timestamp>)
    ensures
        r matches Some(t) ==> rfc3339_millis_text(t.secs, t.nanos) is Some && t.nanos
            < 1_000_000_000,
{
    let reading = system_time_now();
    match since_unix_epoch(&reading) {
        None => None,
        Some((secs, nanos)) => {
            if secs > 9_223_372_036_854_775_807u64 {
                return None;
            }
            let secs = secs as i64;
            match format_rfc3339_millis(secs, nanos) {
                Some(_) => Some(Timestamp { secs, nanos }),
                None => None,
            }
        },
    }
}

/// The current local date and time, or `None` when `utc_now` has no reading.
pub fn local_now() -> (r: Option<LocalDateTime>)
    ensures
        r matches Some(t) ==> valid_local_date_time(t),
{
    match utc_now() {
        None => None,
        Some(now) => local_date_time_at(now.secs, now.nanos),
    }
}

/// The message given when the system clock cannot be read.
pub open spec fn clock_error() -> Seq<char> {
    "System clock could not be read"@
}

/// `clock_error`, as a `String`.
pub fn clock_error_text() -> (r: String)
    ensures
        r@ == clock_error(),
{
    owned("System clock could not be read")
}

/// The ranges of the fields of a calendar date and wall-clock time.
pub open spec fn valid_local_date_time(t: LocalDateTime) -> bool {
    &&& 1 <= t.month <= 12
    &&& 1 <= t.day <= 31
    &&& t.hour < 24
    &&& t.minute < 60
    &&& t.second < 60
}

/// The instant a pair from chrono stands for.
pub open spec fn instant(pair: (i64, u32)) -> Timestamp {
    Timestamp { secs: pair.0, nanos: pair.1 }
}

/// The current time as RFC 3339 text in UTC with milliseconds, such as
/// `2026-05-27T10:00:00.000Z`, or `None` when `utc_now` has no reading.
pub fn now_iso() -> (r: Option<String>)
    ensures
        r matches Some(text) ==> exists|s: i64, n: u32| rfc3339_millis_text(s, n) == Some(text@),
{
    match utc_now() {
        None => None,
        Some(now) => format_rfc3339_millis(now.secs, now.nanos),
    }
}

/// The stored form of a reminder time: nothing for no value or a blank one;
/// otherwise the trimmed text read as RFC 3339 and written again in UTC with
/// milliseconds; an error when the text is no RFC 3339 time.
pub open spec fn remind_at_form(value: Option<Seq<char>>) -> Result<Option<Seq<char>>, Seq<char>> {
    match value {
        None => Ok(None),
        Some(v) => {
            let t = trimmed(v);
            if t.len() == 0 {
                Ok(None)
            } else {
                match rfc3339_instant(t) {
                    None => Err("Reminder must be a valid date"@),
                    Some(pair) => Ok(rfc3339_millis_text(pair.0, pair.1)),
                }
            }
        },
    }
}

/// The view of an optional text.
pub open spec fn opt_view(value: Option<String>) -> Option<Seq<char>> {
    match value {
        Some(v) => Some(v@),
        None => None,
    }
}

/// The view of a result that carries an optional text or an error message.
pub open spec fn opt_result_view(r: Result<Option<String>, String>) -> Result<
    Option<Seq<char>>,
    Seq<char>,
> {
    match r {
        Ok(v) => Ok(opt_view(v)),
        Err(e) => Err(e@),
    }
}

/// Normalizes a reminder time to its stored form (see `remind_at_form`).
pub fn normalize_remind_at(value: Option<String>) -> (r: Result<Option<String>, String>)
    ensures
        opt_result_view(r) == remind_at_form(opt_view(value)),
{
    match value {
        None => Ok(None),
        Some(v) => {
            let t = trim_text(v.as_str());
            if t.as_str().unicode_len() == 0 {
                return Ok(None);
            }
            match parse_rfc3339(t.as_str()) {
                None => Err(owned("Reminder must be a valid date")),
                Some(pair) => match format_rfc3339_millis(pair.0, pair.1) {
                    Some(text) => Ok(Some(text)),
                    None => {
                        assert(false);
                        Ok(None)
                    },
                },
            }
        },
    }
}

/// Nanoseconds in a second.
pub open spec fn nanos_per_sec() -> int {
    1_000_000_000
}

/// How long after `earlier` the instant `later` comes, in nanoseconds, as
/// `DateTime::signed_duration_since` counts it: the difference of the
/// timestamps, where a leap second (nanoseconds of 10^9 or more) counts as a
/// second of its own against a later or earlier second of its day.
pub open spec fn elapsed_nanos(later: Timestamp, earlier: Timestamp) -> int {
    let base = (later.secs - earlier.secs) * nanos_per_sec() + (later.nanos - earlier.nanos);
    let a = later.secs % 86400;
    let b = earlier.secs % 86400;
    if a > b && earlier.nanos >= nanos_per_sec() {
        base + nanos_per_sec()
    } else if a < b && later.nanos >= nanos_per_sec() {
        base - nanos_per_sec()
    } else {
        base
    }
}

/// The time between two automatic backups, in seconds (a day).
pub const AUTOMATIC_BACKUP_INTERVAL_SECS: i64 = 86400;

/// Whether an automatic backup is due: never when automatic backups are off;
/// always when forced, when none was recorded or when the recorded time is no
/// RFC 3339 time; otherwise when a day or more has passed since it.
pub open spec fn backup_due_spec(
    enabled: bool,
    forced: bool,
    last: Option<Seq<char>>,
    now: Timestamp,
) -> bool {
    if !enabled {
        false
    } else if forced {
        true
    } else {
        match last {
            None => true,
            Some(text) => match rfc3339_instant(text) {
                None => true,
                Some(pair) => elapsed_nanos(now, instant(pair)) >= AUTOMATIC_BACKUP_INTERVAL_SECS
                    * nanos_per_sec(),
            },
        }
    }
}

/// `elapsed_nanos`, computed.
pub fn elapsed_nanos_between(later: Timestamp, earlier: Timestamp) -> (r: i128)
    ensures
        r == elapsed_nanos(later, earlier),
{
    let base: i128 = (later.secs as i128 - earlier.secs as i128) * 1_000_000_000i128 + (
    later.nanos as i128 - earlier.nanos as i128);
    let a: i64 = later.secs % 86400;
    let b: i64 = earlier.secs % 86400;
    let a = if a < 0 {
        a + 86400
    } else {
        a
    };
    let b = if b < 0 {
        b + 86400
    } else {
        b
    };
    assert(a == later.secs % 86400);
    assert(b == earlier.secs % 86400);
    if a > b && earlier.nanos >= 1_000_000_000 {
        base + 1_000_000_000
    } else if a < b && later.nanos >= 1_000_000_000 {
        base - 1_000_000_000
    } else {
        base
    }
}

/// Decides whether an automatic backup is due (see `backup_due_spec`), given
/// the current time.
pub fn backup_due(enabled: bool, forced: bool, last: Option<String>, now: Timestamp) -> (r: bool)
    ensures
        r == backup_due_spec(enabled, forced, opt_view(last), now),
{
    if !enabled {
        return false;
    }
    if forced {
        return true;
    }
    match last {
        None => true,
        Some(text) => match parse_rfc3339(text.as_str()) {
            None => true,
            Some(pair) => {
                let then = Timestamp { secs: pair.0, nanos: pair.1 };
                elapsed_nanos_between(now, then) >= 86400i128 * 1_000_000_000i128
            },
        },
    }
}

} // verus!
