//! Instants and calendar dates.
//!
//! An instant is held as milliseconds since 1970-01-01T00:00:00Z (`i64`); a
//! calendar day as the number of days since 1970-01-01. Reading the text forms
//! is left to chrono.
use vstd::prelude::*;
use crate::calendar::{days_from_epoch, formatted_date_ymd};
use crate::text::{before_char, chars_of, find_char, string_from_chars, sub_chars};

verus! {

/// Milliseconds in one day.
pub const MILLIS_PER_DAY: i64 = 86_400_000;

/// The instant that chrono reads from an RFC 3339 text, as whole seconds
/// since the Unix epoch and the nanoseconds past that second, or `None`
/// where chrono rejects the text.
pub uninterp spec fn rfc3339_instant(s: Seq<char>) -> Option<(i64, u32)>;

/// The day (days since 1970-01-01) of the date that chrono reads from `s`
/// under the strftime format `fmt`, or `None` where chrono rejects the text.
pub open spec fn date_text_days(s: Seq<char>, fmt: Seq<char>) -> Option<int> {
    match formatted_date_ymd(s, fmt) {
        Some(t) => Some(days_from_epoch(t.0 as int, t.1 as int, t.2 as int)),
        None => None,
    }
}

/// chrono's `DateTime::parse_from_rfc3339`, the result taken as the instant
/// it denotes (`timestamp` and `timestamp_subsec_nanos`, keeping every
/// digit of the text). The contract only names the result.
#[verifier::external_body]
fn parse_rfc3339(s: &str) -> (r: Option<(i64, u32)>)
    ensures
        r == rfc3339_instant(s@),
{
    match chrono::DateTime::parse_from_rfc3339(s) {
        Ok(dt) => Some((dt.timestamp(), dt.timestamp_subsec_nanos())),
        Err(_) => None,
    }
}

/// chrono's `NaiveDate::parse_from_str`, the date taken as days since
/// 1970-01-01 (`to_epoch_days`). The contract names the date read, as the
/// wrapper of the same parse in the date picker does, and claims that the
/// count is that date's number of the proleptic Gregorian calendar.
#[verifier::external_body]
fn parse_date_epoch_days(s: &str, fmt: &str) -> (r: Option<i32>)
    ensures
        r matches Some(n) ==> date_text_days(s@, fmt@) == Some(n as int),
        r is None <==> date_text_days(s@, fmt@) is None,
{
    match chrono::NaiveDate::parse_from_str(s, fmt) {
        Ok(d) => Some(d.to_epoch_days()),
        Err(_) => None,
    }
}

/// The current instant from chrono's `Utc::now`. It depends on the clock, so
/// nothing is promised of it. `Utc::now` panics when the system clock reads
/// a time before 1970, a state of the machine that no argument can rule out.
#[verifier::external_body]
fn now_millis() -> i64 {
    chrono::Utc::now().timestamp_millis()
}

/// `s` with every trailing `c` removed (`str::trim_end_matches` with a char).
pub open spec fn trim_trailing(s: Seq<char>, c: char) -> Seq<char>
    decreases s.len(),
{
    if s.len() > 0 && s.last() == c {
        trim_trailing(s.drop_last(), c)
    } else {
        s
    }
}

/// The date part of a stored timestamp text: trailing `Z`s dropped, then
/// everything from the first `T` on.
pub open spec fn date_part(s: Seq<char>) -> Seq<char> {
    before_char(trim_trailing(s, 'Z'), 'T')
}

/// The instant at 00:00 UTC of day `days`.
pub open spec fn midnight_millis(days: int) -> int {
    days * MILLIS_PER_DAY
}

/// Seconds in one day.
pub const SECONDS_PER_DAY: i64 = 86_400;

/// What a stored timestamp text denotes, as (seconds since the Unix epoch,
/// nanoseconds past that second): an RFC 3339 instant where chrono reads
/// one, else midnight UTC of a `YYYY-MM-DD` date at the start of the text,
/// else nothing.
pub open spec fn parse_dt_spec(s: Seq<char>) -> Option<(int, int)> {
    match rfc3339_instant(s) {
        Some((secs, nanos)) => Some((secs as int, nanos as int)),
        None => match date_text_days(date_part(s), "%Y-%m-%d"@) {
            Some(d) => Some((d * SECONDS_PER_DAY as int, 0)),
            None => None,
        },
    }
}

/// Removes every trailing `c` from `v`.
pub fn trim_trailing_chars(v: &[char], c: char) -> (r: Vec<char>)
    ensures
        r@ == trim_trailing(v@, c),
{
    let mut end: usize = v.len();
    proof {
        assert(v@.take(end as int) =~= v@);
    }
    while end > 0 && v[end - 1] == c
        invariant
            end <= v@.len(),
            trim_trailing(v@.take(end as int), c) == trim_trailing(v@, c),
        decreases end,
    {
        proof {
            assert(v@.take(end as int).drop_last() =~= v@.take(end - 1));
        }
        end = end - 1;
    }
    sub_chars(v, 0, end)
}

/// Reads a stored timestamp text: RFC 3339 first, then a leading
/// `YYYY-MM-DD` date at midnight UTC. The result is (seconds since the Unix
/// epoch, nanoseconds past that second).
pub fn parse_dt(s: &str) -> (r: Option<(i64, u32)>)
    ensures
        match r {
            Some((secs, nanos)) => parse_dt_spec(s@) == Some((secs as int, nanos as int)),
            None => parse_dt_spec(s@) is None,
        },
{
    if let Some(t) = parse_rfc3339(s) {
        return Some(t);
    }
    let cs = chars_of(s);
    let trimmed = trim_trailing_chars(cs.as_slice(), 'Z');
    let k = find_char(trimmed.as_slice(), 'T');
    let head_chars = sub_chars(trimmed.as_slice(), 0, k);
    let head = string_from_chars(head_chars.as_slice());
    proof {
        assert(trimmed@.subrange(0, k as int) =~= trimmed@.take(k as int));
        assert(head@ == date_part(s@));
    }
    let fmt = "%Y-%m-%d";
    match parse_date_epoch_days(head.as_str(), fmt) {
        Some(d) => {
            let secs: i64 = (d as i64) * SECONDS_PER_DAY;
            Some((secs, 0))
        },
        None => None,
    }
}

/// Reads a `YYYY-MM-DD` text as midnight UTC of that date; an empty text or
/// one chrono rejects gives `None`.
pub fn parse_date_text(s: &str) -> (r: Option<i64>)
    ensures
        match r {
            Some(ms) => s@.len() > 0 && (date_text_days(s@, "%Y-%m-%d"@) matches Some(d)
                && ms == midnight_millis(d)),
            None => s@.len() == 0 || date_text_days(s@, "%Y-%m-%d"@) is None,
        },
{
    let cs = chars_of(s);
    if cs.len() == 0 {
        return None;
    }
    match parse_date_epoch_days(s, "%Y-%m-%d") {
        Some(d) => Some((d as i64) * MILLIS_PER_DAY),
        None => None,
    }
}

/// What a date in a journal export denotes, as (seconds since the Unix
/// epoch, nanoseconds past that second): an RFC 3339 instant where chrono
/// reads one, else midnight UTC of a `YYYY-MM-DD` date in the first ten
/// characters, else nothing.
pub open spec fn export_date_spec(s: Seq<char>) -> Option<(int, int)> {
    match rfc3339_instant(s) {
        Some((secs, nanos)) => Some((secs as int, nanos as int)),
        None => if s.len() >= 10 {
            match date_text_days(s.take(10), "%Y-%m-%d"@) {
                Some(d) => Some((d * SECONDS_PER_DAY as int, 0)),
                None => None,
            }
        } else {
            None
        },
    }
}

/// Reads a date of a journal export: RFC 3339 first, then a `YYYY-MM-DD`
/// date in its first ten characters at midnight UTC.
pub fn parse_export_date(s: &str) -> (r: Option<(i64, u32)>)
    ensures
        match r {
            Some((secs, nanos)) => export_date_spec(s@) == Some((secs as int, nanos as int)),
            None => export_date_spec(s@) is None,
        },
{
    if let Some(t) = parse_rfc3339(s) {
        return Some(t);
    }
    let cs = chars_of(s);
    if cs.len() < 10 {
        return None;
    }
    let head_chars = sub_chars(cs.as_slice(), 0, 10);
    let head = string_from_chars(head_chars.as_slice());
    proof {
        assert(head@ =~= s@.take(10));
    }
    match parse_date_epoch_days(head.as_str(), "%Y-%m-%d") {
        Some(d) => Some(((d as i64) * SECONDS_PER_DAY, 0)),
        None => None,
    }
}

/// The day (days since 1970-01-01, UTC) that instant `ms` falls on.
pub open spec fn day_of(ms: int) -> int {
    ms / (MILLIS_PER_DAY as int)
}

/// Whole calendar days from the day of `now_ms` to the day of `exp_ms`,
/// never below zero.
pub open spec fn remaining_days_spec(exp_ms: int, now_ms: int) -> int {
    let d = day_of(exp_ms) - day_of(now_ms);
    if d > 0 { d } else { 0 }
}

/// The day an instant falls on.
pub fn epoch_day(ms: i64) -> (d: i64)
    ensures
        d == day_of(ms as int),
{
    match ms.checked_div_euclid(MILLIS_PER_DAY) {
        Some(q) => q,
        None => 0,
    }
}

/// Calendar days left until expiration as seen at instant `now_ms`
/// (clamped to zero).
pub fn remaining_days(exp_ms: i64, now_ms: i64) -> (r: i64)
    ensures
        r == remaining_days_spec(exp_ms as int, now_ms as int),
        r >= 0,
{
    let e = epoch_day(exp_ms);
    let n = epoch_day(now_ms);
    proof {
        assert(-106_751_991_168 <= e <= 106_751_991_168) by (nonlinear_arith)
            requires e == (exp_ms as int) / 86_400_000int;
        assert(-106_751_991_168 <= n <= 106_751_991_168) by (nonlinear_arith)
            requires n == (now_ms as int) / 86_400_000int;
    }
    let d = e - n;
    if d > 0 { d } else { 0 }
}

/// Calendar days left until the expiration instant `expiration_ms`, counted
/// from today (UTC) by the system clock; never below zero. Which instant the
/// clock gives is not known here, so the result is the count from some
/// instant.
pub fn calculate_remaining_dte(expiration_ms: i64) -> (r: i64)
    ensures
        r >= 0,
        exists|now: i64| #[trigger] remaining_days_spec(expiration_ms as int, now as int) == r,
{
    let now = now_millis();
    remaining_days(expiration_ms, now)
}

} // verus!
