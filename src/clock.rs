//! Instants, local calendar days, and the chrono calls that parse and label them.
use vstd::prelude::*;
use chrono::{DateTime, FixedOffset, Local, NaiveDate};

verus! {

pub const SECONDS_PER_DAY: i64 = 86400;

/// Earliest instant (seconds since the Unix epoch) that an RFC 3339 timestamp
/// can denote: the year 0000 with the largest offset east of UTC.
pub const MIN_INSTANT: i64 = -62_200_000_000;

/// Latest instant that an RFC 3339 timestamp can denote: the year 9999 with
/// the largest offset west of UTC.
pub const MAX_INSTANT: i64 = 253_500_000_000;

/// Days between 0001-01-01 (day 1 of the common era) and 1970-01-01.
pub const EPOCH_DAY_FROM_CE: i64 = 719_163;

/// Shift that makes every local time of an instant in range non-negative,
/// as a whole number of days.
const SHIFT_DAYS: i64 = 800_000;

pub open spec fn instant_in_range(t: int) -> bool {
    MIN_INSTANT <= t <= MAX_INSTANT
}

/// A UTC offset that chrono's `FixedOffset` can hold.
pub open spec fn offset_in_range(o: int) -> bool {
    -86400 < o < 86400
}

/// The local calendar day (days since 1970-01-01) of an instant, seen at a
/// given offset from UTC.
pub open spec fn day_of(instant: int, offset: int) -> int {
    (instant + offset) / 86400
}

/// What chrono's RFC 3339 parser makes of a text: the instant it denotes.
pub uninterp spec fn rfc3339_instant(s: Seq<char>) -> Option<int>;

/// How chrono writes an instant at an offset as `%a. %b. %d %l:%M %p`.
pub uninterp spec fn time_label(instant: int, offset: int) -> Seq<char>;

/// How chrono writes a calendar day, counted from 0001-01-01 as day 1, as `%a. %b. %d`.
pub uninterp spec fn day_label(days_from_ce: int) -> Seq<char>;

/// Relies on `chrono::DateTime::parse_from_rfc3339`, read as seconds since the
/// epoch by `DateTime::timestamp`. The grammar has a four-digit year and an
/// offset under a day, so a parsed instant lies in range.
#[verifier::external_body]
pub(crate) fn parse_instant(s: &str) -> (r: Option<i64>)
    ensures
        r matches Some(t) ==> rfc3339_instant(s@) == Some(t as int) && instant_in_range(t as int),
        r is None ==> rfc3339_instant(s@) is None,
{
    match DateTime::parse_from_rfc3339(s) {
        Ok(t) => Some(t.timestamp()),
        Err(_) => None,
    }
}

/// Relies on chrono's `Local` time zone: the offset from UTC in force on this
/// machine at the instant, which chrono keeps as a `FixedOffset`.
#[verifier::external_body]
pub(crate) fn local_offset_at(instant: i64) -> (r: i32)
    requires
        instant_in_range(instant as int),
    ensures
        offset_in_range(r as int),
{
    let utc = DateTime::from_timestamp(instant, 0).unwrap();
    utc.with_timezone(&Local).offset().local_minus_utc()
}

/// Relies on chrono's `DateTime::format` with `%a. %b. %d %l:%M %p`, on the
/// instant seen through `FixedOffset::east_opt(offset)`.
#[verifier::external_body]
pub(crate) fn format_time(instant: i64, offset: i32) -> (r: String)
    requires
        instant_in_range(instant as int),
        offset_in_range(offset as int),
    ensures
        r@ == time_label(instant as int, offset as int),
{
    let zone = FixedOffset::east_opt(offset).unwrap();
    let utc = DateTime::from_timestamp(instant, 0).unwrap();
    utc.with_timezone(&zone).format("%a. %b. %d %l:%M %p").to_string()
}

/// Relies on chrono's `NaiveDate::from_num_days_from_ce_opt` and
/// `NaiveDate::format` with `%a. %b. %d`.
#[verifier::external_body]
pub(crate) fn format_day(days_from_ce: i32) -> (r: String)
    requires
        -1_000_000 <= days_from_ce <= 4_000_000,
    ensures
        r@ == day_label(days_from_ce as int),
{
    let date = NaiveDate::from_num_days_from_ce_opt(days_from_ce).unwrap();
    date.format("%a. %b. %d").to_string()
}

/// The local calendar day of `instant` at `offset`, rounding towards the past
/// also before the epoch.
pub fn local_day(instant: i64, offset: i32) -> (r: i64)
    requires
        instant_in_range(instant as int),
        offset_in_range(offset as int),
    ensures
        r == day_of(instant as int, offset as int),
{
    let shifted: u64 = (instant + offset as i64 + SHIFT_DAYS * SECONDS_PER_DAY) as u64;
    let q: u64 = shifted / 86400;
    let rem: u64 = shifted % 86400;
    proof {
        vstd::arithmetic::div_mod::lemma_fundamental_div_mod(shifted as int, 86400);
        vstd::arithmetic::div_mod::lemma_fundamental_div_mod_converse(
            instant + offset,
            86400,
            q - SHIFT_DAYS,
            rem as int,
        );
    }
    q as i64 - SHIFT_DAYS
}

/// Today's local calendar day on this machine, for the current instant `now`.
pub fn today_at(now: i64) -> (r: i64)
    requires
        instant_in_range(now as int),
    ensures
        exists|o: int| offset_in_range(o) && r == day_of(now as int, o),
{
    let offset = local_offset_at(now);
    local_day(now, offset)
}

} // verus!
