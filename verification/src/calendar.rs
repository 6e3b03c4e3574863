//! Calendar phase features derived from UTC timestamps.
//!
//! The model consumes two periodic encodings of a sample's position in time:
//! its day of year (1–366) and its minute of day (0–1439). Both are defined
//! here over the proleptic Gregorian calendar in UTC; the resolution of a
//! timestamp to a calendar instant is delegated to the `chrono` crate behind
//! a single trusted wrapper whose result is pinned to the specifications
//! below.

use chrono::Datelike;
use chrono::Timelike;
use vstd::arithmetic::div_mod::lemma_div_is_ordered;
use vstd::arithmetic::div_mod::lemma_div_pos_is_pos;
use vstd::arithmetic::div_mod::lemma_fundamental_div_mod;
use vstd::arithmetic::div_mod::lemma_fundamental_div_mod_converse;
use vstd::arithmetic::div_mod::lemma_mod_add_multiples_vanish;
use vstd::arithmetic::div_mod::lemma_mod_bound;
use vstd::prelude::*;

use crate::errors::PredictionError;

verus! {

/// Smallest Unix timestamp (in seconds) that resolves to a calendar instant:
/// 00:00:00 on January 1 of year -262143.
pub const MIN_CALENDAR_TIMESTAMP: i64 = -8334601228800;

/// Largest Unix timestamp (in seconds) that resolves to a calendar instant:
/// 23:59:59 on December 31 of year 262142.
pub const MAX_CALENDAR_TIMESTAMP: i64 = 8210266876799;

/// `ts` can be resolved to a calendar instant.
pub open spec fn in_calendar_range(ts: int) -> bool {
    MIN_CALENDAR_TIMESTAMP <= ts <= MAX_CALENDAR_TIMESTAMP
}

/// A year has 366 days exactly when the proleptic Gregorian leap rule says so.
pub open spec fn is_leap_year(y: int) -> bool {
    y % 4 == 0 && (y % 100 != 0 || y % 400 == 0)
}

/// Number of days in year `y`.
pub open spec fn days_in_year(y: int) -> int {
    if is_leap_year(y) {
        366
    } else {
        365
    }
}

/// Days from 1970-01-01 to January 1 of year `y` in the proleptic Gregorian
/// calendar (negative for years before 1970).
pub open spec fn days_before_year(y: int) -> int {
    365 * (y - 1) + (y - 1) / 4 - (y - 1) / 100 + (y - 1) / 400 - 719162
}

/// The calendar day (counted from 1970-01-01 as day 0) that second `ts` of
/// the Unix epoch falls on.
pub open spec fn epoch_day_of(ts: int) -> int {
    ts / 86400
}

/// The second of the day (0–86399) that `ts` falls on.
pub open spec fn second_of_day(ts: int) -> int {
    ts % 86400
}

/// Day `day` (counted from the epoch) lies within year `y`.
pub open spec fn starts_year(day: int, y: int) -> bool {
    days_before_year(y) <= day < days_before_year(y + 1)
}

/// Some proleptic Gregorian year contains the day of `ts`. This holds of
/// every timestamp a successful calendar resolution has vouched for.
pub open spec fn has_civil_year(ts: int) -> bool {
    exists|y: int| starts_year(epoch_day_of(ts), y)
}

/// The proleptic Gregorian year containing `ts`.
pub open spec fn year_of(ts: int) -> int {
    choose|y: int| starts_year(epoch_day_of(ts), y)
}

/// Day of year of `ts`, from 1 (January 1) to at most 366.
pub open spec fn day_of_year_of(ts: int) -> int {
    epoch_day_of(ts) - days_before_year(year_of(ts)) + 1
}

/// Minute of day of `ts`, from 0 (00:00 UTC) to 1439 (23:59 UTC).
pub open spec fn minute_of_day_of(ts: int) -> int {
    second_of_day(ts) / 60
}

/// Incrementing the dividend bumps the quotient exactly at multiples of the
/// divisor.
proof fn lemma_div_succ(x: int, d: int)
    requires
        d > 0,
    ensures
        (x + 1) % d == 0 ==> (x + 1) / d == x / d + 1,
        (x + 1) % d != 0 ==> (x + 1) / d == x / d && (x + 1) % d == x % d + 1,
{
    lemma_fundamental_div_mod(x, d);
    lemma_mod_bound(x, d);
    let q = x / d;
    let r = x % d;
    if r == d - 1 {
        assert((q + 1) * d == q * d + d) by (nonlinear_arith);
        assert(d * q == q * d) by (nonlinear_arith);
        lemma_fundamental_div_mod_converse(x + 1, d, q + 1, 0);
    } else {
        assert(d * q == q * d) by (nonlinear_arith);
        lemma_fundamental_div_mod_converse(x + 1, d, q, r + 1);
    }
}

/// Divisibility by 400 implies divisibility by 100, and by 100 implies by 4.
proof fn lemma_leap_divisor_chain(y: int)
    ensures
        y % 400 == 0 ==> y % 100 == 0,
        y % 100 == 0 ==> y % 4 == 0,
{
    if y % 400 == 0 {
        lemma_fundamental_div_mod(y, 400);
        lemma_fundamental_div_mod_converse(y, 100, 4 * (y / 400), 0);
    }
    if y % 100 == 0 {
        lemma_fundamental_div_mod(y, 100);
        lemma_fundamental_div_mod_converse(y, 4, 25 * (y / 100), 0);
    }
}

/// January 1 of consecutive years lies exactly one (leap or common) year
/// apart.
pub proof fn lemma_days_before_year_succ(y: int)
    ensures
        days_before_year(y + 1) == days_before_year(y) + days_in_year(y),
{
    lemma_div_succ(y - 1, 4);
    lemma_div_succ(y - 1, 100);
    lemma_div_succ(y - 1, 400);
    lemma_leap_divisor_chain(y);
}

/// `days_before_year` grows by at least 365 per year.
pub proof fn lemma_days_before_year_mono(y1: int, y2: int)
    requires
        y1 <= y2,
    ensures
        days_before_year(y1) <= days_before_year(y2),
        y1 < y2 ==> days_before_year(y1) + 365 <= days_before_year(y2),
    decreases y2 - y1,
{
    if y1 < y2 {
        lemma_days_before_year_succ(y1);
        lemma_days_before_year_mono(y1 + 1, y2);
    }
}

/// A day belongs to at most one year.
pub proof fn lemma_starts_year_unique(day: int, y1: int, y2: int)
    requires
        starts_year(day, y1),
        starts_year(day, y2),
    ensures
        y1 == y2,
{
    if y1 < y2 {
        lemma_days_before_year_mono(y1 + 1, y2);
    }
    if y2 < y1 {
        lemma_days_before_year_mono(y2 + 1, y1);
    }
}

/// The minute of day decomposes into the hour of day and the minute within
/// the hour.
proof fn lemma_minute_of_day_split(ts: int)
    ensures
        minute_of_day_of(ts) == 60 * (second_of_day(ts) / 3600) + (second_of_day(ts) % 3600)
            / 60,
{
    let s = second_of_day(ts);
    lemma_fundamental_div_mod(s, 3600);
    lemma_mod_bound(s, 3600);
    let h = s / 3600;
    let r = s % 3600;
    lemma_fundamental_div_mod(r, 60);
    lemma_mod_bound(r, 60);
    lemma_mod_bound(ts, 86400);
    lemma_div_pos_is_pos(s, 3600);
    lemma_fundamental_div_mod_converse(s, 60, 60 * h + r / 60, r % 60);
}

/// Relies on chrono: `DateTime::<Utc>::from_timestamp(ts, 0)`, which returns
/// `Some` exactly on the representable range of timestamps, and the
/// `Datelike::year`, `Datelike::ordinal`, `Timelike::hour` and
/// `Timelike::minute` accessors of the resulting UTC date-time, which follow
/// the proleptic Gregorian calendar.
#[verifier::external_body]
fn utc_calendar_parts(ts: i64) -> (r: Option<(i32, u32, u32, u32)>)
    ensures
        r is Some <==> in_calendar_range(ts as int),
        r matches Some(p) ==> starts_year(epoch_day_of(ts as int), p.0 as int),
        r matches Some(p) ==> p.1 == epoch_day_of(ts as int) - days_before_year(p.0 as int)
            + 1,
        r matches Some(p) ==> p.2 == second_of_day(ts as int) / 3600,
        r matches Some(p) ==> p.3 == (second_of_day(ts as int) % 3600) / 60,
{
    match chrono::DateTime::from_timestamp(ts, 0) {
        None => None,
        Some(dt) => Some((dt.year(), dt.ordinal(), dt.hour(), dt.minute())),
    }
}

/// The calendar position of one sample: its day of year (1–366) and its
/// minute of day (0–1439), both in UTC. The model's sinusoidal features are
/// pure functions of these two integers.
#[derive(Clone, Copy, Debug, PartialEq, Eq, Structural)]
pub struct CalendarPhases {
    /// Day of year, 1 (January 1) to 366.
    pub day_of_year: u32,
    /// Minute of day, 0 (00:00 UTC) to 1439 (23:59 UTC).
    pub minute_of_day: u32,
}

/// Resolves a timestamp to its calendar phases, or reports
/// `TimestampConversionError` exactly when the timestamp lies outside the
/// representable calendar range.
pub fn calendar_phases(ts: i64) -> (r: Result<CalendarPhases, PredictionError>)
    ensures
        r is Ok <==> in_calendar_range(ts as int),
        r matches Ok(p) ==> {
            &&& has_civil_year(ts as int)
            &&& p.day_of_year == day_of_year_of(ts as int)
            &&& 1 <= p.day_of_year <= 366
            &&& p.minute_of_day == minute_of_day_of(ts as int)
            &&& p.minute_of_day < 1440
        },
        r matches Err(e) ==> e == PredictionError::TimestampConversionError,
{
    match utc_calendar_parts(ts) {
        None => Err(PredictionError::TimestampConversionError),
        Some((y, d, h, m)) => {
            proof {
                let t = ts as int;
                let day = epoch_day_of(t);
                assert(starts_year(day, y as int));
                assert(has_civil_year(t));
                let yc = year_of(t);
                assert(starts_year(day, yc));
                lemma_starts_year_unique(day, yc, y as int);
                lemma_days_before_year_succ(y as int);
                let s = second_of_day(t);
                lemma_mod_bound(t, 86400);
                lemma_div_is_ordered(s, 86399, 3600);
                lemma_div_pos_is_pos(s, 3600);
                lemma_mod_bound(s, 3600);
                lemma_div_is_ordered(s % 3600, 3599, 60);
                lemma_div_pos_is_pos(s % 3600, 60);
                lemma_minute_of_day_split(t);
            }
            Ok(CalendarPhases { day_of_year: d, minute_of_day: h * 60 + m })
        },
    }
}

/// Advancing a timestamp by `e` whole minutes advances its minute of day by
/// `e`, wrapping at midnight.
proof fn lemma_minute_advance(t: int, e: int)
    requires
        0 <= e < 1440,
    ensures
        minute_of_day_of(t + 60 * e) == (minute_of_day_of(t) + e) % 1440,
{
    let s = second_of_day(t);
    lemma_mod_bound(t, 86400);
    vstd::arithmetic::div_mod::lemma_add_mod_noop(t, 60 * e, 86400);
    vstd::arithmetic::div_mod::lemma_small_mod((60 * e) as nat, 86400nat);
    lemma_fundamental_div_mod(s, 60);
    lemma_mod_bound(s, 60);
    let q = s / 60;
    if s + 60 * e < 86400 {
        vstd::arithmetic::div_mod::lemma_small_mod((s + 60 * e) as nat, 86400nat);
        lemma_fundamental_div_mod_converse(s + 60 * e, 60, q + e, s % 60);
        vstd::arithmetic::div_mod::lemma_small_mod((q + e) as nat, 1440nat);
        lemma_div_pos_is_pos(s, 60);
    } else {
        lemma_fundamental_div_mod_converse(s + 60 * e, 86400, 1, s + 60 * e - 86400);
        lemma_fundamental_div_mod_converse(s + 60 * e - 86400, 60, q + e - 1440, s % 60);
        lemma_fundamental_div_mod_converse(q + e, 1440, 1, q + e - 1440);
        lemma_div_is_ordered(s, 86399, 60);
    }
}

/// Rounds a timestamp up to the next quarter-hour mark, judged by its minute
/// of day; a timestamp already on a quarter-hour minute is returned
/// unchanged, and seconds within the minute are preserved.
pub fn round_up_to_nearest_15_minutes(ts: i64) -> (r: i64)
    requires
        ts + 840 <= i64::MAX,
    ensures
        r == ts + 60 * ((15 - (((ts as int) % 3600) / 60) % 15) % 15),
        ts <= r <= ts + 840,
        (r as int) % 60 == (ts as int) % 60,
        minute_of_day_of(r as int) % 15 == 0,
        minute_of_day_of(ts as int) % 15 == 0 ==> r == ts,
{
    let m0 = ts.checked_rem_euclid(3600).unwrap();
    let m0u = m0 as u32;
    let minutes = m0u / 60;
    let extra = (15 - minutes % 15) % 15;
    let r = ts + (extra as i64) * 60;
    proof {
        let t = ts as int;
        let s = second_of_day(t);
        let e = extra as int;
        lemma_mod_bound(t, 3600);
        lemma_mod_bound(t, 86400);
        vstd::arithmetic::div_mod::lemma_mod_mod(t, 3600, 24);
        lemma_minute_of_day_split(t);
        let h = s / 3600;
        let mh = (s % 3600) / 60;
        let m = minute_of_day_of(t);
        vstd::arithmetic::div_mod::lemma_mod_multiples_vanish(4 * h, mh, 15);
        assert(60 * h + mh == 15 * (4 * h) + mh);
        assert(m % 15 == mh % 15);
        lemma_mod_bound(mh, 15);
        lemma_fundamental_div_mod(m, 15);
        let c = mh % 15;
        if c == 0 {
            assert(e == 0);
            assert((m + e) % 15 == 0);
        } else {
            assert(e == 15 - c);
            vstd::arithmetic::div_mod::lemma_mod_multiples_basic(m / 15 + 1, 15);
            assert(m + e == (m / 15 + 1) * 15);
            assert((m + e) % 15 == 0);
        }
        lemma_minute_advance(t, e);
        vstd::arithmetic::div_mod::lemma_mod_mod(m + e, 15, 96);
        vstd::arithmetic::div_mod::lemma_mod_multiples_vanish(e, t, 60);
        assert(60 * e + t == t + 60 * e);
    }
    r
}

/// The timestamp of the window point at `position`, counted back from
/// `anchor` in quarter-hour steps: the point at position `p` lies
/// `15 · (19 − p)` minutes before the anchor, so the most recent point
/// (position 18) sits 15 minutes before it.
pub fn timestamp_from_position(anchor: i64, position: i32) -> (r: i64)
    requires
        i64::MIN <= anchor - 900 * (19 - position),
        anchor - 900 * (19 - position) <= i64::MAX,
    ensures
        r == anchor - 900 * (19 - position),
{
    anchor - 900i64 * (19i64 - position as i64)
}

/// The Unix timestamps of the first and the last second of year `year`:
/// January 1 at 00:00:00 and December 31 at 23:59:59, both UTC. The year must
/// lie in the representable calendar range, and both bounds then do too.
pub fn year_query_interval(year: i32) -> (r: (i64, i64))
    requires
        -262143 <= year <= 262142,
    ensures
        r.0 == 86400 * days_before_year(year as int),
        r.1 == 86400 * days_before_year(year as int + 1) - 1,
        r.0 <= r.1,
        in_calendar_range(r.0 as int),
        in_calendar_range(r.1 as int),
{
    let ym1 = (year as i64) - 1;
    let q4 = ym1.checked_div_euclid(4).unwrap();
    let q100 = ym1.checked_div_euclid(100).unwrap();
    let q400 = ym1.checked_div_euclid(400).unwrap();
    let start_day = 365 * ym1 + q4 - q100 + q400 - 719162;
    let y = year as i64;
    let p4 = y.checked_div_euclid(4).unwrap();
    let p100 = y.checked_div_euclid(100).unwrap();
    let p400 = y.checked_div_euclid(400).unwrap();
    let next_day = 365 * y + p4 - p100 + p400 - 719162;
    proof {
        lemma_days_before_year_succ(year as int);
        lemma_days_before_year_mono(-262143, year as int);
        lemma_days_before_year_mono(year as int + 1, 262143);
    }
    (start_day * 86400, next_day * 86400 - 1)
}

/// The minute-of-day phase is periodic with a period of one day: timestamps
/// exactly 86400 seconds apart share their minute of day.
pub proof fn lemma_minute_phase_periodic(ts: int)
    ensures
        minute_of_day_of(ts + 86400) == minute_of_day_of(ts),
{
    lemma_mod_add_multiples_vanish(ts, 86400);
}

/// The day-of-year phase repeats after 365 days whenever the starting year is
/// not a leap year: both timestamps then carry the same day of year, one
/// calendar year apart. (Starting in a leap year the ordinal shifts by one,
/// which is the leap effect the period of 365 ignores.)
pub proof fn lemma_day_phase_periodic(ts: int)
    requires
        has_civil_year(ts),
        !is_leap_year(year_of(ts)),
    ensures
        has_civil_year(ts + 365 * 86400),
        day_of_year_of(ts + 365 * 86400) == day_of_year_of(ts),
        year_of(ts + 365 * 86400) == year_of(ts) + 1,
{
    let day = epoch_day_of(ts);
    let y = year_of(ts);
    assert(starts_year(day, y));
    lemma_fundamental_div_mod(ts, 86400);
    lemma_mod_bound(ts, 86400);
    lemma_fundamental_div_mod_converse(ts + 365 * 86400, 86400, day + 365, ts % 86400);
    lemma_days_before_year_succ(y);
    lemma_days_before_year_succ(y + 1);
    let ts2 = ts + 365 * 86400;
    assert(starts_year(epoch_day_of(ts2), y + 1));
    let y2 = year_of(ts2);
    assert(starts_year(epoch_day_of(ts2), y2));
    lemma_starts_year_unique(day + 365, y2, y + 1);
}

} // verus!
