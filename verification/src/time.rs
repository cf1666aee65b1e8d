//! UTC instants as plain values, and the `chrono` calls that produce them.
//!
//! A `UtcTimestamp` holds what `chrono::DateTime<Utc>` exposes through
//! `timestamp()` and `timestamp_subsec_nanos()`: whole seconds since the Unix
//! epoch and the nanoseconds past that second, which exceed 999,999,999 only
//! while a leap second is represented.
use vstd::prelude::*;

verus! {

pub const NANOS_PER_SEC: i64 = 1_000_000_000;

pub const SECS_PER_DAY: i64 = 86_400;

/// The largest day count that `chrono::TimeDelta::days` accepts
/// (`i64::MAX` milliseconds, in whole days).
pub const MAX_DELTA_DAYS: i64 = 106_751_991_167;

/// An instant in UTC.
#[derive(Clone, Copy, Debug, PartialEq, Eq, Structural)]
pub struct UtcTimestamp {
    /// Whole seconds since 1970-01-01T00:00:00Z.
    pub secs: i64,
    /// Nanoseconds past `secs`; at least one second only during a leap second.
    pub nanos: u32,
}

impl UtcTimestamp {
    pub open spec fn wf(self) -> bool {
        self.nanos < 2 * NANOS_PER_SEC
    }

    /// Seconds past midnight.
    pub open spec fn time_of_day(self) -> int {
        (self.secs as int) % (SECS_PER_DAY as int)
    }

    /// The order of `chrono::DateTime`: by seconds, then by nanoseconds.
    pub open spec fn before(self, other: UtcTimestamp) -> bool {
        self.secs < other.secs || (self.secs == other.secs && self.nanos < other.nanos)
    }
}

/// `a.signed_duration_since(b)` in nanoseconds.  A leap second that one side
/// is inside of counts only when the other side lies on the far side of it
/// within the day, as in `NaiveTime::signed_duration_since`.
pub open spec fn duration_since_ns(a: UtcTimestamp, b: UtcTimestamp) -> int {
    let adjust: int = if a.time_of_day() > b.time_of_day() && b.nanos >= NANOS_PER_SEC {
        1
    } else if a.time_of_day() < b.time_of_day() && a.nanos >= NANOS_PER_SEC {
        -1
    } else {
        0
    };
    ((a.secs as int) - (b.secs as int) + adjust) * (NANOS_PER_SEC as int) + (a.nanos as int) - (b.nanos as int)
}

/// Whether `a.signed_duration_since(b) < TimeDelta::days(days)`.
pub open spec fn duration_below_days(a: UtcTimestamp, b: UtcTimestamp, days: int) -> bool {
    duration_since_ns(a, b) < days * (SECS_PER_DAY as int) * (NANOS_PER_SEC as int)
}

/// Whether `a.signed_duration_since(b) >= TimeDelta::new(secs, nanos)`.
pub open spec fn duration_at_least(a: UtcTimestamp, b: UtcTimestamp, secs: int, nanos: int) -> bool {
    duration_since_ns(a, b) >= secs * (NANOS_PER_SEC as int) + nanos
}

/// Computes `a.signed_duration_since(b)` as whole seconds and the nanoseconds
/// on top of them (`0 <= nanos < 1_000_000_000`), like `chrono::TimeDelta`.
pub fn duration_since(a: UtcTimestamp, b: UtcTimestamp) -> (r: (i128, i64))
    requires
        a.wf(),
        b.wf(),
    ensures
        0 <= r.1 < NANOS_PER_SEC,
        r.0 * (NANOS_PER_SEC as int) + r.1 == duration_since_ns(a, b),
{
    let tod_a = (a.secs as i128) % 86_400;
    let tod_a = if tod_a < 0 { tod_a + 86_400 } else { tod_a };
    let tod_b = (b.secs as i128) % 86_400;
    let tod_b = if tod_b < 0 { tod_b + 86_400 } else { tod_b };
    assert(tod_a == a.time_of_day());
    assert(tod_b == b.time_of_day());
    let adjust: i128 = if tod_a > tod_b && b.nanos >= 1_000_000_000 {
        1
    } else if tod_a < tod_b && a.nanos >= 1_000_000_000 {
        -1
    } else {
        0
    };
    let secs: i128 = (a.secs as i128) - (b.secs as i128) + adjust;
    let frac: i128 = (a.nanos as i128) - (b.nanos as i128);
    // -2e9 < frac < 2e9: carry whole seconds out of it.
    if frac < -1_000_000_000 {
        (secs - 2, (frac + 2_000_000_000) as i64)
    } else if frac < 0 {
        (secs - 1, (frac + 1_000_000_000) as i64)
    } else if frac >= 1_000_000_000 {
        (secs + 1, (frac - 1_000_000_000) as i64)
    } else {
        (secs, frac as i64)
    }
}

/// Whether `a.signed_duration_since(b) < TimeDelta::days(days)`.
pub fn duration_since_below_days(a: UtcTimestamp, b: UtcTimestamp, days: i64) -> (r: bool)
    requires
        a.wf(),
        b.wf(),
        -MAX_DELTA_DAYS <= days <= MAX_DELTA_DAYS,
    ensures
        r == duration_below_days(a, b, days as int),
{
    let (s, n) = duration_since(a, b);
    let limit: i128 = (days as i128) * 86_400;
    // (s, n) < (limit, 0) in the order of TimeDelta.
    assert(duration_since_ns(a, b) == s * 1_000_000_000 + n);
    assert((s < limit) == (s * 1_000_000_000 + n < limit * 1_000_000_000)) by (nonlinear_arith)
        requires
            0 <= n < 1_000_000_000,
    ;
    s < limit
}

/// Whether `a.signed_duration_since(b) >= TimeDelta::new(secs, nanos)`.
pub fn duration_since_at_least(a: UtcTimestamp, b: UtcTimestamp, secs: i64, nanos: u32) -> (r: bool)
    requires
        a.wf(),
        b.wf(),
        nanos < NANOS_PER_SEC,
    ensures
        r == duration_at_least(a, b, secs as int, nanos as int),
{
    let (s, n) = duration_since(a, b);
    assert(duration_since_ns(a, b) == s * 1_000_000_000 + n);
    assert(((s > secs as i128) || (s == secs as i128 && n >= nanos as i64)) == (s * 1_000_000_000 + n
        >= secs * 1_000_000_000 + nanos)) by (nonlinear_arith)
        requires
            0 <= n < 1_000_000_000,
            0 <= nanos < 1_000_000_000,
    ;
    (s > secs as i128) || (s == secs as i128 && n >= nanos as i64)
}

/// Whether `a` is earlier than `b` (`DateTime` order).
pub fn is_before(a: UtcTimestamp, b: UtcTimestamp) -> (r: bool)
    ensures
        r == a.before(b),
{
    a.secs < b.secs || (a.secs == b.secs && a.nanos < b.nanos)
}

/// `std::time::SystemTime`: a reading of the system clock.
#[verifier::external_type_specification]
#[verifier::external_body]
pub struct ExSystemTime(std::time::SystemTime);

/// `SystemTime::now()`: the system clock's current reading.  It depends on
/// the clock, so nothing is stated of it.
#[verifier::external_body]
fn system_time_now() -> (r: std::time::SystemTime) {
    std::time::SystemTime::now()
}

/// `t.duration_since(UNIX_EPOCH)` as whole seconds and the nanoseconds past
/// them (`Duration::as_secs`, `Duration::subsec_nanos`), or `None` where the
/// reading lies before the Unix epoch.  The nanoseconds of a `Duration` stay
/// below one second; the rest depends on the clock.
#[verifier::external_body]
fn since_unix_epoch(t: &std::time::SystemTime) -> (r: Option<(u64, u32)>)
    ensures
        r matches Some(d) ==> d.1 < NANOS_PER_SEC,
{
    match t.duration_since(std::time::UNIX_EPOCH) {
        Ok(d) => Some((d.as_secs(), d.subsec_nanos())),
        Err(_) => None,
    }
}

/// The first year of chrono's calendar (`NaiveDate::MIN` is its January 1st).
pub const CHRONO_MIN_YEAR: i32 = -262_143;

/// The last year of chrono's calendar (`NaiveDate::MAX` is its December 31st).
pub const CHRONO_MAX_YEAR: i32 = 262_142;

/// The number of days from 1970-01-01 to January 1st of `year` in the
/// proleptic Gregorian calendar (negative before 1970).
pub open spec fn jan1_days(year: int) -> int {
    let y = year - 1;
    365 * (year - 1970) + (y / 4 - y / 100 + y / 400) - (1969int / 4 - 1969int / 100 + 1969int / 400)
}

/// Whether day `day` (counted from 1970-01-01) lies within chrono's calendar.
pub open spec fn chrono_day_in_range(day: int) -> bool {
    jan1_days(CHRONO_MIN_YEAR as int) <= day < jan1_days(CHRONO_MAX_YEAR as int + 1)
}

/// What `DateTime::<Utc>::from_timestamp(secs, nanos)` gives: the instant
/// when its day lies within chrono's calendar and the nanoseconds are below
/// two seconds, past one second only in the last second of a minute (a
/// leap second); else `None`.
pub open spec fn chrono_instant(secs: i64, nanos: u32) -> Option<UtcTimestamp> {
    if chrono_day_in_range((secs as int) / (SECS_PER_DAY as int)) && nanos < 2 * NANOS_PER_SEC && (nanos
        >= NANOS_PER_SEC ==> (secs as int) % 60 == 59) {
        Some(UtcTimestamp { secs, nanos })
    } else {
        None
    }
}

/// `DateTime::<Utc>::from_timestamp(secs, nanos)`, read back through
/// `timestamp()` and `timestamp_subsec_nanos()` (see `chrono_instant`).
#[verifier::external_body]
fn utc_from_timestamp(secs: i64, nanos: u32) -> (r: Option<UtcTimestamp>)
    ensures
        r == chrono_instant(secs, nanos),
{
    match chrono::DateTime::from_timestamp(secs, nanos) {
        Some(dt) => Some(UtcTimestamp { secs: dt.timestamp(), nanos: dt.timestamp_subsec_nanos() }),
        None => None,
    }
}

/// The instant of a system-clock reading taken since the Unix epoch, as
/// `chrono::Utc::now()` makes it: the seconds cast to `i64` and handed with
/// the nanoseconds to `DateTime::from_timestamp`.  `None` where there is no
/// reading since the epoch or chrono has no such instant (where `Utc::now`
/// panics).
pub fn utc_from_clock(reading: Option<(u64, u32)>) -> (r: Option<UtcTimestamp>)
    ensures
        r == match reading {
            Some((secs, nanos)) => chrono_instant(secs as i64, nanos),
            None => None,
        },
{
    match reading {
        Some((secs, nanos)) => utc_from_timestamp(secs as i64, nanos),
        None => None,
    }
}

/// The current time from the system clock, as `chrono::Utc::now()` gives it
/// (see `utc_from_clock`).  The reading depends on the clock; a reading's
/// nanoseconds stay below one second.
pub fn utc_now() -> (r: Option<UtcTimestamp>)
    ensures
        r matches Some(t) ==> t.nanos < NANOS_PER_SEC && t.wf(),
{
    let clock = system_time_now();
    utc_from_clock(since_unix_epoch(&clock))
}

/// The instant that `chrono::DateTime::parse_from_rfc3339` reads from a text,
/// or `None` where it reports an error.
pub uninterp spec fn rfc3339_instant(s: Seq<char>) -> Option<UtcTimestamp>;

/// The instant that `chrono::NaiveDateTime::parse_from_str(s, fmt)` reads,
/// taken as UTC, or `None` where it reports an error.
pub uninterp spec fn naive_utc_instant(s: Seq<char>, fmt: Seq<char>) -> Option<UtcTimestamp>;

/// `chrono::DateTime::parse_from_rfc3339`, converted to UTC.  The result is
/// named, not described; chrono keeps the sub-second part below two seconds.
#[verifier::external_body]
pub(crate) fn parse_rfc3339(s: &str) -> (r: Option<UtcTimestamp>)
    ensures
        r == rfc3339_instant(s@),
        r matches Some(t) ==> t.wf(),
{
    match chrono::DateTime::parse_from_rfc3339(s) {
        Ok(dt) => Some(UtcTimestamp { secs: dt.timestamp(), nanos: dt.timestamp_subsec_nanos() }),
        Err(_) => None,
    }
}

/// `chrono::NaiveDateTime::parse_from_str(s, fmt)`, read as a UTC instant
/// (`Utc.from_utc_datetime`).  The result is named, not described.
#[verifier::external_body]
pub(crate) fn parse_naive_utc(s: &str, fmt: &str) -> (r: Option<UtcTimestamp>)
    ensures
        r == naive_utc_instant(s@, fmt@),
        r matches Some(t) ==> t.wf(),
{
    match chrono::NaiveDateTime::parse_from_str(s, fmt) {
        Ok(n) => {
            let dt = chrono::TimeZone::from_utc_datetime(&chrono::Utc, &n);
            Some(UtcTimestamp { secs: dt.timestamp(), nanos: dt.timestamp_subsec_nanos() })
        },
        Err(_) => None,
    }
}

/// The instant, in whole seconds since the Unix epoch, at which day
/// `day_of_year` of `year` begins (day 1 is January 1st; later days run on
/// into the following years, earlier ones back): `NaiveDate::from_ymd_opt(
/// year, 1, 1)` moved on by `checked_add_signed(TimeDelta::days(day_of_year -
/// 1))`, at midnight UTC.  `None` where the year or the day falls outside
/// chrono's calendar.
pub open spec fn year_day_start(year: i32, day_of_year: i32) -> Option<i64> {
    let day = jan1_days(year as int) + day_of_year - 1;
    if CHRONO_MIN_YEAR <= year <= CHRONO_MAX_YEAR && chrono_day_in_range(day) {
        Some((day * (SECS_PER_DAY as int)) as i64)
    } else {
        None
    }
}

/// The day number (from 1970-01-01) of January 1st of chrono's first year.
pub const CHRONO_FIRST_DAY: i64 = -96_465_292;

/// The day number (from 1970-01-01) of January 1st of the year after
/// chrono's last.
pub const CHRONO_END_DAY: i64 = 95_026_237;

/// January 1st of a year, counted in days from 1970-01-01, for years of
/// chrono's calendar.
pub fn jan1_day(year: i32) -> (r: i64)
    requires
        CHRONO_MIN_YEAR <= year <= CHRONO_MAX_YEAR + 1,
    ensures
        r == jan1_days(year as int),
{
    let y = year as i64 - 1;
    // Shifted by whole 400-year cycles so that the divisions work on a
    // positive number, where they round down.
    let shifted = y + 400_000;
    let q4 = shifted / 4 - 100_000;
    let q100 = shifted / 100 - 4_000;
    let q400 = shifted / 400 - 1_000;
    assert(q4 == y / 4) by (nonlinear_arith)
        requires
            shifted == y + 400_000,
            shifted > 0,
            q4 == shifted / 4 - 100_000,
    ;
    assert(q100 == y / 100) by (nonlinear_arith)
        requires
            shifted == y + 400_000,
            shifted > 0,
            q100 == shifted / 100 - 4_000,
    ;
    assert(q400 == y / 400) by (nonlinear_arith)
        requires
            shifted == y + 400_000,
            shifted > 0,
            q400 == shifted / 400 - 1_000,
    ;
    365 * (year as i64 - 1970) + (q4 - q100 + q400) - 477
}

/// The instant at which day `day_of_year` of `year` begins (see
/// `year_day_start`): what `NaiveDate::from_ymd_opt(year, 1, 1)` moved on by
/// `checked_add_signed(TimeDelta::days(day_of_year - 1))` gives at midnight.
pub fn day_start_secs(year: i32, day_of_year: i32) -> (r: Option<i64>)
    ensures
        r == year_day_start(year, day_of_year),
{
    if year < CHRONO_MIN_YEAR || year > CHRONO_MAX_YEAR {
        return None;
    }
    proof {
        assert(jan1_days(CHRONO_MIN_YEAR as int) == CHRONO_FIRST_DAY);
        assert(jan1_days(CHRONO_MAX_YEAR as int + 1) == CHRONO_END_DAY);
    }
    let day = jan1_day(year) + day_of_year as i64 - 1;
    if day < CHRONO_FIRST_DAY || day >= CHRONO_END_DAY {
        return None;
    }
    Some(day * 86_400)
}

/// The text `DateTime::<Utc>::to_rfc3339` writes for an instant.
pub uninterp spec fn rfc3339_text(t: UtcTimestamp) -> Seq<char>;

/// `DateTime::from_timestamp(t.secs, t.nanos)` written by `to_rfc3339`;
/// `None` where chrono has no such instant (see `chrono_instant`).  The text
/// is named, not described.
#[verifier::external_body]
pub(crate) fn format_rfc3339(t: UtcTimestamp) -> (r: Option<String>)
    ensures
        r is Some <==> chrono_instant(t.secs, t.nanos) is Some,
        r matches Some(s) ==> s@ == rfc3339_text(t),
{
    match chrono::DateTime::from_timestamp(t.secs, t.nanos) {
        Some(dt) => Some(dt.to_rfc3339()),
        None => None,
    }
}

/// The instant `days` whole days after `t` (before it when negative), as
/// chrono's `DateTime + TimeDelta::days(days)` gives it: the same time of
/// day, except that a leap second moved by a nonzero number of days becomes
/// the second after it (forwards) or the second it extends (backwards, one
/// second later than its own count).  `None` where `t` or the result is not
/// an instant of chrono's calendar.
pub open spec fn days_later(t: UtcTimestamp, days: i64) -> Option<UtcTimestamp> {
    if chrono_instant(t.secs, t.nanos) is None {
        None
    } else if days == 0 {
        Some(t)
    } else {
        let leap = t.nanos >= NANOS_PER_SEC;
        let secs = t.secs + days * (SECS_PER_DAY as int) + if leap && days < 0 {
            1int
        } else {
            0int
        };
        let nanos = if leap {
            t.nanos - NANOS_PER_SEC
        } else {
            t.nanos as int
        };
        if i64::MIN <= secs <= i64::MAX {
            chrono_instant(secs as i64, nanos as u32)
        } else {
            None
        }
    }
}

/// `DateTime::from_timestamp(t.secs, t.nanos)`, then `checked_add_signed`
/// of `TimeDelta::try_days(days)`; `None` where one of them has no result
/// (where `+ TimeDelta::days` would panic).  See `days_later`.
#[verifier::external_body]
pub(crate) fn add_days(t: UtcTimestamp, days: i64) -> (r: Option<UtcTimestamp>)
    ensures
        r == days_later(t, days),
        r is Some ==> chrono_instant(t.secs, t.nanos) is Some,
{
    let start = chrono::DateTime::from_timestamp(t.secs, t.nanos)?;
    let end = start.checked_add_signed(chrono::TimeDelta::try_days(days)?)?;
    Some(UtcTimestamp { secs: end.timestamp(), nanos: end.timestamp_subsec_nanos() })
}

} // verus!
