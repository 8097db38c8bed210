//! Calendar dates and naive date-times as plain integers, with the calendar
//! operations (months, years) delegated to `chrono`.
use vstd::prelude::*;
use chrono::{Datelike, Months, NaiveDate};

verus! {

/// Nanoseconds in one day.
pub const NANOS_PER_DAY: i128 = 86_400_000_000_000;
/// Nanoseconds in one hour.
pub const NANOS_PER_HOUR: i128 = 3_600_000_000_000;
/// Days from 1970-01-01 to the earliest date `chrono` represents (-262143-01-01).
pub const MIN_DAYS: i64 = -96_465_293;
/// Days from 1970-01-01 to the latest date `chrono` represents (+262142-12-31).
pub const MAX_DAYS: i64 = 95_026_236;

/// A calendar date, as days since 1970-01-01 (negative before).
#[derive(Debug, Clone, Copy, PartialEq, Eq)]
pub struct Date {
    pub days: i64,
}

/// A date and time of day without time zone, as nanoseconds since
/// 1970-01-01T00:00:00 (negative before).
#[derive(Debug, Clone, Copy, PartialEq, Eq)]
pub struct DateTime {
    pub nanos: i128,
}

impl Date {
    /// Within the range of dates `chrono` represents.
    pub open spec fn wf(self) -> bool {
        MIN_DAYS <= self.days <= MAX_DAYS
    }
}

impl DateTime {
    /// Within the range of date-times `chrono` represents.
    pub open spec fn wf(self) -> bool {
        MIN_DAYS * NANOS_PER_DAY <= self.nanos < (MAX_DAYS + 1) * NANOS_PER_DAY
    }

    /// The calendar day of this instant.
    pub open spec fn day(self) -> int {
        (self.nanos as int) / (NANOS_PER_DAY as int)
    }

    /// Nanoseconds since the start of the day.
    pub open spec fn time_of_day(self) -> int {
        (self.nanos as int) % (NANOS_PER_DAY as int)
    }
}

/// `x` with its nanoseconds truncated to whole microseconds (what
/// `trunc_subsecs(6)` does to a timestamp).
pub open spec fn micros_floor(x: int) -> int {
    x - x % 1000
}

/// Truncates the sub-second part to microsecond precision, as Postgres stores it.
pub fn truncate_to_micros(t: DateTime) -> (r: DateTime)
    requires
        t.wf(),
    ensures
        r.nanos == micros_floor(t.nanos as int),
        r.wf(),
{
    let rem: i128 = if t.nanos >= 0 {
        t.nanos % 1000
    } else {
        let m = (-t.nanos) % 1000;
        if m == 0 { 0 } else { 1000 - m }
    };
    proof {
        let x = t.nanos as int;
        if x < 0 {
            let m = (-x) % 1000;
            assert(x % 1000 == (if m == 0 { 0 } else { 1000 - m })) by (nonlinear_arith)
                requires m == (-x) % 1000, x < 0;
        }
        assert(MIN_DAYS * NANOS_PER_DAY == -96_465_293 * 86_400_000_000_000int);
        assert((-96_465_293 * 86_400_000_000_000int) % 1000 == 0);
        assert(t.nanos - rem >= MIN_DAYS * NANOS_PER_DAY) by (nonlinear_arith)
            requires
                t.nanos >= -96_465_293 * 86_400_000_000_000int,
                rem == (t.nanos as int) % 1000,
                MIN_DAYS * NANOS_PER_DAY == -96_465_293 * 86_400_000_000_000int,
                (-96_465_293 * 86_400_000_000_000int) % 1000 == 0;
    }
    DateTime { nanos: t.nanos - rem }
}


/// The earliest year `chrono` represents.
pub const MIN_YEAR: i32 = -262_143;
/// The latest year `chrono` represents.
pub const MAX_YEAR: i32 = 262_142;

/// Days from 0001-01-01 (day 1 of the common era) to 1970-01-01, minus one:
/// `chrono`'s day number of 1970-01-01.
pub const EPOCH_DAY_FROM_CE: i64 = 719_163;

/// Rust's integer division, which rounds toward zero.
pub open spec fn div_trunc(a: int, b: int) -> int {
    if a >= 0 { a / b } else { -((-a) / b) }
}

/// Integer division rounding toward zero, as `/` does on signed integers.
pub fn div_toward_zero(a: i128, b: i128) -> (r: i128)
    requires
        b > 0,
        a > i128::MIN,
    ensures
        r == div_trunc(a as int, b as int),
{
    if a >= 0 { a / b } else { -((-a) / b) }
}

/// The date of `months` months after day `days` (day of month clamped to the
/// end of a shorter month), as `chrono` computes it.
pub uninterp spec fn months_later(days: int, months: int) -> int;

/// The date of `months` months before day `days` (day of month clamped to the
/// end of a shorter month), as `chrono` computes it.
pub uninterp spec fn months_earlier(days: int, months: int) -> int;

/// The calendar year of day `days`, as `chrono` computes it.
pub uninterp spec fn year_of(days: int) -> int;

/// The calendar month (1 to 12) of day `days`, as `chrono` computes it.
pub uninterp spec fn month_of(days: int) -> int;

/// The day number of a calendar date, or `None` when the date does not exist
/// or lies outside `chrono`'s range, as `chrono` computes it.
pub uninterp spec fn day_of_ymd(year: int, month: int, day: int) -> Option<int>;

/// `NaiveDate + Months` from `chrono`: the same day of the month `months`
/// months later, clamped to the end of a shorter month. Trusted: the result is
/// the named value; zero months leave the date unchanged; a later month gives
/// a strictly later day, at least 28 days per month added (less the at most
/// 3 days lost when the day is clamped to a shorter month) and never more
/// than 31. The requirement keeps the result inside `chrono`'s range, where
/// `+` would panic.
#[verifier::external_body]
pub(crate) fn add_months(d: Date, months: u32) -> (r: Date)
    requires
        d.wf(),
        d.days + 31 * months <= MAX_DAYS,
    ensures
        r.days == months_later(d.days as int, months as int),
        months == 0 ==> r.days == d.days,
        months > 0 ==> d.days < r.days <= d.days + 31 * months,
        months > 0 ==> d.days + 28 * months - 3 <= r.days,
        r.wf(),
{
    let date = NaiveDate::from_num_days_from_ce_opt((d.days + EPOCH_DAY_FROM_CE) as i32).unwrap();
    let later = date + Months::new(months);
    Date { days: later.num_days_from_ce() as i64 - EPOCH_DAY_FROM_CE }
}

/// `NaiveDate - Months` from `chrono`: the same day of the month `months`
/// months earlier, clamped to the end of a shorter month. Trusted: the result
/// is the named value; zero months leave the date unchanged; otherwise the day
/// is strictly earlier, never more than 31 days per month removed. The
/// requirement keeps the result inside `chrono`'s range, where `-` would panic.
#[verifier::external_body]
pub(crate) fn sub_months(d: Date, months: u32) -> (r: Date)
    requires
        d.wf(),
        d.days - 31 * months >= MIN_DAYS,
    ensures
        r.days == months_earlier(d.days as int, months as int),
        months == 0 ==> r.days == d.days,
        months > 0 ==> d.days - 31 * months <= r.days < d.days,
        r.wf(),
{
    let date = NaiveDate::from_num_days_from_ce_opt((d.days + EPOCH_DAY_FROM_CE) as i32).unwrap();
    let earlier = date - Months::new(months);
    Date { days: earlier.num_days_from_ce() as i64 - EPOCH_DAY_FROM_CE }
}

/// `Datelike::year` of a `chrono` date. Trusted: the result is the named
/// value, within `chrono`'s years.
#[verifier::external_body]
pub(crate) fn year(d: Date) -> (y: i32)
    requires
        d.wf(),
    ensures
        y == year_of(d.days as int),
        MIN_YEAR <= y <= MAX_YEAR,
{
    let date = NaiveDate::from_num_days_from_ce_opt((d.days + EPOCH_DAY_FROM_CE) as i32).unwrap();
    date.year()
}

/// `Datelike::month` of a `chrono` date. Trusted: the result is the named
/// value, between 1 and 12 as documented.
#[verifier::external_body]
pub(crate) fn month(d: Date) -> (m: u32)
    requires
        d.wf(),
    ensures
        m == month_of(d.days as int),
        1 <= m <= 12,
{
    let date = NaiveDate::from_num_days_from_ce_opt((d.days + EPOCH_DAY_FROM_CE) as i32).unwrap();
    date.month()
}

/// `NaiveDate::from_ymd_opt` from `chrono`. Trusted: the result is the named
/// value, and a date it returns is within range.
#[verifier::external_body]
pub(crate) fn from_ymd(year: i32, month: u32, day: u32) -> (r: Option<Date>)
    ensures
        match r {
            Some(d) => day_of_ymd(year as int, month as int, day as int) == Some(d.days as int) && d.wf(),
            None => day_of_ymd(year as int, month as int, day as int) is None,
        },
{
    match NaiveDate::from_ymd_opt(year, month, day) {
        Some(date) => Some(Date { days: date.num_days_from_ce() as i64 - EPOCH_DAY_FROM_CE }),
        None => None,
    }
}

/// The calendar day of an instant (`NaiveDateTime::date`).
pub fn date_of(t: DateTime) -> (d: Date)
    requires
        t.wf(),
    ensures
        d.days == t.day(),
        d.wf(),
{
    let days = if t.nanos >= 0 {
        t.nanos / NANOS_PER_DAY
    } else {
        -((-t.nanos - 1) / NANOS_PER_DAY) - 1
    };
    proof {
        let x = t.nanos as int;
        let n = NANOS_PER_DAY as int;
        if x < 0 {
            assert(-((-x - 1) / n) - 1 == x / n) by (nonlinear_arith)
                requires x < 0, n > 0;
        }
        assert(MIN_DAYS <= x / n <= MAX_DAYS) by (nonlinear_arith)
            requires
                n == 86_400_000_000_000,
                MIN_DAYS * n <= x < (MAX_DAYS + 1) * n;
    }
    Date { days: days as i64 }
}

/// Nanoseconds since the start of the day of an instant (`NaiveDateTime::time`).
pub fn time_of(t: DateTime) -> (n: i128)
    requires
        t.wf(),
    ensures
        n == t.time_of_day(),
        0 <= n < NANOS_PER_DAY,
{
    let d = date_of(t);
    proof {
        let x = t.nanos as int;
        let m = NANOS_PER_DAY as int;
        assert(x - (x / m) * m == x % m) by (nonlinear_arith) requires m > 0;
        assert(0 <= x % m < m) by (nonlinear_arith) requires m > 0;
        assert(d.days as int * m == (x / m) * m);
    }
    t.nanos - (d.days as i128) * NANOS_PER_DAY
}

/// The instant of a day at a time of day (`NaiveDateTime::new`).
pub fn at_time(d: Date, time: i128) -> (t: DateTime)
    requires
        d.wf(),
        0 <= time < NANOS_PER_DAY,
    ensures
        t.nanos == d.days * NANOS_PER_DAY + time,
        t.wf(),
        t.day() == d.days,
        t.time_of_day() == time,
{
    proof {
        let n = NANOS_PER_DAY as int;
        let x = d.days * n + time;
        assert(x / n == d.days && x % n == time) by (nonlinear_arith)
            requires n > 0, 0 <= time < n, x == d.days * n + time;
        assert(MIN_DAYS * n <= x < (MAX_DAYS + 1) * n) by (nonlinear_arith)
            requires n > 0, 0 <= time < n, x == d.days * n + time, MIN_DAYS <= d.days <= MAX_DAYS;
    }
    DateTime { nanos: (d.days as i128) * NANOS_PER_DAY + time }
}

/// Midnight at the start of a day (`NaiveDate::and_time(NaiveTime::MIN)`).
pub fn midnight(d: Date) -> (t: DateTime)
    requires
        d.wf(),
    ensures
        t.nanos == d.days * NANOS_PER_DAY,
        t.wf(),
{
    at_time(d, 0)
}

} // verus!
