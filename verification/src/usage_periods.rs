//! The time window over which usage counts against a metered entitlement.
use vstd::prelude::*;
use crate::entitlement_values::{PeriodUnit, ResetPeriod};
use crate::time::{
    add_months, at_time, date_of, day_of_ymd, div_toward_zero, div_trunc, from_ymd, midnight,
    month, month_of, months_earlier, months_later, sub_months, time_of, year, year_of, Date,
    DateTime, MAX_DAYS, MIN_DAYS, NANOS_PER_DAY, NANOS_PER_HOUR,
};

verus! {

/// A usage window: from `start` (inclusive) to `end` (exclusive), or open-ended.
#[derive(Debug, Clone, Copy, PartialEq, Eq)]
pub struct UsagePeriodBounds {
    pub start: DateTime,
    /// `None` for a window with no upper bound.
    pub end: Option<DateTime>,
}

/// The current billing period of a subscription; `period_end` is the last
/// day of the period, inclusive.
#[derive(Debug, Clone, Copy, PartialEq, Eq)]
pub struct BillingCyclePeriod {
    pub period_start: Date,
    pub period_end: Option<Date>,
}

/// Nanoseconds of midnight at the start of day `d`.
pub open spec fn midnight_of(d: int) -> int {
    d * NANOS_PER_DAY
}

/// Whole hours in a span of `d` nanoseconds, rounded toward zero as
/// `TimeDelta::num_hours` does.
pub open spec fn whole_hours(d: int) -> int {
    div_trunc(div_trunc(d, 1_000_000_000), 3600)
}

/// Hours per bucket of a fixed window of a constant-length unit.
pub open spec fn step_hours(unit: PeriodUnit, interval: int) -> int {
    match unit {
        PeriodUnit::Hour => interval,
        PeriodUnit::Day => 24 * interval,
        _ => 168 * interval,
    }
}

/// The start of the fixed-window bucket (of `step` hours, anchored at
/// `act`) that holds `now`; a `now` before `act` falls in the first bucket.
pub open spec fn fixed_bucket_start(act: int, now: int, step: int) -> int {
    let h = whole_hours(now - act);
    let elapsed = if h >= 0 { h } else { 0 };
    act + (elapsed / step) * step * NANOS_PER_HOUR
}

/// The first day of fixed window `k` of `step` months anchored at day `day`:
/// `k × step` months after the activation day (clamped to the end of a
/// shorter month), the activation day itself for the first window.
pub open spec fn window_day(day: int, step: int, k: nat) -> int {
    if k == 0 { day } else { months_later(day, k * step) }
}

/// The window of `step` months anchored at `act` that holds `now`: window `k`
/// runs from `act + k × step` months to `act + (k + 1) × step` months (time
/// of day kept), and it is the first window whose end lies after `now`.
/// `start` and `end` are the window's bounds in nanoseconds.
pub open spec fn month_bucket(act: DateTime, now: DateTime, step: int, start: int, end: int) -> bool {
    exists|k: nat| {
        &&& start == midnight_of(window_day(act.day(), step, k)) + act.time_of_day()
        &&& end == midnight_of(#[trigger] window_day(act.day(), step, k + 1)) + act.time_of_day()
        &&& end > now.nanos
        &&& forall|j: nat| 1 <= j <= k ==> midnight_of(#[trigger] window_day(act.day(), step, j)) + act.time_of_day() <= now.nanos
    }
}

/// The calendar window of `interval` units holding `now`, with buckets
/// anchored on fixed epochs, as (start, end) in nanoseconds. For months and
/// years the anchor is year zero; a start date that does not exist falls back
/// to the day of `now`.
pub open spec fn calendar_bounds(now: DateTime, unit: PeriodUnit, interval: int) -> (int, int) {
    let today = now.day();
    match unit {
        PeriodUnit::Hour => {
            let idx = div_trunc(whole_hours(now.nanos as int), interval);
            let start = idx * interval * NANOS_PER_HOUR;
            (start, start + interval * NANOS_PER_HOUR)
        },
        PeriodUnit::Day => {
            let start = div_trunc(today, interval) * interval;
            (midnight_of(start), midnight_of(start + interval))
        },
        PeriodUnit::Week => {
            let start = -3 + div_trunc(div_trunc(today + 3, 7), interval) * 7 * interval;
            (midnight_of(start), midnight_of(start + 7 * interval))
        },
        PeriodUnit::Month => {
            let start = month_window_start(today, interval);
            (midnight_of(start), midnight_of(months_later(start, interval)))
        },
        PeriodUnit::Year => {
            let start_year = wrap_i32((year_of(today) / interval) * interval);
            let start = match day_of_ymd(start_year, 1, 1) { Some(d) => d, None => today };
            let end = match day_of_ymd(saturating_i32(start_year + wrap_i32(interval)), 1, 1) { Some(d) => d, None => today };
            (midnight_of(start), midnight_of(end))
        },
    }
}

/// The first day of the calendar-month window of `interval` months that
/// holds `today` (windows counted from January of year zero), or `today` when
/// that date does not exist.
pub open spec fn month_window_start(today: int, interval: int) -> int {
    let months = year_of(today) * 12 + month_of(today) - 1;
    let start_months = (months / interval) * interval;
    match day_of_ymd(start_months / 12, start_months % 12 + 1, 1) {
        Some(d) => d,
        None => today,
    }
}

/// `x` as an `i32` after `as`-conversion (two's-complement wrap-around).
pub open spec fn wrap_i32(x: int) -> int {
    (x + 0x8000_0000) % 0x1_0000_0000 - 0x8000_0000
}

/// Converts with `as i32` semantics: keeps the low 32 bits.
fn wrap_to_i32(x: i64) -> (r: i32)
    ensures
        r == wrap_i32(x as int),
{
    let t: i128 = x as i128 + 0x8000_0000;
    let m: i128 = if t >= 0 {
        t % 0x1_0000_0000
    } else {
        let q = (-t) % 0x1_0000_0000;
        if q == 0 { 0 } else { 0x1_0000_0000 - q }
    };
    proof {
        let ti = t as int;
        if ti < 0 {
            let q = (-ti) % 0x1_0000_0000;
            assert(ti % 0x1_0000_0000 == (if q == 0 { 0 } else { 0x1_0000_0000 - q })) by (nonlinear_arith)
                requires q == (-ti) % 0x1_0000_0000, ti < 0;
        }
        assert(0 <= ti % 0x1_0000_0000 < 0x1_0000_0000) by (nonlinear_arith);
    }
    (m - 0x8000_0000) as i32
}

/// `x` saturated into the range of `i32`.
pub open spec fn saturating_i32(x: int) -> int {
    if x > i32::MAX { i32::MAX as int } else if x < i32::MIN { i32::MIN as int } else { x }
}

/// The start of a sliding window of `interval` units ending at `now`.
pub open spec fn sliding_start(now: DateTime, unit: PeriodUnit, interval: int) -> int {
    match unit {
        PeriodUnit::Hour => now.nanos - interval * NANOS_PER_HOUR,
        PeriodUnit::Day => midnight_of(now.day() - interval) + now.time_of_day(),
        PeriodUnit::Week => midnight_of(now.day() - 7 * interval) + now.time_of_day(),
        PeriodUnit::Month => midnight_of(months_earlier(now.day(), interval)) + now.time_of_day(),
        PeriodUnit::Year => midnight_of(months_earlier(now.day(), 12 * interval)) + now.time_of_day(),
    }
}

/// Inputs on which a calendar window is defined: a positive interval, and
/// dates that stay within `chrono`'s range (outside it `chrono` panics).
pub open spec fn calendar_defined(now: DateTime, unit: PeriodUnit, interval: int) -> bool {
    let today = now.day();
    &&& now.wf()
    &&& interval > 0
    &&& match unit {
        PeriodUnit::Hour => calendar_bounds(now, unit, interval).1 < (MAX_DAYS + 1) * NANOS_PER_DAY,
        PeriodUnit::Day => div_trunc(today, interval) * interval >= 0
            && div_trunc(today, interval) * interval + interval <= MAX_DAYS,
        PeriodUnit::Week => div_trunc(div_trunc(today + 3, 7), interval) * 7 * interval >= 0
            && -3 + div_trunc(div_trunc(today + 3, 7), interval) * 7 * interval + 7 * interval <= MAX_DAYS,
        PeriodUnit::Month => month_window_start(today, interval) + 31 * interval <= MAX_DAYS,
        PeriodUnit::Year => true,
    }
}

/// Inputs on which a sliding window is defined: the start stays in range and,
/// for years, twelve times the interval fits in a `u32`.
pub open spec fn sliding_defined(now: DateTime, unit: PeriodUnit, interval: int) -> bool {
    &&& now.wf()
    &&& match unit {
        PeriodUnit::Hour => now.nanos - interval * NANOS_PER_HOUR >= MIN_DAYS * NANOS_PER_DAY,
        PeriodUnit::Day => now.day() - interval >= MIN_DAYS,
        PeriodUnit::Week => now.day() - 7 * interval >= MIN_DAYS,
        PeriodUnit::Month => now.day() - 31 * interval >= MIN_DAYS,
        PeriodUnit::Year => 12 * interval <= u32::MAX && now.day() - 372 * interval >= MIN_DAYS,
    }
}

/// Inputs on which a fixed window is defined: a positive interval, and a
/// bucket end within range (for months and years, `step` months past the
/// later of activation and now).
pub open spec fn fixed_defined(act: DateTime, now: DateTime, unit: PeriodUnit, interval: int) -> bool {
    &&& act.wf()
    &&& now.wf()
    &&& interval > 0
    &&& match unit {
        PeriodUnit::Month => months_window_fits(act, now, interval),
        PeriodUnit::Year => 12 * interval <= u32::MAX && months_window_fits(act, now, 12 * interval),
        _ => fixed_bucket_start(act.nanos as int, now.nanos as int, step_hours(unit, interval))
            + step_hours(unit, interval) * NANOS_PER_HOUR < (MAX_DAYS + 1) * NANOS_PER_DAY,
    }
}

/// The month windows of `step` months from `act` up to the one holding
/// `now` stay within `chrono`'s range: every window day up to it is at most
/// `act + 2 × (now − act) + 6 + 31 × step` days, which must not pass the
/// last representable day.
pub open spec fn months_window_fits(act: DateTime, now: DateTime, step: int) -> bool {
    act.day() + 2 * (if now.day() >= act.day() { now.day() - act.day() } else { 0 }) + 6 + 31 * step <= MAX_DAYS
}

/// Absolute value.
pub open spec fn abs(x: int) -> int {
    if x >= 0 { x } else { -x }
}

/// Division rounding toward zero shrinks the magnitude, and so does
/// multiplying the quotient back.
proof fn lemma_trunc_shrinks(a: int, b: int)
    requires
        b >= 1,
    ensures
        abs(div_trunc(a, b)) <= abs(a),
        abs(div_trunc(a, b) * b) <= abs(a),
        a >= 0 ==> 0 <= div_trunc(a, b) * b <= a,
        a < 0 ==> a <= div_trunc(a, b) * b <= 0,
{
    if a >= 0 {
        assert(0 <= a / b <= a && 0 <= (a / b) * b <= a) by (nonlinear_arith) requires a >= 0, b >= 1;
    } else {
        assert(0 <= (-a) / b <= -a && 0 <= ((-a) / b) * b <= -a) by (nonlinear_arith) requires a < 0, b >= 1;
        assert(-((-a) / b) * b == -(((-a) / b) * b)) by (nonlinear_arith);
    }
}

/// The magnitude of an in-range instant, loosely.
proof fn lemma_instant_magnitude(t: DateTime)
    requires
        t.wf(),
    ensures
        abs(t.nanos as int) < 10_000_000_000_000_000_000_000_000,
{
}

/// The hour-based calendar window holding `now`, anchored at the Unix epoch.
fn calendar_hours(now: DateTime, interval: u32) -> (r: UsagePeriodBounds)
    requires
        calendar_defined(now, PeriodUnit::Hour, interval as int),
    ensures
        r.start.nanos == calendar_bounds(now, PeriodUnit::Hour, interval as int).0,
        r.end == Some(DateTime { nanos: calendar_bounds(now, PeriodUnit::Hour, interval as int).1 as i128 }),
{
    proof {
        lemma_instant_magnitude(now);
    }
    let secs = div_toward_zero(now.nanos, 1_000_000_000);
    proof {
        lemma_trunc_shrinks(now.nanos as int, 1_000_000_000);
    }
    let hours = div_toward_zero(secs, 3600);
    proof {
        lemma_trunc_shrinks(secs as int, 3600);
    }
    let iv = interval as i128;
    let idx = div_toward_zero(hours, iv);
    proof {
        lemma_trunc_shrinks(hours as int, iv as int);
        let p = idx * iv;
        assert(abs(p as int) < 10_000_000_000_000_000_000_000_000);
        assert(abs(p * NANOS_PER_HOUR) <= abs(p as int) * NANOS_PER_HOUR) by (nonlinear_arith)
            requires p == p;
        assert(abs(p as int) * NANOS_PER_HOUR <= 10_000_000_000_000_000_000_000_000 * NANOS_PER_HOUR) by (nonlinear_arith)
            requires abs(p as int) < 10_000_000_000_000_000_000_000_000;
        assert(iv * NANOS_PER_HOUR <= 0x1_0000_0000 * NANOS_PER_HOUR) by (nonlinear_arith)
            requires 0 <= iv <= 0x1_0000_0000;
    }
    let start = idx * iv * NANOS_PER_HOUR;
    let end = start + iv * NANOS_PER_HOUR;
    UsagePeriodBounds { start: DateTime { nanos: start }, end: Some(DateTime { nanos: end }) }
}

/// The day-based calendar window holding `now`, anchored at 1970-01-01.
fn calendar_days(now: DateTime, interval: u32) -> (r: UsagePeriodBounds)
    requires
        calendar_defined(now, PeriodUnit::Day, interval as int),
    ensures
        r.start.nanos == calendar_bounds(now, PeriodUnit::Day, interval as int).0,
        r.end == Some(DateTime { nanos: calendar_bounds(now, PeriodUnit::Day, interval as int).1 as i128 }),
{
    let today = date_of(now);
    let iv = interval as i128;
    let idx = div_toward_zero(today.days as i128, iv);
    proof {
        lemma_trunc_shrinks(today.days as int, iv as int);
    }
    let start_days = idx * iv;
    let start = Date { days: start_days as i64 };
    let end = Date { days: (start_days + iv) as i64 };
    UsagePeriodBounds { start: midnight(start), end: Some(midnight(end)) }
}

/// The week-based calendar window holding `now`, anchored at Monday 1969-12-29.
fn calendar_weeks(now: DateTime, interval: u32) -> (r: UsagePeriodBounds)
    requires
        calendar_defined(now, PeriodUnit::Week, interval as int),
    ensures
        r.start.nanos == calendar_bounds(now, PeriodUnit::Week, interval as int).0,
        r.end == Some(DateTime { nanos: calendar_bounds(now, PeriodUnit::Week, interval as int).1 as i128 }),
{
    let today = date_of(now);
    let iv = interval as i128;
    let weeks = div_toward_zero(today.days as i128 + 3, 7);
    proof {
        lemma_trunc_shrinks(today.days + 3, 7);
    }
    let idx = div_toward_zero(weeks, iv);
    proof {
        lemma_trunc_shrinks(weeks as int, iv as int);
        assert(abs(idx * iv) <= abs(weeks as int));
        assert(abs(idx * 7 * iv) == 7 * abs(idx * iv)) by (nonlinear_arith);
    }
    let offset = idx * 7 * iv;
    let start = Date { days: (-3 + offset) as i64 };
    let end = Date { days: (-3 + offset + 7 * iv) as i64 };
    UsagePeriodBounds { start: midnight(start), end: Some(midnight(end)) }
}

/// The first day of the calendar-month window holding `now` (see [`month_window_start`]).
fn month_window_first_day(now: DateTime, interval: u32) -> (d: Date)
    requires
        now.wf(),
        interval > 0,
    ensures
        d.days == month_window_start(now.day(), interval as int),
        d.wf(),
{
    let today = date_of(now);
    let y = year(today) as i64;
    let m = month(today) as i64;
    let iv = interval as i64;
    let months = y * 12 + (m - 1);
    // Euclidean division by a positive divisor.
    let idx = if months >= 0 { months / iv } else { -((-months - 1) / iv) - 1 };
    proof {
        let a = months as int;
        let b = iv as int;
        if a < 0 {
            assert(-((-a - 1) / b) - 1 == a / b) by (nonlinear_arith) requires a < 0, b > 0;
        }
        assert(a / b * b <= a && a - b < a / b * b) by (nonlinear_arith) requires b > 0;
    }
    let start_months = idx * iv;
    let start_year = if start_months >= 0 { start_months / 12 } else { -((-start_months - 1) / 12) - 1 };
    proof {
        let a = start_months as int;
        if a < 0 {
            assert(-((-a - 1) / 12) - 1 == a / 12) by (nonlinear_arith) requires a < 0;
        }
        assert(a - start_year * 12 == a % 12) by (nonlinear_arith) requires start_year == a / 12;
        assert(0 <= a % 12 < 12) by (nonlinear_arith);
    }
    let start_month = (start_months - start_year * 12 + 1) as u32;
    match from_ymd(start_year as i32, start_month, 1) {
        Some(d) => d,
        None => today,
    }
}

/// The month-based calendar window holding `now`, counted from January of year zero.
fn calendar_months(now: DateTime, interval: u32) -> (r: UsagePeriodBounds)
    requires
        calendar_defined(now, PeriodUnit::Month, interval as int),
    ensures
        r.start.nanos == calendar_bounds(now, PeriodUnit::Month, interval as int).0,
        r.end == Some(DateTime { nanos: calendar_bounds(now, PeriodUnit::Month, interval as int).1 as i128 }),
{
    let start = month_window_first_day(now, interval);
    let end = add_months(start, interval);
    UsagePeriodBounds { start: midnight(start), end: Some(midnight(end)) }
}

/// The year-based calendar window holding `now`, counted from year zero.
fn calendar_years(now: DateTime, interval: u32) -> (r: UsagePeriodBounds)
    requires
        calendar_defined(now, PeriodUnit::Year, interval as int),
    ensures
        r.start.nanos == calendar_bounds(now, PeriodUnit::Year, interval as int).0,
        r.end == Some(DateTime { nanos: calendar_bounds(now, PeriodUnit::Year, interval as int).1 as i128 }),
{
    let today = date_of(now);
    let y = year(today) as i64;
    let iv = interval as i64;
    let idx = if y >= 0 { y / iv } else { -((-y - 1) / iv) - 1 };
    proof {
        let a = y as int;
        let b = iv as int;
        if a < 0 {
            assert(-((-a - 1) / b) - 1 == a / b) by (nonlinear_arith) requires a < 0, b > 0;
        }
        assert(a / b * b <= a && a - b < a / b * b) by (nonlinear_arith) requires b > 0;
    }
    let start_year = wrap_to_i32(idx * iv);
    let iv32 = wrap_to_i32(interval as i64);
    let sum = start_year as i64 + iv32 as i64;
    let end_year: i32 = if sum > 2147483647 { 2147483647 } else if sum < -2147483648 { -2147483648 } else { sum as i32 };
    let start = match from_ymd(start_year, 1, 1) {
        Some(d) => d,
        None => today,
    };
    let end = match from_ymd(end_year, 1, 1) {
        Some(d) => d,
        None => today,
    };
    UsagePeriodBounds { start: midnight(start), end: Some(midnight(end)) }
}

/// The calendar window of `interval` units holding `now`: fixed buckets on a
/// global epoch (the Unix epoch for hours and days, Monday 1969-12-29 for
/// weeks, year zero for months and years), the same for every customer.
pub fn calendar_period(now: DateTime, unit: PeriodUnit, interval: u32) -> (r: UsagePeriodBounds)
    requires
        calendar_defined(now, unit, interval as int),
    ensures
        r.start.nanos == calendar_bounds(now, unit, interval as int).0,
        r.end == Some(DateTime { nanos: calendar_bounds(now, unit, interval as int).1 as i128 }),
{
    match unit {
        PeriodUnit::Hour => calendar_hours(now, interval),
        PeriodUnit::Day => calendar_days(now, interval),
        PeriodUnit::Week => calendar_weeks(now, interval),
        PeriodUnit::Month => calendar_months(now, interval),
        PeriodUnit::Year => calendar_years(now, interval),
    }
}

/// Finds the window of `step` months anchored at `act` that holds `now`,
/// each window computed from the activation itself (`act + k × step` months).
fn fixed_months(act: DateTime, now: DateTime, step: u32) -> (r: UsagePeriodBounds)
    requires
        act.wf(),
        now.wf(),
        step > 0,
        months_window_fits(act, now, step as int),
    ensures
        r.end matches Some(e) && month_bucket(act, now, step as int, r.start.nanos as int, e.nanos as int)
            && r.start.nanos < e.nanos
            && (act.nanos <= now.nanos ==> r.start.nanos <= now.nanos),
{
    let time = time_of(act);
    let day = date_of(act);
    let ghost a = act.day();
    let ghost span: int = if now.day() >= a { now.day() - a } else { 0 };
    let mut k: u32 = 0;
    let mut start = day;
    proof {
        assert(act.nanos == midnight_of(a) + act.time_of_day()) by (nonlinear_arith)
            requires a == (act.nanos as int) / (NANOS_PER_DAY as int),
                act.time_of_day() == (act.nanos as int) % (NANOS_PER_DAY as int);
    }
    loop
        invariant
            act.wf(),
            now.wf(),
            step > 0,
            a == act.day(),
            span == (if now.day() >= a { now.day() - a } else { 0 }),
            months_window_fits(act, now, step as int),
            time == act.time_of_day(),
            0 <= time < NANOS_PER_DAY,
            day.days == a,
            act.nanos == midnight_of(a) + act.time_of_day(),
            start.wf(),
            start.days == window_day(a, step as int, k as nat),
            k == 0 || (28 * k * step <= span + 3 && start.days <= now.day()
                && midnight_of(start.days as int) + time <= now.nanos),
            forall|j: nat| 1 <= j <= k ==> midnight_of(#[trigger] window_day(a, step as int, j)) + act.time_of_day() <= now.nanos,
        decreases span + 3 - 28 * k * step + 28 * step,
    {
        proof {
            assert(28 * k * step <= span + 3 || k == 0);
            assert(k * step <= span + 3) by (nonlinear_arith)
                requires 28 * k * step <= span + 3 || k == 0, step > 0, span >= 0;
            assert(31 * (k * step) <= 2 * span + 6) by (nonlinear_arith)
                requires k * step <= span + 3, 28 * k * step <= span + 3 || k == 0, span >= 0;
            assert((k + 1) * step == k * step + step) by (nonlinear_arith);
            assert(31 * ((k + 1) * step) == 31 * (k * step) + 31 * step) by (nonlinear_arith);
            assert(act.day() >= MIN_DAYS) by (nonlinear_arith)
                requires act.wf(), a == (act.nanos as int) / (NANOS_PER_DAY as int);
            assert(span <= 200_000_000 && step <= 200_000_000);
            assert(k <= k * step) by (nonlinear_arith) requires step >= 1, k >= 0;
            assert((k + 1) * step <= 400_000_006);
        }
        let months: u32 = (k + 1) * step;
        let next_day = add_months(day, months);
        let next = at_time(next_day, time);
        proof {
            assert(next_day.days == window_day(a, step as int, (k + 1) as nat));
        }
        if next.nanos > now.nanos {
            let begin = at_time(start, time);
            proof {
                let kk = k as nat;
                assert(begin.nanos == midnight_of(window_day(a, step as int, kk)) + act.time_of_day());
                assert(next.nanos == midnight_of(window_day(a, step as int, kk + 1)) + act.time_of_day());
                if k == 0 {
                    assert(begin.nanos == act.nanos);
                    assert(a < next_day.days);
                    assert(midnight_of(a) < midnight_of(next_day.days as int)) by (nonlinear_arith)
                        requires a < next_day.days;
                }
            }
            return UsagePeriodBounds { start: begin, end: Some(next) };
        }
        proof {
            assert(next_day.days <= now.day()) by (nonlinear_arith)
                requires
                    next.nanos == next_day.days * NANOS_PER_DAY + time,
                    next.nanos <= now.nanos,
                    0 <= time < NANOS_PER_DAY,
                    now.day() == (now.nanos as int) / (NANOS_PER_DAY as int),
                    NANOS_PER_DAY > 0;
            assert(a + 28 * months - 3 <= next_day.days);
            assert(28 * (k + 1) * step == 28 * months) by (nonlinear_arith)
                requires months == (k + 1) * step;
            assert(28 * (k + 1) * step <= span + 3);
            assert(28 * (k + 1) * step == 28 * k * step + 28 * step) by (nonlinear_arith);
        }
        k = k + 1;
        start = next_day;
    }
}

/// The fixed-window bucket of `interval` units anchored at `act` that holds
/// `now`, as `[start, end)`. Hours, days and weeks have constant length and
/// are computed in closed form; months and years are walked forward in
/// `interval`-sized steps from the activation.
pub fn fixed_window(act: DateTime, now: DateTime, unit: PeriodUnit, interval: u32) -> (r: UsagePeriodBounds)
    requires
        fixed_defined(act, now, unit, interval as int),
    ensures
        (unit is Month || unit is Year) ==> (r.end matches Some(e) && month_bucket(act, now,
            if unit is Month { interval as int } else { 12 * interval }, r.start.nanos as int, e.nanos as int)),
        r.end matches Some(e) && r.start.nanos < e.nanos,
        act.nanos <= now.nanos ==> r.start.nanos <= now.nanos,
        !(unit is Month || unit is Year) ==> (r.start.nanos == fixed_bucket_start(act.nanos as int, now.nanos as int, step_hours(unit, interval as int))
            && r.end == Some(DateTime { nanos: (r.start.nanos + step_hours(unit, interval as int) * NANOS_PER_HOUR) as i128 })),
{
    match unit {
        PeriodUnit::Month => fixed_months(act, now, interval),
        PeriodUnit::Year => {
            let step = interval * 12;
            fixed_months(act, now, step)
        },
        _ => {
            let iv = interval as i128;
            let step: i128 = match unit {
                PeriodUnit::Hour => iv,
                PeriodUnit::Day => 24 * iv,
                _ => 168 * iv,
            };
            proof {
                lemma_instant_magnitude(act);
                lemma_instant_magnitude(now);
            }
            let span = now.nanos - act.nanos;
            let secs = div_toward_zero(span, 1_000_000_000);
            proof {
                lemma_trunc_shrinks(span as int, 1_000_000_000);
            }
            let hours = div_toward_zero(secs, 3600);
            proof {
                lemma_trunc_shrinks(secs as int, 3600);
            }
            let elapsed = if hours >= 0 { hours } else { 0 };
            let bucket = elapsed / step;
            proof {
                assert(0 <= bucket * step <= elapsed) by (nonlinear_arith)
                    requires bucket == elapsed / step, elapsed >= 0, step >= 1;
                assert(elapsed <= 20_000_000_000_000_000_000_000_000);
                assert(bucket * step * NANOS_PER_HOUR <= 20_000_000_000_000_000_000_000_000 * NANOS_PER_HOUR) by (nonlinear_arith)
                    requires 0 <= bucket * step <= 20_000_000_000_000_000_000_000_000;
                assert(0 <= bucket * step * NANOS_PER_HOUR) by (nonlinear_arith)
                    requires 0 <= bucket * step;
                assert(step * NANOS_PER_HOUR <= 168 * 0x1_0000_0000 * NANOS_PER_HOUR) by (nonlinear_arith)
                    requires step <= 168 * 0x1_0000_0000;
            }
            let start = act.nanos + bucket * step * NANOS_PER_HOUR;
            let end = start + step * NANOS_PER_HOUR;
            UsagePeriodBounds { start: DateTime { nanos: start }, end: Some(DateTime { nanos: end }) }
        },
    }
}

/// The start of a sliding window of `interval` units ending at `now`.
pub fn subtract_duration(now: DateTime, unit: PeriodUnit, interval: u32) -> (r: DateTime)
    requires
        sliding_defined(now, unit, interval as int),
    ensures
        r.nanos == sliding_start(now, unit, interval as int),
{
    match unit {
        PeriodUnit::Hour => DateTime { nanos: now.nanos - (interval as i128) * NANOS_PER_HOUR },
        PeriodUnit::Day => {
            let d = date_of(now);
            at_time(Date { days: d.days - interval as i64 }, time_of(now))
        },
        PeriodUnit::Week => {
            let d = date_of(now);
            at_time(Date { days: d.days - 7 * interval as i64 }, time_of(now))
        },
        PeriodUnit::Month => {
            let d = date_of(now);
            at_time(sub_months(d, interval), time_of(now))
        },
        PeriodUnit::Year => {
            let d = date_of(now);
            let months = interval * 12;
            assert(31 * (months as int) == 372 * (interval as int)) by (nonlinear_arith)
                requires months as int == (interval as int) * 12;
            at_time(sub_months(d, months), time_of(now))
        },
    }
}

/// Inputs on which a usage window is defined: `now` and the dates used are
/// within range, intervals are positive where they divide, and no date
/// computed leaves `chrono`'s range.
pub open spec fn usage_period_defined(reset: ResetPeriod, bc: Option<BillingCyclePeriod>, act: Option<DateTime>, now: DateTime) -> bool {
    &&& now.wf()
    &&& match reset {
        ResetPeriod::Never => true,
        ResetPeriod::BillingCycle => bc matches Some(b) ==> (b.period_start.wf()
            && (b.period_end matches Some(e) ==> e.wf() && e.days < MAX_DAYS)),
        ResetPeriod::Calendar { unit, interval } => calendar_defined(now, unit, interval as int),
        ResetPeriod::FixedWindow { unit, interval } => act matches Some(a) ==> fixed_defined(a, now, unit, interval as int),
        ResetPeriod::SlidingWindow { unit, interval } => sliding_defined(now, unit, interval as int),
    }
}

/// `r` is the usage window for these inputs (see [`compute_usage_period`]).
pub open spec fn usage_period_is(reset: ResetPeriod, bc: Option<BillingCyclePeriod>, act: Option<DateTime>, now: DateTime, r: UsagePeriodBounds) -> bool {
    match reset {
        ResetPeriod::Never => r.start == (match act { Some(a) => a, None => now }) && r.end is None,
        ResetPeriod::BillingCycle => match bc {
            Some(b) => r.start.nanos == midnight_of(b.period_start.days as int) && match b.period_end {
                Some(e) => r.end == Some(DateTime { nanos: midnight_of(e.days + 1) as i128 }),
                None => r.end is None,
            },
            None => r.start == now && r.end is None,
        },
        ResetPeriod::Calendar { unit, interval } =>
            r.start.nanos == calendar_bounds(now, unit, interval as int).0
                && r.end == Some(DateTime { nanos: calendar_bounds(now, unit, interval as int).1 as i128 }),
        ResetPeriod::FixedWindow { unit, interval } => match act {
            Some(a) => if unit is Month || unit is Year {
                r.end matches Some(e) && month_bucket(a, now, if unit is Month { interval as int } else { 12 * interval },
                    r.start.nanos as int, e.nanos as int)
            } else {
                r.start.nanos == fixed_bucket_start(a.nanos as int, now.nanos as int, step_hours(unit, interval as int))
                    && r.end == Some(DateTime { nanos: (r.start.nanos + step_hours(unit, interval as int) * NANOS_PER_HOUR) as i128 })
            },
            None => r.start == now && r.end is None,
        },
        ResetPeriod::SlidingWindow { unit, interval } =>
            r.start.nanos == sliding_start(now, unit, interval as int) && r.end == Some(now),
    }
}

/// The window over which usage counts against a metered entitlement:
/// `Never` runs from activation (or `now`) without end; `BillingCycle` is the
/// subscription's current period (end exclusive: the day after its last day),
/// or `[now, ∞)` without a subscription; `Calendar` buckets are anchored on a
/// global epoch; `FixedWindow` buckets are anchored on the activation (or
/// `[now, ∞)` without one); `SlidingWindow` is `[now − interval, now]`.
pub fn compute_usage_period(reset_period: &ResetPeriod, billing_cycle: Option<BillingCyclePeriod>, activation_date: Option<DateTime>, now: DateTime) -> (r: UsagePeriodBounds)
    requires
        usage_period_defined(*reset_period, billing_cycle, activation_date, now),
    ensures
        usage_period_is(*reset_period, billing_cycle, activation_date, now, r),
{
    match reset_period {
        ResetPeriod::Never => UsagePeriodBounds {
            start: match activation_date {
                Some(a) => a,
                None => now,
            },
            end: None,
        },
        ResetPeriod::BillingCycle => match billing_cycle {
            Some(bc) => UsagePeriodBounds {
                start: midnight(bc.period_start),
                end: match bc.period_end {
                    Some(d) => Some(midnight(Date { days: d.days + 1 })),
                    None => None,
                },
            },
            None => UsagePeriodBounds { start: now, end: None },
        },
        ResetPeriod::Calendar { unit, interval } => calendar_period(now, *unit, *interval),
        ResetPeriod::FixedWindow { unit, interval } => match activation_date {
            Some(act) => fixed_window(act, now, *unit, *interval),
            None => UsagePeriodBounds { start: now, end: None },
        },
        ResetPeriod::SlidingWindow { unit, interval } => UsagePeriodBounds {
            start: subtract_duration(now, *unit, *interval),
            end: Some(now),
        },
    }
}

/// [`usage_period_defined`] without the month-window bound, which depends on
/// the calendar and is checked at run time by [`try_compute_usage_period`].
pub open spec fn usage_period_defined_before_calendar(reset: ResetPeriod, bc: Option<BillingCyclePeriod>, act: Option<DateTime>, now: DateTime) -> bool {
    match reset {
        ResetPeriod::Calendar { unit: PeriodUnit::Month, interval } => now.wf() && interval > 0,
        _ => usage_period_defined(reset, bc, act, now),
    }
}

/// [`compute_usage_period`] for callers that cannot know in advance whether a
/// calendar-month window ends within `chrono`'s range: returns `None` exactly
/// when it would not (where the computation would panic).
pub fn try_compute_usage_period(reset_period: &ResetPeriod, billing_cycle: Option<BillingCyclePeriod>, activation_date: Option<DateTime>, now: DateTime) -> (r: Option<UsagePeriodBounds>)
    requires
        usage_period_defined_before_calendar(*reset_period, billing_cycle, activation_date, now),
    ensures
        r is None <==> !usage_period_defined(*reset_period, billing_cycle, activation_date, now),
        r matches Some(b) ==> usage_period_is(*reset_period, billing_cycle, activation_date, now, b),
{
    match reset_period {
        ResetPeriod::Calendar { unit: PeriodUnit::Month, interval } => {
            let start = month_window_first_day(now, *interval);
            if start.days as i128 + 31 * (*interval as i128) > MAX_DAYS as i128 {
                return None;
            }
        },
        _ => {},
    }
    Some(compute_usage_period(reset_period, billing_cycle, activation_date, now))
}

} // verus!
