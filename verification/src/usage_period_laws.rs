//! Usage windows hold the instant they are computed for.
use vstd::prelude::*;
use crate::entitlement_values::PeriodUnit;
use crate::time::{div_trunc, DateTime, NANOS_PER_DAY, NANOS_PER_HOUR};
use crate::usage_periods::{calendar_bounds, fixed_bucket_start, midnight_of, month_bucket, whole_hours, window_day};

verus! {

/// Floor division brackets its dividend: `q * b <= a < (q + 1) * b`.
proof fn lemma_floor_bracket(a: int, b: int)
    requires
        a >= 0,
        b > 0,
    ensures
        (a / b) * b <= a < (a / b + 1) * b,
        a / b >= 0,
{
    assert((a / b) * b <= a < (a / b + 1) * b && a / b >= 0) by (nonlinear_arith)
        requires a >= 0, b > 0;
}

/// A span of `d >= 0` nanoseconds holds its whole hours and less than one more.
proof fn lemma_whole_hours(d: int)
    requires
        d >= 0,
    ensures
        whole_hours(d) >= 0,
        whole_hours(d) * NANOS_PER_HOUR <= d < (whole_hours(d) + 1) * NANOS_PER_HOUR,
{
    let s = d / 1_000_000_000;
    lemma_floor_bracket(d, 1_000_000_000);
    lemma_floor_bracket(s, 3600);
    let h = s / 3600;
    assert(whole_hours(d) == h);
    assert(h * NANOS_PER_HOUR == (h * 3600) * 1_000_000_000);
    assert((h + 1) * NANOS_PER_HOUR == ((h + 1) * 3600) * 1_000_000_000);
    assert((h * 3600) * 1_000_000_000 <= s * 1_000_000_000) by (nonlinear_arith)
        requires h * 3600 <= s;
    assert(s * 1_000_000_000 + 1_000_000_000 <= ((h + 1) * 3600) * 1_000_000_000) by (nonlinear_arith)
        requires s + 1 <= (h + 1) * 3600;
}

/// A fixed window of `step` hours anchored at the activation `act` holds
/// `now` once `now` has reached `act`; before that, the first bucket (which
/// starts at `act`) is the window.
pub proof fn law_fixed_window_holds_now(act: int, now: int, step: int)
    requires
        step > 0,
    ensures
        act <= now ==> fixed_bucket_start(act, now, step) <= now
            < fixed_bucket_start(act, now, step) + step * NANOS_PER_HOUR,
        now < act ==> fixed_bucket_start(act, now, step) == act,
{
    if act <= now {
        let h = whole_hours(now - act);
        lemma_whole_hours(now - act);
        lemma_floor_bracket(h, step);
        let q = h / step;
        assert(q * step * NANOS_PER_HOUR <= h * NANOS_PER_HOUR) by (nonlinear_arith)
            requires q * step <= h;
        assert((h + 1) * NANOS_PER_HOUR <= (q + 1) * step * NANOS_PER_HOUR) by (nonlinear_arith)
            requires h + 1 <= (q + 1) * step;
        assert(q * step * NANOS_PER_HOUR + step * NANOS_PER_HOUR == (q + 1) * step * NANOS_PER_HOUR) by (nonlinear_arith);
    } else {
        assert(div_trunc(now - act, 1_000_000_000) <= 0);
        assert(whole_hours(now - act) <= 0);
    }
}

/// A fixed window counted in months, anchored at the activation, holds `now`
/// once `now` has reached the activation.
pub proof fn law_month_window_holds_now(act: DateTime, now: DateTime, step: int, start: int, end: int)
    requires
        month_bucket(act, now, step, start, end),
        act.nanos <= now.nanos,
    ensures
        start <= now.nanos < end,
{
    let k = choose|k: nat| {
        &&& start == midnight_of(window_day(act.day(), step, k)) + act.time_of_day()
        &&& end == midnight_of(#[trigger] window_day(act.day(), step, k + 1)) + act.time_of_day()
        &&& end > now.nanos
        &&& forall|j: nat| 1 <= j <= k ==> midnight_of(#[trigger] window_day(act.day(), step, j)) + act.time_of_day() <= now.nanos
    };
    if k == 0 {
        assert(window_day(act.day(), step, 0) == act.day());
        assert(act.day() * NANOS_PER_DAY + act.time_of_day() == act.nanos) by (nonlinear_arith)
            requires act.day() == (act.nanos as int) / (NANOS_PER_DAY as int),
                act.time_of_day() == (act.nanos as int) % (NANOS_PER_DAY as int);
    } else {
        assert(midnight_of(window_day(act.day(), step, k)) + act.time_of_day() <= now.nanos);
    }
}

/// A calendar window counted in hours, days or weeks holds `now` for every
/// instant from the Unix epoch on.
pub proof fn law_calendar_window_holds_now(now: DateTime, unit: PeriodUnit, interval: int)
    requires
        now.nanos >= 0,
        interval > 0,
        unit is Hour || unit is Day || unit is Week,
    ensures
        calendar_bounds(now, unit, interval).0 <= now.nanos < calendar_bounds(now, unit, interval).1,
{
    let n = now.nanos as int;
    let today = now.day();
    lemma_floor_bracket(n, NANOS_PER_DAY as int);
    assert(today * NANOS_PER_DAY <= n < (today + 1) * NANOS_PER_DAY);
    match unit {
        PeriodUnit::Hour => {
            let h = whole_hours(n);
            lemma_whole_hours(n);
            lemma_floor_bracket(h, interval);
            let q = h / interval;
            assert(div_trunc(h, interval) == q);
            assert(q * interval * NANOS_PER_HOUR <= h * NANOS_PER_HOUR) by (nonlinear_arith)
                requires q * interval <= h;
            assert((h + 1) * NANOS_PER_HOUR <= (q + 1) * interval * NANOS_PER_HOUR) by (nonlinear_arith)
                requires h + 1 <= (q + 1) * interval;
            assert(q * interval * NANOS_PER_HOUR + interval * NANOS_PER_HOUR == (q + 1) * interval * NANOS_PER_HOUR) by (nonlinear_arith);
        },
        PeriodUnit::Day => {
            lemma_floor_bracket(today, interval);
            let q = today / interval;
            assert(div_trunc(today, interval) == q);
            assert(midnight_of(q * interval) <= midnight_of(today)) by (nonlinear_arith)
                requires q * interval <= today;
            assert(midnight_of(today + 1) <= midnight_of(q * interval + interval)) by (nonlinear_arith)
                requires today + 1 <= (q + 1) * interval;
        },
        PeriodUnit::Week => {
            lemma_floor_bracket(today + 3, 7);
            let w = (today + 3) / 7;
            assert(div_trunc(today + 3, 7) == w);
            lemma_floor_bracket(w, interval);
            let q = w / interval;
            assert(div_trunc(w, interval) == q);
            assert(q * 7 * interval <= 7 * w) by (nonlinear_arith)
                requires q * interval <= w;
            assert(7 * (w + 1) <= q * 7 * interval + 7 * interval) by (nonlinear_arith)
                requires w + 1 <= (q + 1) * interval;
            let start = -3 + q * 7 * interval;
            assert(midnight_of(start) <= midnight_of(today)) by (nonlinear_arith)
                requires start <= today;
            assert(midnight_of(today + 1) <= midnight_of(start + 7 * interval)) by (nonlinear_arith)
                requires today + 1 <= start + 7 * interval;
        },
        _ => {},
    }
}

/// Floor division by `b` is constant on `[q × b, (q + 1) × b)`.
proof fn lemma_floor_in_block(x: int, q: int, b: int)
    requires
        b > 0,
        q * b <= x < (q + 1) * b,
    ensures
        x / b == q,
{
    assert(x / b == q) by (nonlinear_arith)
        requires b > 0, q * b <= x, x < (q + 1) * b;
}

/// Calendar windows counted in hours, days or weeks are fixed buckets: from
/// the Unix epoch on, every instant of the window computed for `now` gets
/// that same window (the window's own start included).
pub proof fn law_calendar_window_reproduces(now: DateTime, other: DateTime, unit: PeriodUnit, interval: int)
    requires
        now.nanos >= 0,
        interval > 0,
        unit is Hour || unit is Day || unit is Week,
        calendar_bounds(now, unit, interval).0 <= other.nanos < calendar_bounds(now, unit, interval).1,
    ensures
        calendar_bounds(other, unit, interval) == calendar_bounds(now, unit, interval),
{
    let n = now.nanos as int;
    let m = other.nanos as int;
    let today = now.day();
    let oday = other.day();
    lemma_floor_bracket(n, NANOS_PER_DAY as int);
    match unit {
        PeriodUnit::Hour => {
            let h = whole_hours(n);
            lemma_whole_hours(n);
            lemma_floor_bracket(h, interval);
            let q = h / interval;
            assert(div_trunc(h, interval) == q);
            assert(q >= 0);
            assert(q * interval * NANOS_PER_HOUR >= 0) by (nonlinear_arith)
                requires q >= 0, interval > 0;
            assert(m >= 0);
            let h2 = whole_hours(m);
            lemma_whole_hours(m);
            // h2 lies in [q × interval, (q + 1) × interval)
            assert(q * interval <= h2) by (nonlinear_arith)
                requires q * interval * NANOS_PER_HOUR <= m, m < (h2 + 1) * NANOS_PER_HOUR, NANOS_PER_HOUR > 0;
            assert(h2 < (q + 1) * interval) by (nonlinear_arith)
                requires m < q * interval * NANOS_PER_HOUR + interval * NANOS_PER_HOUR, h2 * NANOS_PER_HOUR <= m,
                    NANOS_PER_HOUR > 0;
            lemma_floor_in_block(h2, q, interval);
            assert(div_trunc(h2, interval) == q);
        },
        PeriodUnit::Day => {
            lemma_floor_bracket(today, interval);
            let q = today / interval;
            assert(div_trunc(today, interval) == q);
            assert(q * interval >= 0) by (nonlinear_arith) requires q >= 0, interval > 0;
            assert(m >= 0) by (nonlinear_arith)
                requires midnight_of(q * interval) <= m, q * interval >= 0;
            lemma_floor_bracket(m, NANOS_PER_DAY as int);
            assert(q * interval <= oday) by (nonlinear_arith)
                requires (q * interval) * NANOS_PER_DAY <= m, m < (oday + 1) * NANOS_PER_DAY, NANOS_PER_DAY > 0;
            assert(oday < (q + 1) * interval) by (nonlinear_arith)
                requires m < (q * interval + interval) * NANOS_PER_DAY, oday * NANOS_PER_DAY <= m, NANOS_PER_DAY > 0;
            lemma_floor_in_block(oday, q, interval);
            assert(div_trunc(oday, interval) == q);
        },
        PeriodUnit::Week => {
            lemma_floor_bracket(today + 3, 7);
            let w = (today + 3) / 7;
            assert(div_trunc(today + 3, 7) == w);
            lemma_floor_bracket(w, interval);
            let q = w / interval;
            assert(div_trunc(w, interval) == q);
            let start = -3 + q * 7 * interval;
            assert(q * 7 * interval >= 0) by (nonlinear_arith) requires q >= 0, interval > 0;
            assert(m >= -3 * NANOS_PER_DAY) by (nonlinear_arith)
                requires midnight_of(start) <= m, start >= -3;
            assert(start <= oday) by (nonlinear_arith)
                requires start * NANOS_PER_DAY <= m, m < (oday + 1) * NANOS_PER_DAY, NANOS_PER_DAY > 0;
            assert(oday < start + 7 * interval) by (nonlinear_arith)
                requires m < (start + 7 * interval) * NANOS_PER_DAY, oday * NANOS_PER_DAY <= m, NANOS_PER_DAY > 0;
            assert(oday + 3 >= 0);
            let w2 = (oday + 3) / 7;
            assert(q * interval <= w2 && w2 < (q + 1) * interval) by (nonlinear_arith)
                requires q * 7 * interval <= oday + 3, oday + 3 < q * 7 * interval + 7 * interval,
                    w2 == (oday + 3) / 7, interval > 0;
            assert(div_trunc(oday + 3, 7) == w2);
            lemma_floor_in_block(w2, q, interval);
            assert(div_trunc(w2, interval) == q);
        },
        _ => {},
    }
}

} // verus!
