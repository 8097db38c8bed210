use meteroid_store::entitlement_values::PeriodUnit;
use meteroid_store::time::DateTime;
use meteroid_store::usage_periods::{calendar_period, fixed_window};

const HOUR: i128 = 3_600_000_000_000;
const DAY: i128 = 24 * HOUR;

fn holds(start: DateTime, end: Option<DateTime>, now: DateTime) -> bool {
    start.nanos <= now.nanos && end.map_or(true, |e| now.nanos < e.nanos)
}

#[test]
fn fixed_windows_hold_now_after_activation() {
    let act = DateTime { nanos: 20_000 * DAY + 5 * HOUR + 17 };
    for (unit, interval) in [(PeriodUnit::Hour, 5u32), (PeriodUnit::Day, 3), (PeriodUnit::Week, 2), (PeriodUnit::Month, 1), (PeriodUnit::Year, 1)] {
        for offset in [0i128, 1, HOUR - 1, 7 * HOUR, 40 * DAY + 3, 400 * DAY + HOUR] {
            let now = DateTime { nanos: act.nanos + offset };
            let w = fixed_window(act, now, unit, interval);
            assert!(holds(w.start, w.end, now), "{:?} {} {}", unit, interval, offset);
        }
    }
}

#[test]
fn fixed_window_before_activation_is_the_first_bucket() {
    let act = DateTime { nanos: 20_000 * DAY };
    let now = DateTime { nanos: act.nanos - 3 * HOUR };
    let w = fixed_window(act, now, PeriodUnit::Day, 2);
    assert_eq!(w.start, act);
    assert_eq!(w.end, Some(DateTime { nanos: act.nanos + 2 * DAY }));
}

#[test]
fn calendar_windows_hold_now_after_the_epoch() {
    for (unit, interval) in [(PeriodUnit::Hour, 6u32), (PeriodUnit::Day, 7), (PeriodUnit::Week, 3)] {
        for nanos in [0i128, 1, HOUR, 3 * DAY + 1, 20_123 * DAY + 13 * HOUR] {
            let now = DateTime { nanos };
            let w = calendar_period(now, unit, interval);
            assert!(holds(w.start, w.end, now), "{:?} {} {}", unit, interval, nanos);
        }
    }
}

#[test]
fn calendar_day_window_before_the_epoch_rounds_toward_zero() {
    // 1969-12-31 with a 7-day window: the bucket index rounds toward zero,
    // so the window starts at the epoch, after `now`.
    let now = DateTime { nanos: -DAY + HOUR };
    let w = calendar_period(now, PeriodUnit::Day, 7);
    assert_eq!(w.start, DateTime { nanos: 0 });
    assert!(!holds(w.start, w.end, now));
}

fn day_of(y: i32, m: u32, d: u32) -> DateTime {
    let epoch = chrono::NaiveDate::from_ymd_opt(1970, 1, 1).unwrap();
    let date = chrono::NaiveDate::from_ymd_opt(y, m, d).unwrap();
    DateTime { nanos: date.signed_duration_since(epoch).num_days() as i128 * DAY }
}

#[test]
fn month_windows_are_counted_from_the_activation_day() {
    // window 1 runs from activation + 1 month to activation + 2 months:
    // [Feb 28, Mar 31), not a step from the clamped Feb 28
    let w = fixed_window(day_of(2025, 1, 31), day_of(2025, 3, 30), PeriodUnit::Month, 1);
    assert_eq!(w.start, day_of(2025, 2, 28));
    assert_eq!(w.end, Some(day_of(2025, 3, 31)));
    let later = fixed_window(day_of(2025, 1, 31), day_of(2025, 5, 1), PeriodUnit::Month, 1);
    assert_eq!(later.start, day_of(2025, 4, 30));
    assert_eq!(later.end, Some(day_of(2025, 5, 31)));
}

#[test]
fn year_windows_from_a_leap_day() {
    let w = fixed_window(day_of(2024, 2, 29), day_of(2028, 3, 1), PeriodUnit::Year, 1);
    assert_eq!(w.start, day_of(2028, 2, 29));
    assert_eq!(w.end, Some(day_of(2029, 2, 28)));
}

#[test]
fn calendar_windows_are_reproduced_by_each_of_their_instants() {
    for (unit, interval) in [(PeriodUnit::Hour, 5u32), (PeriodUnit::Day, 7), (PeriodUnit::Week, 2)] {
        let now = DateTime { nanos: 20_123 * DAY + 13 * HOUR + 17 };
        let w = calendar_period(now, unit, interval);
        let end = w.end.unwrap();
        for probe in [w.start.nanos, w.start.nanos + 1, (w.start.nanos + end.nanos) / 2, end.nanos - 1] {
            let again = calendar_period(DateTime { nanos: probe }, unit, interval);
            assert_eq!(again, w, "{:?} {}", unit, interval);
        }
    }
}
