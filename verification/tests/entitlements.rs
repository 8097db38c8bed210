use meteroid_store::entitlement_chains::{
    build_chain_for_addon, build_chain_for_product, chain_mixes_subscription_and_quote, plan_version_chain,
};
use meteroid_store::entitlement_resolution::{
    resolve, Entitlement, Feature, FeatureStatus, RawResolvedEntitlement, ResolvedEntitlementValue,
};
use meteroid_store::entitlement_values::{
    EntitlementEntityId, EntitlementMode, EntitlementValue, FeatureType, OverageBehavior, PeriodUnit, ResetPeriod,
};
use meteroid_store::time::{Date, DateTime};
use meteroid_store::usage_periods::{calendar_period, compute_usage_period, subtract_duration, BillingCyclePeriod};

const NOW_MICROS: i64 = 1_750_000_000_000_000;
const MINUTE_MICROS: i64 = 60_000_000;
const NANOS_PER_DAY: i128 = 86_400_000_000_000;

fn make_feature(id: u128, feature_type: FeatureType) -> Feature {
    Feature {
        id,
        name: id.to_string(),
        product: None,
        feature_type,
        status: FeatureStatus::Active,
    }
}

fn make_entitlement(feature_id: u128, entity: EntitlementEntityId, mode: EntitlementMode, value: EntitlementValue) -> Entitlement {
    Entitlement {
        id: feature_id ^ 0xE000,
        feature_id,
        entity,
        mode,
        value,
        created_at: NOW_MICROS,
    }
}

fn metered(limit: Option<u64>, enabled: bool) -> EntitlementValue {
    EntitlementValue::Metered {
        limit,
        reset_period: ResetPeriod::Never,
        overage_behavior: OverageBehavior::Block { grace_period_pct: None },
        warning_threshold_pct: None,
        enabled,
    }
}

fn metered_limit(r: &RawResolvedEntitlement) -> Option<u64> {
    match r.value {
        ResolvedEntitlementValue::Metered { limit, .. } => limit,
        _ => panic!("expected metered value"),
    }
}

fn d(y: i32, m: u32, day: u32) -> Date {
    let epoch = chrono::NaiveDate::from_ymd_opt(1970, 1, 1).unwrap();
    let date = chrono::NaiveDate::from_ymd_opt(y, m, day).unwrap();
    Date { days: date.signed_duration_since(epoch).num_days() }
}

fn dt(y: i32, m: u32, day: u32) -> DateTime {
    DateTime { nanos: d(y, m, day).days as i128 * NANOS_PER_DAY }
}

fn dt_hms(y: i32, m: u32, day: u32, h: u32, min: u32, s: u32) -> DateTime {
    let secs = (h as i128) * 3600 + (min as i128) * 60 + s as i128;
    DateTime { nanos: dt(y, m, day).nanos + secs * 1_000_000_000 }
}

#[test]
fn chain_for_product_is_empty() {
    let pid: u128 = 11;
    assert!(build_chain_for_product(pid).is_empty());
}

#[test]
fn chain_for_addon_is_just_addon() {
    let aid: u128 = 21;
    assert_eq!(build_chain_for_addon(aid), vec![EntitlementEntityId::AddOn(aid)]);
}

#[test]
fn plan_version_chain_includes_linked_add_ons() {
    let plan_id: u128 = 1;
    let pv_id: u128 = 2;
    let aid1: u128 = 3;
    let aid2: u128 = 4;
    assert_eq!(
        plan_version_chain(plan_id, pv_id, &[aid1, aid2]),
        vec![
            EntitlementEntityId::Plan(plan_id),
            EntitlementEntityId::PlanVersion(pv_id),
            EntitlementEntityId::AddOn(aid1),
            EntitlementEntityId::AddOn(aid2),
        ]
    );
}

#[test]
fn chain_mixes_sub_and_quote_detects_collision() {
    let plan = EntitlementEntityId::Plan(1);
    let pv = EntitlementEntityId::PlanVersion(2);
    let sub = EntitlementEntityId::Subscription(3);
    let quote = EntitlementEntityId::Quote(4);
    assert!(!chain_mixes_subscription_and_quote(&[]));
    assert!(!chain_mixes_subscription_and_quote(&[plan, pv, sub]));
    assert!(!chain_mixes_subscription_and_quote(&[plan, pv, quote]));
    assert!(chain_mixes_subscription_and_quote(&[plan, pv, sub, quote]));
    assert!(chain_mixes_subscription_and_quote(&[quote, sub]));
}

#[test]
fn plan_version_chain_without_add_ons() {
    let plan_id: u128 = 5;
    let pv_id: u128 = 6;
    assert_eq!(
        plan_version_chain(plan_id, pv_id, &[]),
        vec![EntitlementEntityId::Plan(plan_id), EntitlementEntityId::PlanVersion(pv_id)]
    );
}

#[test]
fn grant_boolean_merges_permissively() {
    let fid: u128 = 100;
    let features = vec![make_feature(fid, FeatureType::Boolean)];
    let entitlements = vec![
        make_entitlement(fid, EntitlementEntityId::Plan(1), EntitlementMode::Stack, EntitlementValue::Boolean { enabled: false }),
        make_entitlement(fid, EntitlementEntityId::Subscription(2), EntitlementMode::Stack, EntitlementValue::Boolean { enabled: true }),
    ];
    let result = resolve(entitlements, features, &vec![]);
    assert_eq!(result.len(), 1);
    assert!(matches!(result[0].value, ResolvedEntitlementValue::Boolean { enabled: true, .. }));
}

#[test]
fn disabled_feature_suppressed() {
    let fid: u128 = 101;
    let mut feature = make_feature(fid, FeatureType::Boolean);
    feature.status = FeatureStatus::Disabled;
    let entitlements = vec![make_entitlement(
        fid,
        EntitlementEntityId::Plan(1),
        EntitlementMode::Stack,
        EntitlementValue::Boolean { enabled: true },
    )];
    let result = resolve(entitlements, vec![feature], &vec![]);
    assert!(result.is_empty());
}

#[test]
fn override_replaces_lower_priority() {
    let fid: u128 = 102;
    let features = vec![make_feature(fid, FeatureType::Metered { metric_id: 900 })];
    let entitlements = vec![
        make_entitlement(fid, EntitlementEntityId::Plan(1), EntitlementMode::Stack, metered(Some(100), true)),
        make_entitlement(fid, EntitlementEntityId::Subscription(2), EntitlementMode::Override, metered(Some(500), true)),
    ];
    let result = resolve(entitlements, features, &vec![]);
    assert_eq!(result.len(), 1);
    assert!(matches!(result[0].value, ResolvedEntitlementValue::Metered { limit: Some(l), .. } if l == 500));
}

#[test]
fn metered_grants_sum_additively() {
    let fid: u128 = 103;
    let features = vec![make_feature(fid, FeatureType::Metered { metric_id: 901 })];
    let aid1: u128 = 31;
    let aid2: u128 = 32;
    let multi = vec![aid1, aid2];
    let entitlements = vec![
        make_entitlement(
            fid,
            EntitlementEntityId::AddOn(aid1),
            EntitlementMode::Stack,
            EntitlementValue::Metered {
                limit: Some(1000),
                reset_period: ResetPeriod::BillingCycle,
                overage_behavior: OverageBehavior::Block { grace_period_pct: None },
                warning_threshold_pct: Some(90),
                enabled: true,
            },
        ),
        make_entitlement(fid, EntitlementEntityId::AddOn(aid2), EntitlementMode::Stack, metered(Some(1000), true)),
    ];
    let result = resolve(entitlements, features, &multi);
    assert_eq!(result.len(), 1);
    assert_eq!(metered_limit(&result[0]), Some(2000));
}

#[test]
fn merge_additive_metered_enabled_ors_kill_switch() {
    let fid: u128 = 104;
    let aid_on: u128 = 41;
    let aid_off: u128 = 42;
    let multi = vec![aid_on, aid_off];
    for (first, second) in [(aid_on, aid_off), (aid_off, aid_on)] {
        let features = vec![make_feature(fid, FeatureType::Metered { metric_id: 902 })];
        let mut a = make_entitlement(fid, EntitlementEntityId::AddOn(first), EntitlementMode::Stack, metered(Some(100), first == aid_on));
        a.created_at = NOW_MICROS - MINUTE_MICROS;
        let mut b = make_entitlement(fid, EntitlementEntityId::AddOn(second), EntitlementMode::Stack, metered(Some(100), second == aid_on));
        b.created_at = NOW_MICROS;
        let result = resolve(vec![a, b], features, &multi);
        assert_eq!(result.len(), 1);
        let ResolvedEntitlementValue::Metered { enabled, .. } = result[0].value else {
            panic!("expected metered");
        };
        assert!(enabled, "additive merge must OR the kill-switch (order: {first:?} then {second:?})");
    }
}

#[test]
fn metered_unlimited_wins_over_capped() {
    let fid: u128 = 105;
    let features = vec![make_feature(fid, FeatureType::Metered { metric_id: 903 })];
    let entitlements = vec![
        make_entitlement(
            fid,
            EntitlementEntityId::Plan(1),
            EntitlementMode::Stack,
            EntitlementValue::Metered {
                limit: Some(100),
                reset_period: ResetPeriod::Calendar { unit: PeriodUnit::Month, interval: 1 },
                overage_behavior: OverageBehavior::Allow,
                warning_threshold_pct: Some(80),
                enabled: true,
            },
        ),
        make_entitlement(fid, EntitlementEntityId::AddOn(51), EntitlementMode::Stack, metered(None, true)),
    ];
    let result = resolve(entitlements, features, &vec![]);
    assert_eq!(result.len(), 1);
    assert_eq!(metered_limit(&result[0]), None);
}

#[test]
fn override_replaces_accumulated_value() {
    let fid: u128 = 106;
    let features = vec![make_feature(fid, FeatureType::Metered { metric_id: 904 })];
    let entitlements = vec![
        make_entitlement(
            fid,
            EntitlementEntityId::Plan(1),
            EntitlementMode::Stack,
            EntitlementValue::Metered {
                limit: Some(100),
                reset_period: ResetPeriod::Never,
                overage_behavior: OverageBehavior::Block { grace_period_pct: None },
                warning_threshold_pct: Some(70),
                enabled: true,
            },
        ),
        make_entitlement(
            fid,
            EntitlementEntityId::PlanVersion(2),
            EntitlementMode::Override,
            EntitlementValue::Metered {
                limit: Some(200),
                reset_period: ResetPeriod::BillingCycle,
                overage_behavior: OverageBehavior::Allow,
                warning_threshold_pct: Some(90),
                enabled: true,
            },
        ),
    ];
    let result = resolve(entitlements, features, &vec![]);
    assert_eq!(result.len(), 1);
    let ResolvedEntitlementValue::Metered { limit, reset_period, overage_behavior, warning_threshold_pct, .. } = result[0].value else {
        panic!("expected metered value");
    };
    assert_eq!(limit, Some(200));
    assert!(matches!(reset_period, ResetPeriod::BillingCycle));
    assert!(matches!(overage_behavior, OverageBehavior::Allow));
    assert_eq!(warning_threshold_pct, Some(90));
}

#[test]
fn unknown_feature_excluded() {
    let fid: u128 = 107;
    let features = vec![];
    let entitlements = vec![make_entitlement(
        fid,
        EntitlementEntityId::Plan(1),
        EntitlementMode::Stack,
        EntitlementValue::Boolean { enabled: true },
    )];
    let result = resolve(entitlements, features, &vec![]);
    assert!(result.is_empty());
}

#[test]
fn disabled_resolves_to_higher_priority() {
    let fid: u128 = 108;
    let features = vec![make_feature(fid, FeatureType::Metered { metric_id: 905 })];
    let entitlements = vec![
        make_entitlement(fid, EntitlementEntityId::Plan(1), EntitlementMode::Stack, metered(Some(100), false)),
        make_entitlement(fid, EntitlementEntityId::Subscription(2), EntitlementMode::Stack, metered(Some(100), true)),
    ];
    let result = resolve(entitlements, features, &vec![]);
    assert_eq!(result.len(), 1);
    assert!(matches!(result[0].value, ResolvedEntitlementValue::Metered { enabled: true, .. }));
}

#[test]
fn disabled_entitlement_still_resolved() {
    let fid: u128 = 109;
    let features = vec![make_feature(fid, FeatureType::Metered { metric_id: 906 })];
    let entitlements = vec![make_entitlement(fid, EntitlementEntityId::Plan(1), EntitlementMode::Stack, metered(Some(100), false))];
    let result = resolve(entitlements, features, &vec![]);
    assert_eq!(result.len(), 1);
    assert!(matches!(result[0].value, ResolvedEntitlementValue::Metered { enabled: false, .. }));
}

#[test]
fn usage_period_sliding_window_day() {
    let now = dt(2025, 6, 15);
    let b = compute_usage_period(&ResetPeriod::SlidingWindow { unit: PeriodUnit::Day, interval: 10 }, None, None, now);
    assert_eq!(b.start, dt(2025, 6, 5));
    assert_eq!(b.end, Some(now));
}

#[test]
fn usage_period_never_uses_activation_date() {
    let now = dt(2025, 6, 15);
    let activation = dt(2024, 1, 1);
    let b = compute_usage_period(&ResetPeriod::Never, None, Some(activation), now);
    assert_eq!(b.start, dt(2024, 1, 1));
    assert_eq!(b.end, None);
}

#[test]
fn usage_period_never_falls_back_to_now_when_no_activation() {
    let now = dt(2025, 6, 15);
    let b = compute_usage_period(&ResetPeriod::Never, None, None, now);
    assert_eq!(b.start, now);
    assert_eq!(b.end, None);
}

#[test]
fn usage_period_billing_cycle_uses_subscription_period() {
    let now = dt(2025, 6, 15);
    let bc = BillingCyclePeriod { period_start: d(2025, 6, 1), period_end: Some(d(2025, 6, 30)) };
    let b = compute_usage_period(&ResetPeriod::BillingCycle, Some(bc), None, now);
    assert_eq!(b.start, dt(2025, 6, 1));
    assert_eq!(b.end, Some(dt(2025, 7, 1)));
}

#[test]
fn usage_period_billing_cycle_no_subscription_unbounded() {
    let now = dt(2025, 6, 15);
    let b = compute_usage_period(&ResetPeriod::BillingCycle, None, None, now);
    assert_eq!(b.start, now);
    assert_eq!(b.end, None);
}

#[test]
fn usage_period_sliding_window_month() {
    let now = dt(2025, 6, 15);
    let b = compute_usage_period(&ResetPeriod::SlidingWindow { unit: PeriodUnit::Month, interval: 1 }, None, None, now);
    assert_eq!(b.start, dt(2025, 5, 15));
    assert_eq!(b.end, Some(now));
}

#[test]
fn usage_period_sliding_window_week() {
    let now = dt(2025, 6, 15);
    let b = compute_usage_period(&ResetPeriod::SlidingWindow { unit: PeriodUnit::Week, interval: 2 }, None, None, now);
    assert_eq!(b.start, dt(2025, 6, 1));
    assert_eq!(b.end, Some(now));
}

#[test]
fn usage_period_sliding_window_hour() {
    let now = dt_hms(2025, 6, 15, 14, 30, 0);
    let b = compute_usage_period(&ResetPeriod::SlidingWindow { unit: PeriodUnit::Hour, interval: 3 }, None, None, now);
    assert_eq!(b.start, dt_hms(2025, 6, 15, 11, 30, 0));
    assert_eq!(b.end, Some(now));
}

#[test]
fn usage_period_fixed_window_no_activation_unbounded() {
    let now = dt(2025, 6, 15);
    let b = compute_usage_period(&ResetPeriod::FixedWindow { unit: PeriodUnit::Day, interval: 7 }, None, None, now);
    assert_eq!(b.start, now);
    assert_eq!(b.end, None);
}

#[test]
fn usage_period_fixed_window_day_first_bucket_starts_at_activation() {
    let activation = dt(2025, 6, 10);
    let now = dt(2025, 6, 13);
    let b = compute_usage_period(&ResetPeriod::FixedWindow { unit: PeriodUnit::Day, interval: 7 }, None, Some(activation), now);
    assert_eq!(b.start, dt(2025, 6, 10));
    assert_eq!(b.end, Some(dt(2025, 6, 17)));
}

#[test]
fn usage_period_fixed_window_day_advances_to_current_bucket() {
    let activation = dt(2025, 6, 10);
    let now = dt(2025, 7, 2);
    let b = compute_usage_period(&ResetPeriod::FixedWindow { unit: PeriodUnit::Day, interval: 7 }, None, Some(activation), now);
    assert_eq!(b.start, dt(2025, 7, 1));
    assert_eq!(b.end, Some(dt(2025, 7, 8)));
}

#[test]
fn usage_period_fixed_window_hour_anchored_on_activation() {
    let activation = dt(2025, 6, 10);
    let now = dt_hms(2025, 6, 10, 14, 30, 0);
    let b = compute_usage_period(&ResetPeriod::FixedWindow { unit: PeriodUnit::Hour, interval: 6 }, None, Some(activation), now);
    assert_eq!(b.start, dt_hms(2025, 6, 10, 12, 0, 0));
    assert_eq!(b.end, Some(dt_hms(2025, 6, 10, 18, 0, 0)));
}

#[test]
fn usage_period_fixed_window_hour_anchored_on_activation_with_time() {
    let activation = dt_hms(2025, 5, 27, 14, 10, 0);
    let now = dt_hms(2025, 5, 27, 14, 20, 0);
    let b = compute_usage_period(&ResetPeriod::FixedWindow { unit: PeriodUnit::Hour, interval: 2 }, None, Some(activation), now);
    assert_eq!(b.start, dt_hms(2025, 5, 27, 14, 10, 0));
    assert_eq!(b.end, Some(dt_hms(2025, 5, 27, 16, 10, 0)));
}

#[test]
fn usage_period_fixed_window_month_advances_to_current_bucket() {
    let activation = dt(2025, 1, 15);
    let now = dt(2025, 6, 20);
    let b = compute_usage_period(&ResetPeriod::FixedWindow { unit: PeriodUnit::Month, interval: 1 }, None, Some(activation), now);
    assert_eq!(b.start, dt(2025, 6, 15));
    assert_eq!(b.end, Some(dt(2025, 7, 15)));
}

#[test]
fn usage_period_fixed_window_year_advances_to_current_bucket() {
    let activation = dt(2020, 3, 10);
    let now = dt(2025, 6, 15);
    let b = compute_usage_period(&ResetPeriod::FixedWindow { unit: PeriodUnit::Year, interval: 1 }, None, Some(activation), now);
    assert_eq!(b.start, dt(2025, 3, 10));
    assert_eq!(b.end, Some(dt(2026, 3, 10)));
}

#[test]
fn calendar_period_month_interval_1_mid_month() {
    let b = calendar_period(dt(2025, 6, 15), PeriodUnit::Month, 1);
    assert_eq!(b.start, dt(2025, 6, 1));
    assert_eq!(b.end, Some(dt(2025, 7, 1)));
}

#[test]
fn calendar_period_month_interval_1_end_of_month() {
    let b = calendar_period(dt(2025, 1, 31), PeriodUnit::Month, 1);
    assert_eq!(b.start, dt(2025, 1, 1));
    assert_eq!(b.end, Some(dt(2025, 2, 1)));
}

#[test]
fn calendar_period_month_interval_3_q2() {
    let b = calendar_period(dt(2025, 6, 15), PeriodUnit::Month, 3);
    assert_eq!(b.start, dt(2025, 4, 1));
    assert_eq!(b.end, Some(dt(2025, 7, 1)));
}

#[test]
fn calendar_period_week_interval_1_wednesday() {
    let b = calendar_period(dt(2025, 6, 11), PeriodUnit::Week, 1);
    assert_eq!(b.start, dt(2025, 6, 9));
    assert_eq!(b.end, Some(dt(2025, 6, 16)));
}

#[test]
fn calendar_period_week_interval_2() {
    let b = calendar_period(dt(2025, 6, 11), PeriodUnit::Week, 2);
    assert_eq!(b.start, dt(2025, 6, 2));
    assert_eq!(b.end, Some(dt(2025, 6, 16)));
}

#[test]
fn calendar_period_year_interval_1() {
    let b = calendar_period(dt(2025, 8, 20), PeriodUnit::Year, 1);
    assert_eq!(b.start, dt(2025, 1, 1));
    assert_eq!(b.end, Some(dt(2026, 1, 1)));
}

#[test]
fn calendar_period_day_interval_1() {
    let now = dt(2025, 6, 15);
    let b = calendar_period(now, PeriodUnit::Day, 1);
    assert_eq!(b.start, dt(2025, 6, 15));
    assert_eq!(b.end, Some(dt(2025, 6, 16)));
}

#[test]
fn calendar_period_day_interval_7() {
    let now = dt(2025, 6, 15);
    let b = calendar_period(now, PeriodUnit::Day, 7);
    assert!(b.start.nanos <= now.nanos);
    assert!(b.end.unwrap().nanos > now.nanos);
    assert_eq!((b.end.unwrap().nanos - b.start.nanos) / NANOS_PER_DAY, 7);
}

#[test]
fn calendar_period_hour_interval_1() {
    let now = dt_hms(2025, 6, 15, 14, 30, 0);
    let b = calendar_period(now, PeriodUnit::Hour, 1);
    assert_eq!(b.start, dt_hms(2025, 6, 15, 14, 0, 0));
    assert_eq!(b.end, Some(dt_hms(2025, 6, 15, 15, 0, 0)));
}

#[test]
fn calendar_period_hour_interval_4_across_midnight() {
    let now = dt_hms(2025, 6, 15, 1, 15, 0);
    let b = calendar_period(now, PeriodUnit::Hour, 4);
    assert_eq!(b.start, dt_hms(2025, 6, 15, 0, 0, 0));
    assert_eq!(b.end, Some(dt_hms(2025, 6, 15, 4, 0, 0)));
}

#[test]
fn subtract_month() {
    assert_eq!(subtract_duration(dt(2025, 3, 31), PeriodUnit::Month, 1), dt(2025, 2, 28));
}

#[test]
fn subtract_year() {
    assert_eq!(subtract_duration(dt(2025, 6, 15), PeriodUnit::Year, 2), dt(2023, 6, 15));
}

#[test]
fn subtract_week() {
    assert_eq!(subtract_duration(dt(2025, 6, 15), PeriodUnit::Week, 3), dt(2025, 5, 25));
}

#[test]
fn subtract_day() {
    assert_eq!(subtract_duration(dt(2025, 6, 15), PeriodUnit::Day, 10), dt(2025, 6, 5));
}

#[test]
fn subtract_hour() {
    assert_eq!(subtract_duration(dt_hms(2025, 6, 15, 10, 30, 0), PeriodUnit::Hour, 3), dt_hms(2025, 6, 15, 7, 30, 0));
}

#[test]
fn subtract_hour_crosses_midnight() {
    assert_eq!(subtract_duration(dt_hms(2025, 6, 15, 1, 0, 0), PeriodUnit::Hour, 3), dt_hms(2025, 6, 14, 22, 0, 0));
}

#[test]
fn origin_reports_highest_priority_contributing_entity() {
    let fid: u128 = 110;
    let plan_id: u128 = 1;
    let sub_id: u128 = 2;
    let features = vec![make_feature(fid, FeatureType::Boolean)];
    let entitlements = vec![
        make_entitlement(fid, EntitlementEntityId::Plan(plan_id), EntitlementMode::Stack, EntitlementValue::Boolean { enabled: true }),
        make_entitlement(fid, EntitlementEntityId::Subscription(sub_id), EntitlementMode::Override, EntitlementValue::Boolean { enabled: false }),
    ];
    let result = resolve(entitlements, features, &vec![]);
    assert_eq!(result.len(), 1);
    assert!(matches!(result[0].origin_entity, EntitlementEntityId::Subscription(_)));
}

#[test]
fn same_priority_metered_takes_max() {
    let fid: u128 = 111;
    let features = vec![make_feature(fid, FeatureType::Metered { metric_id: 907 })];
    let mut a = make_entitlement(fid, EntitlementEntityId::Plan(1), EntitlementMode::Override, metered(Some(200), true));
    a.created_at = NOW_MICROS - MINUTE_MICROS;
    let mut b = make_entitlement(fid, EntitlementEntityId::Plan(2), EntitlementMode::Override, metered(Some(100), true));
    b.created_at = NOW_MICROS;
    let result = resolve(vec![a, b], features, &vec![]);
    assert_eq!(result.len(), 1);
    assert_eq!(metered_limit(&result[0]), Some(200), "permissive merge should pick max");
}

#[test]
fn same_priority_boolean_takes_or() {
    let fid: u128 = 112;
    let features = vec![make_feature(fid, FeatureType::Boolean)];
    let mut a = make_entitlement(fid, EntitlementEntityId::AddOn(61), EntitlementMode::Override, EntitlementValue::Boolean { enabled: true });
    a.created_at = NOW_MICROS - MINUTE_MICROS;
    let mut b = make_entitlement(fid, EntitlementEntityId::AddOn(62), EntitlementMode::Override, EntitlementValue::Boolean { enabled: false });
    b.created_at = NOW_MICROS;
    let result = resolve(vec![a, b], features, &vec![]);
    assert_eq!(result.len(), 1);
    assert!(matches!(result[0].value, ResolvedEntitlementValue::Boolean { enabled: true }));
}

#[test]
fn winning_origin_after_permissive_merge_tracks_max_contributor() {
    let fid: u128 = 113;
    let features = vec![make_feature(fid, FeatureType::Metered { metric_id: 908 })];
    let winning_plan_id: u128 = 71;
    let losing_plan_id: u128 = 72;
    let mut winner = make_entitlement(fid, EntitlementEntityId::Plan(winning_plan_id), EntitlementMode::Override, metered(Some(500), true));
    winner.created_at = NOW_MICROS - MINUTE_MICROS;
    let mut loser = make_entitlement(fid, EntitlementEntityId::Plan(losing_plan_id), EntitlementMode::Override, metered(Some(100), true));
    loser.created_at = NOW_MICROS;
    let result = resolve(vec![winner, loser], features, &vec![]);
    assert_eq!(result.len(), 1);
    assert_eq!(metered_limit(&result[0]), Some(500));
    assert!(
        matches!(result[0].origin_entity, EntitlementEntityId::Plan(p) if p == winning_plan_id),
        "origin should point to the entity that contributed the winning limit"
    );
}

#[test]
fn winning_origin_after_additive_merge_stays_on_earliest_contributor() {
    let fid: u128 = 114;
    let features = vec![make_feature(fid, FeatureType::Metered { metric_id: 909 })];
    let first_addon: u128 = 81;
    let second_addon: u128 = 82;
    let mut a = make_entitlement(fid, EntitlementEntityId::AddOn(first_addon), EntitlementMode::Stack, metered(Some(100), true));
    a.created_at = NOW_MICROS - MINUTE_MICROS;
    let mut b = make_entitlement(fid, EntitlementEntityId::AddOn(second_addon), EntitlementMode::Stack, metered(Some(50), true));
    b.created_at = NOW_MICROS;
    let multi = vec![first_addon, second_addon];
    let result = resolve(vec![a, b], features, &multi);
    assert_eq!(result.len(), 1);
    assert_eq!(metered_limit(&result[0]), Some(150), "additive merge sums limits");
    assert!(
        matches!(result[0].origin_entity, EntitlementEntityId::AddOn(id) if id == first_addon),
        "additive origin should pin to the earlier-created entity"
    );
}

#[test]
fn plan_version_overrides_add_on() {
    let fid: u128 = 115;
    let features = vec![make_feature(fid, FeatureType::Metered { metric_id: 910 })];
    let add_on = make_entitlement(fid, EntitlementEntityId::AddOn(91), EntitlementMode::Override, metered(Some(100), true));
    let plan_version = make_entitlement(fid, EntitlementEntityId::PlanVersion(92), EntitlementMode::Override, metered(Some(200), true));
    let result = resolve(vec![add_on, plan_version], features, &vec![]);
    assert_eq!(result.len(), 1);
    assert_eq!(metered_limit(&result[0]), Some(200), "PlanVersion should override AddOn");
    assert!(matches!(result[0].origin_entity, EntitlementEntityId::PlanVersion(_)));
}

#[test]
fn multi_instance_add_ons_sum_via_derive_mode() {
    let fid: u128 = 116;
    let aid1: u128 = 93;
    let aid2: u128 = 94;
    let multi = vec![aid1, aid2];
    let features = vec![make_feature(fid, FeatureType::Metered { metric_id: 911 })];
    let a = make_entitlement(fid, EntitlementEntityId::AddOn(aid1), EntitlementMode::Override, metered(Some(1000), true));
    let b = make_entitlement(fid, EntitlementEntityId::AddOn(aid2), EntitlementMode::Override, metered(Some(1000), true));
    let result = resolve(vec![a, b], features, &multi);
    assert_eq!(result.len(), 1);
    assert_eq!(metered_limit(&result[0]), Some(2000));
}

#[test]
fn single_instance_add_ons_take_max_via_derive_mode() {
    let fid: u128 = 117;
    let multi: Vec<u128> = vec![];
    let features = vec![make_feature(fid, FeatureType::Metered { metric_id: 912 })];
    let a = make_entitlement(fid, EntitlementEntityId::AddOn(95), EntitlementMode::Stack, metered(Some(1000), true));
    let b = make_entitlement(fid, EntitlementEntityId::AddOn(96), EntitlementMode::Stack, metered(Some(500), true));
    let result = resolve(vec![a, b], features, &multi);
    assert_eq!(result.len(), 1);
    assert_eq!(metered_limit(&result[0]), Some(1000), "max, not sum");
}

#[test]
fn feature_level_default_flows_through_when_no_entity_grant() {
    let fid: u128 = 118;
    let features = vec![make_feature(fid, FeatureType::Metered { metric_id: 913 })];
    let only = make_entitlement(fid, EntitlementEntityId::Feature(fid), EntitlementMode::Override, metered(Some(50), true));
    let result = resolve(vec![only], features, &vec![]);
    assert_eq!(result.len(), 1);
    assert_eq!(metered_limit(&result[0]), Some(50));
    assert!(matches!(result[0].origin_entity, EntitlementEntityId::Feature(_)));
}

#[test]
fn full_priority_chain_resolves_highest_wins() {
    let fid: u128 = 119;
    let features = vec![make_feature(fid, FeatureType::Metered { metric_id: 914 })];
    let mk = |entity, limit: u64| make_entitlement(fid, entity, EntitlementMode::Override, metered(Some(limit), true));
    let entitlements = vec![
        mk(EntitlementEntityId::Feature(fid), 10),
        mk(EntitlementEntityId::Plan(1), 20),
        mk(EntitlementEntityId::AddOn(2), 30),
        mk(EntitlementEntityId::PlanVersion(3), 40),
        mk(EntitlementEntityId::Subscription(4), 50),
    ];
    let result = resolve(entitlements, features, &vec![]);
    assert_eq!(result.len(), 1);
    assert_eq!(metered_limit(&result[0]), Some(50), "Subscription (top priority) must win");
    assert!(matches!(result[0].origin_entity, EntitlementEntityId::Subscription(_)));
}

#[test]
fn cross_product_collision_takes_max_per_algorithm_rule_2() {
    let fid: u128 = 120;
    let features = vec![make_feature(fid, FeatureType::Metered { metric_id: 915 })];
    let a = make_entitlement(fid, EntitlementEntityId::AddOn(97), EntitlementMode::Override, metered(Some(300), true));
    let b = make_entitlement(fid, EntitlementEntityId::AddOn(98), EntitlementMode::Override, metered(Some(700), true));
    let result = resolve(vec![a, b], features, &vec![]);
    assert_eq!(result.len(), 1);
    assert_eq!(metered_limit(&result[0]), Some(700));
}

#[test]
fn higher_priority_finite_replaces_lower_priority_unlimited() {
    let fid: u128 = 121;
    let features = vec![make_feature(fid, FeatureType::Metered { metric_id: 916 })];
    let global = make_entitlement(fid, EntitlementEntityId::Feature(fid), EntitlementMode::Override, metered(None, true));
    let plan_version = make_entitlement(fid, EntitlementEntityId::PlanVersion(99), EntitlementMode::Override, metered(Some(100), true));
    let result = resolve(vec![global, plan_version], features, &vec![]);
    assert_eq!(result.len(), 1);
    assert_eq!(metered_limit(&result[0]), Some(100));
}
