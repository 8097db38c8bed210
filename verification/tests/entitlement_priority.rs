use meteroid_store::entitlement_resolution::{
    resolve, Entitlement, Feature, FeatureStatus, RawResolvedEntitlement, ResolvedEntitlementValue,
};
use meteroid_store::entitlement_values::{
    EntitlementEntityId, EntitlementMode, EntitlementValue, FeatureType, OverageBehavior, ResetPeriod,
};

fn metered_feature(id: u128) -> Feature {
    Feature {
        id,
        name: format!("feature-{}", id),
        product: None,
        feature_type: FeatureType::Metered { metric_id: 900 },
        status: FeatureStatus::Active,
    }
}

fn grant(id: u128, feature_id: u128, entity: EntitlementEntityId, limit: Option<u64>, created_at: i64) -> Entitlement {
    Entitlement {
        id,
        feature_id,
        entity,
        mode: EntitlementMode::Override,
        value: EntitlementValue::Metered {
            limit,
            reset_period: ResetPeriod::Never,
            overage_behavior: OverageBehavior::Block { grace_period_pct: None },
            warning_threshold_pct: None,
            enabled: true,
        },
        created_at,
    }
}

fn summary(r: &[RawResolvedEntitlement]) -> Vec<(u128, Option<u64>, EntitlementEntityId)> {
    r.iter()
        .map(|x| match x.value {
            ResolvedEntitlementValue::Metered { limit, .. } => (x.feature.id, limit, x.origin_entity),
            _ => panic!("expected a metered value"),
        })
        .collect()
}

fn mixed_grants() -> Vec<Entitlement> {
    vec![
        grant(1, 7, EntitlementEntityId::Feature(7), None, 10),
        grant(2, 7, EntitlementEntityId::Plan(70), Some(1_000), 20),
        grant(3, 7, EntitlementEntityId::PlanVersion(71), Some(50), 30),
        grant(4, 7, EntitlementEntityId::AddOn(72), Some(5_000), 40),
        grant(5, 7, EntitlementEntityId::PlanVersion(73), Some(80), 50),
    ]
}

#[test]
fn top_priority_group_merges_and_lower_grants_are_ignored() {
    let r = resolve(mixed_grants(), vec![metered_feature(7)], &vec![]);
    // two plan-version grants (priority 3) merge permissively; the unlimited
    // tenant default, the plan and the add-on grant rank lower.
    assert_eq!(summary(&r), vec![(7, Some(80), EntitlementEntityId::PlanVersion(73))]);
}

#[test]
fn dropping_grants_below_the_top_priority_changes_nothing() {
    let all = resolve(mixed_grants(), vec![metered_feature(7)], &vec![]);
    let top_only: Vec<Entitlement> = mixed_grants()
        .into_iter()
        .filter(|g| matches!(g.entity, EntitlementEntityId::PlanVersion(_)))
        .collect();
    let kept = resolve(top_only, vec![metered_feature(7)], &vec![]);
    assert_eq!(summary(&all), summary(&kept));
}

#[test]
fn a_single_subscription_grant_decides_alone() {
    let mut grants = mixed_grants();
    grants.push(grant(6, 7, EntitlementEntityId::Subscription(74), Some(3), 5));
    let r = resolve(grants, vec![metered_feature(7)], &vec![72]);
    assert_eq!(summary(&r), vec![(7, Some(3), EntitlementEntityId::Subscription(74))]);
}

#[test]
fn stored_mode_does_not_change_resolution() {
    let as_override = mixed_grants();
    let as_stack: Vec<Entitlement> = mixed_grants()
        .into_iter()
        .map(|mut g| {
            g.mode = EntitlementMode::Stack;
            g
        })
        .collect();
    let a = resolve(as_override, vec![metered_feature(7)], &vec![]);
    let b = resolve(as_stack, vec![metered_feature(7)], &vec![]);
    assert_eq!(summary(&a), summary(&b));
}

#[test]
fn archived_features_are_not_resolved() {
    let mut archived = metered_feature(7);
    archived.status = FeatureStatus::Archived;
    assert!(resolve(mixed_grants(), vec![archived], &vec![]).is_empty());
    // grants of a feature that is not known resolve to nothing either
    assert!(resolve(mixed_grants(), vec![metered_feature(8)], &vec![]).is_empty());
}
