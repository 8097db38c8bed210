//! The values an entitlement grants, the entities that own them, and the two
//! ways same-priority grants combine.
use vstd::prelude::*;

verus! {

/// Length unit of a reset period.
#[derive(Debug, Clone, Copy, PartialEq, Eq)]
pub enum PeriodUnit {
    Hour,
    Day,
    Week,
    Month,
    Year,
}

/// When the usage counted against a metered limit starts over.
#[derive(Debug, Clone, Copy, PartialEq, Eq)]
pub enum ResetPeriod {
    /// Usage accumulates for the customer's whole life.
    Never,
    /// Usage restarts with each billing period of the subscription.
    BillingCycle,
    /// Fixed buckets anchored on a global epoch.
    Calendar { unit: PeriodUnit, interval: u32 },
    /// Fixed buckets anchored on the subscription's activation.
    FixedWindow { unit: PeriodUnit, interval: u32 },
    /// A rolling window that ends now.
    SlidingWindow { unit: PeriodUnit, interval: u32 },
}

/// What happens when usage exceeds a metered limit.
#[derive(Debug, Clone, Copy, PartialEq, Eq)]
pub enum OverageBehavior {
    /// Usage beyond the limit (plus an optional grace percentage) is refused.
    Block { grace_period_pct: Option<u8> },
    /// Usage beyond the limit is allowed.
    Allow,
}

/// The value one entitlement grants for a feature.
#[derive(Debug, Clone, Copy, PartialEq, Eq)]
pub enum EntitlementValue {
    Boolean { enabled: bool },
    Metered {
        /// `None` means unlimited.
        limit: Option<u64>,
        reset_period: ResetPeriod,
        overage_behavior: OverageBehavior,
        warning_threshold_pct: Option<u8>,
        /// Kill-switch: a metered grant with `enabled == false` switches the feature off.
        enabled: bool,
    },
}

/// The kind of a feature, fixed when the feature is created.
#[derive(Debug, Clone, Copy, PartialEq, Eq)]
pub enum FeatureType {
    Boolean,
    Metered { metric_id: u128 },
}

/// The entity that owns an entitlement row; each variant carries the entity's id.
#[derive(Debug, Clone, Copy, PartialEq, Eq)]
pub enum EntitlementEntityId {
    Feature(u128),
    Plan(u128),
    AddOn(u128),
    PlanVersion(u128),
    Subscription(u128),
    Quote(u128),
}

/// The composition mode stored with an entitlement row. Resolution ignores it.
#[derive(Debug, Clone, Copy, PartialEq, Eq)]
pub enum EntitlementMode {
    Override,
    Stack,
}

/// The resolution priority of an owning entity, from the tenant default (0) to
/// the subscription or quote (4).
pub open spec fn priority_of(e: EntitlementEntityId) -> u8 {
    match e {
        EntitlementEntityId::Feature(_) => 0,
        EntitlementEntityId::Plan(_) => 1,
        EntitlementEntityId::AddOn(_) => 2,
        EntitlementEntityId::PlanVersion(_) => 3,
        EntitlementEntityId::Subscription(_) => 4,
        EntitlementEntityId::Quote(_) => 4,
    }
}

impl EntitlementEntityId {
    /// Priority ladder: Feature < Plan < AddOn < PlanVersion < Subscription = Quote.
    pub fn priority(&self) -> (p: u8)
        ensures
            p == priority_of(*self),
    {
        match self {
            EntitlementEntityId::Feature(_) => 0,
            EntitlementEntityId::Plan(_) => 1,
            EntitlementEntityId::AddOn(_) => 2,
            EntitlementEntityId::PlanVersion(_) => 3,
            EntitlementEntityId::Subscription(_) => 4,
            EntitlementEntityId::Quote(_) => 4,
        }
    }
}

/// The variant of an entitlement value agrees with the type of its feature.
pub open spec fn value_matches_type(value: EntitlementValue, feature_type: FeatureType) -> bool {
    match (feature_type, value) {
        (FeatureType::Boolean, EntitlementValue::Boolean { .. }) => true,
        (FeatureType::Metered { .. }, EntitlementValue::Metered { .. }) => true,
        _ => false,
    }
}

/// Accepts a value only when its variant matches the feature's declared type.
pub fn validate_value_matches_feature_type(value: &EntitlementValue, feature_type: &FeatureType) -> (res: Result<(), crate::errors::StoreError>)
    ensures
        res is Ok <==> value_matches_type(*value, *feature_type),
        res matches Err(e) ==> (e matches crate::errors::StoreError::InvalidArgument(m)
            && m@ == "entitlement value variant does not match feature type"@),
{
    match (feature_type, value) {
        (FeatureType::Boolean, EntitlementValue::Boolean { .. }) => Ok(()),
        (FeatureType::Metered { .. }, EntitlementValue::Metered { .. }) => Ok(()),
        _ => {
            let msg = "entitlement value variant does not match feature type".to_string();
            Err(crate::errors::StoreError::InvalidArgument(msg))
        },
    }
}

/// The larger of two limits, where `None` (unlimited) exceeds every finite limit.
pub open spec fn max_limit(a: Option<u64>, b: Option<u64>) -> Option<u64> {
    match (a, b) {
        (Some(x), Some(y)) => Some(if x >= y { x } else { y }),
        _ => None,
    }
}

/// The earlier of two warning thresholds; a missing threshold defers to the other.
pub open spec fn min_threshold(a: Option<u8>, b: Option<u8>) -> Option<u8> {
    match (a, b) {
        (Some(x), Some(y)) => Some(if x <= y { x } else { y }),
        (None, w) => w,
        (w, None) => w,
    }
}

/// The sum of two limits, where `None` (unlimited) absorbs every finite limit.
pub open spec fn sum_limit(a: Option<u64>, b: Option<u64>) -> Option<u64> {
    match (a, b) {
        (Some(x), Some(y)) => Some((x + y) as u64),
        _ => None,
    }
}

/// Permissive combination of two same-priority grants: max limit, OR of the
/// kill-switch, min warning threshold; reset period and overage behaviour come
/// from `b`. Mismatched variants keep `a`.
pub open spec fn permissive(a: EntitlementValue, b: EntitlementValue) -> EntitlementValue {
    match (a, b) {
        (EntitlementValue::Boolean { enabled: ea }, EntitlementValue::Boolean { enabled: eb }) =>
            EntitlementValue::Boolean { enabled: ea || eb },
        (
            EntitlementValue::Metered { limit: la, warning_threshold_pct: wa, enabled: ea, .. },
            EntitlementValue::Metered { limit: lb, reset_period: rb, overage_behavior: ob, warning_threshold_pct: wb, enabled: eb },
        ) => EntitlementValue::Metered {
            limit: max_limit(la, lb),
            reset_period: rb,
            overage_behavior: ob,
            warning_threshold_pct: min_threshold(wa, wb),
            enabled: ea || eb,
        },
        _ => a,
    }
}

/// Additive combination of two same-priority grants of multi-instance add-ons:
/// limits add up, the kill-switch is OR-ed, `b`'s warning threshold wins when
/// set; reset period and overage behaviour come from `b`. Mismatched variants keep `a`.
pub open spec fn additive(a: EntitlementValue, b: EntitlementValue) -> EntitlementValue {
    match (a, b) {
        (EntitlementValue::Boolean { enabled: ea }, EntitlementValue::Boolean { enabled: eb }) =>
            EntitlementValue::Boolean { enabled: ea || eb },
        (
            EntitlementValue::Metered { limit: la, warning_threshold_pct: wa, enabled: ea, .. },
            EntitlementValue::Metered { limit: lb, reset_period: rb, overage_behavior: ob, warning_threshold_pct: wb, enabled: eb },
        ) => EntitlementValue::Metered {
            limit: sum_limit(la, lb),
            reset_period: rb,
            overage_behavior: ob,
            warning_threshold_pct: match wb { Some(w) => Some(w), None => wa },
            enabled: ea || eb,
        },
        _ => a,
    }
}

/// The additive sum of the two limits fits in a `u64` (always true unless both
/// grants are metered with finite limits).
pub open spec fn additive_fits(a: EntitlementValue, b: EntitlementValue) -> bool {
    match (a, b) {
        (
            EntitlementValue::Metered { limit: Some(x), .. },
            EntitlementValue::Metered { limit: Some(y), .. },
        ) => x + y <= u64::MAX,
        _ => true,
    }
}

/// `prev` already wins the visible field under permissive merge with `new`:
/// for metered grants its limit is at least `new`'s (unlimited beats finite);
/// for boolean grants `new` does not switch a disabled `prev` on.
pub open spec fn dominates(prev: EntitlementValue, new: EntitlementValue) -> bool {
    match (prev, new) {
        (EntitlementValue::Metered { limit: la, .. }, EntitlementValue::Metered { limit: lb, .. }) =>
            match (la, lb) {
                (None, _) => true,
                (Some(_), None) => false,
                (Some(x), Some(y)) => x >= y,
            },
        (EntitlementValue::Boolean { enabled: a }, EntitlementValue::Boolean { enabled: b }) =>
            !(!a && b),
        _ => true,
    }
}

/// Whether merging `new` into `prev` leaves the visible field as `prev` had it.
pub fn prev_dominates_under_permissive(prev: &EntitlementValue, new: &EntitlementValue) -> (res: bool)
    ensures
        res == dominates(*prev, *new),
{
    match (prev, new) {
        (EntitlementValue::Metered { limit: la, .. }, EntitlementValue::Metered { limit: lb, .. }) =>
            match (la, lb) {
                (None, _) => true,
                (Some(_), None) => false,
                (Some(x), Some(y)) => *x >= *y,
            },
        (EntitlementValue::Boolean { enabled: a }, EntitlementValue::Boolean { enabled: b }) =>
            !(!*a && *b),
        _ => true,
    }
}

/// Combines two same-priority grants permissively (see [`permissive`]).
pub fn merge_permissive(a: EntitlementValue, b: EntitlementValue) -> (r: EntitlementValue)
    ensures
        r == permissive(a, b),
        (a is Metered && b is Metered) ==> crate::entitlement_laws::generous_metered(a, b, r),
{
    proof {
        crate::entitlement_laws::law_permissive_merge_is_most_generous(a, b);
    }
    match (a, b) {
        (EntitlementValue::Boolean { enabled: ea }, EntitlementValue::Boolean { enabled: eb }) =>
            EntitlementValue::Boolean { enabled: ea || eb },
        (
            EntitlementValue::Metered { limit: la, reset_period: _, overage_behavior: _, warning_threshold_pct: wa, enabled: ea },
            EntitlementValue::Metered { limit: lb, reset_period: rb, overage_behavior: ob, warning_threshold_pct: wb, enabled: eb },
        ) => {
            let limit = match (la, lb) {
                (Some(x), Some(y)) => Some(if x >= y { x } else { y }),
                _ => None,
            };
            let warning = match (wa, wb) {
                (Some(x), Some(y)) => Some(if x <= y { x } else { y }),
                (None, w) => w,
                (w, None) => w,
            };
            EntitlementValue::Metered {
                limit,
                reset_period: rb,
                overage_behavior: ob,
                warning_threshold_pct: warning,
                enabled: ea || eb,
            }
        },
        (a, _) => a,
    }
}

/// Combines two same-priority grants of multi-instance add-ons additively (see [`additive`]).
pub fn merge_additive(a: EntitlementValue, b: EntitlementValue) -> (r: EntitlementValue)
    requires
        additive_fits(a, b),
    ensures
        r == additive(a, b),
{
    match (a, b) {
        (EntitlementValue::Boolean { enabled: ea }, EntitlementValue::Boolean { enabled: eb }) =>
            EntitlementValue::Boolean { enabled: ea || eb },
        (
            EntitlementValue::Metered { limit: la, reset_period: _, overage_behavior: _, warning_threshold_pct: wa, enabled: ea },
            EntitlementValue::Metered { limit: lb, reset_period: rb, overage_behavior: ob, warning_threshold_pct: wb, enabled: eb },
        ) => {
            let limit = match (la, lb) {
                (Some(x), Some(y)) => Some(x + y),
                _ => None,
            };
            let warning = match wb {
                Some(w) => Some(w),
                None => wa,
            };
            EntitlementValue::Metered {
                limit,
                reset_period: rb,
                overage_behavior: ob,
                warning_threshold_pct: warning,
                enabled: ea || eb,
            }
        },
        (a, _) => a,
    }
}

} // verus!
