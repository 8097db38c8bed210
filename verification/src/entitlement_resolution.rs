//! Per-feature resolution of the entitlements in effect: entitlements are
//! grouped by feature, ordered by (priority, creation time, id), and folded;
//! a higher priority replaces what lower priorities granted, the same priority
//! merges (additively for multi-instance add-ons, permissively otherwise).
use vstd::prelude::*;
use crate::entitlement_values::{
    additive, additive_fits, dominates, merge_additive, merge_permissive, permissive, priority_of,
    prev_dominates_under_permissive,
    EntitlementEntityId, EntitlementMode, EntitlementValue, FeatureType, OverageBehavior, ResetPeriod,
};

verus! {

/// Lifecycle of a feature. Only `Active` features resolve.
#[derive(Debug, Clone, Copy, PartialEq, Eq)]
pub enum FeatureStatus {
    Active,
    Disabled,
    Archived,
}

/// The product a feature belongs to, as shown with resolved entitlements.
#[derive(Debug)]
pub struct ProductRef {
    pub id: u128,
    pub name: String,
}

/// A feature as the resolver reads it.
#[derive(Debug)]
pub struct Feature {
    pub id: u128,
    pub name: String,
    /// `None` for tenant-global features.
    pub product: Option<ProductRef>,
    pub feature_type: FeatureType,
    pub status: FeatureStatus,
}

/// One stored entitlement row. `created_at` is in microseconds since the Unix epoch.
#[derive(Debug, Clone, Copy)]
pub struct Entitlement {
    pub id: u128,
    pub feature_id: u128,
    pub entity: EntitlementEntityId,
    pub mode: EntitlementMode,
    pub value: EntitlementValue,
    pub created_at: i64,
}

/// The feature a resolved entitlement is about.
#[derive(Debug)]
pub struct FeatureRef {
    pub id: u128,
    pub name: String,
    pub product: Option<ProductRef>,
}

/// A resolved value, carrying the metric of metered features.
#[derive(Debug, Clone, Copy, PartialEq, Eq)]
pub enum ResolvedEntitlementValue {
    Boolean { enabled: bool },
    Metered {
        metric_id: u128,
        limit: Option<u64>,
        reset_period: ResetPeriod,
        overage_behavior: OverageBehavior,
        warning_threshold_pct: Option<u8>,
        enabled: bool,
    },
}

/// A resolved entitlement before the origin's display name is attached.
#[derive(Debug)]
pub struct RawResolvedEntitlement {
    pub feature: FeatureRef,
    pub value: ResolvedEntitlementValue,
    /// The entity whose grant produced the resolved value.
    pub origin_entity: EntitlementEntityId,
}

// ---------------------------------------------------------------------------
// Ordering
// ---------------------------------------------------------------------------

/// Strict order on entitlements by (priority, created_at, id).
pub open spec fn key_lt(a: Entitlement, b: Entitlement) -> bool {
    let pa = priority_of(a.entity);
    let pb = priority_of(b.entity);
    pa < pb || (pa == pb && (a.created_at < b.created_at || (a.created_at == b.created_at && a.id < b.id)))
}

/// Inserts `x` into `s` behind every element whose key is not greater than `x`'s.
pub open spec fn insert_sorted(x: Entitlement, s: Seq<Entitlement>) -> Seq<Entitlement>
    decreases s.len(),
{
    if s.len() == 0 {
        seq![x]
    } else if key_lt(x, s.last()) {
        insert_sorted(x, s.drop_last()).push(s.last())
    } else {
        s.push(x)
    }
}

/// Stable sort by (priority, created_at, id): the order `sort_by` with that
/// comparison produces.
pub open spec fn sort_entitlements(s: Seq<Entitlement>) -> Seq<Entitlement>
    decreases s.len(),
{
    if s.len() == 0 {
        Seq::empty()
    } else {
        insert_sorted(s.last(), sort_entitlements(s.drop_last()))
    }
}

// ---------------------------------------------------------------------------
// Grouping
// ---------------------------------------------------------------------------

/// The entitlements of `s` for feature `fid`, in their order in `s`.
pub open spec fn entitlements_of(s: Seq<Entitlement>, fid: u128) -> Seq<Entitlement>
    decreases s.len(),
{
    if s.len() == 0 {
        Seq::empty()
    } else if s.last().feature_id == fid {
        entitlements_of(s.drop_last(), fid).push(s.last())
    } else {
        entitlements_of(s.drop_last(), fid)
    }
}

/// The distinct feature ids of `s`, in order of first appearance.
pub open spec fn feature_ids_of(s: Seq<Entitlement>) -> Seq<u128>
    decreases s.len(),
{
    if s.len() == 0 {
        Seq::empty()
    } else if feature_ids_of(s.drop_last()).contains(s.last().feature_id) {
        feature_ids_of(s.drop_last())
    } else {
        feature_ids_of(s.drop_last()).push(s.last().feature_id)
    }
}

/// The last `Active` feature of `features` with id `fid`, if any.
pub open spec fn active_feature(features: Seq<Feature>, fid: u128) -> Option<Feature>
    decreases features.len(),
{
    if features.len() == 0 {
        None
    } else if features.last().id == fid && features.last().status is Active {
        Some(features.last())
    } else {
        active_feature(features.drop_last(), fid)
    }
}

// ---------------------------------------------------------------------------
// Folding one feature's sorted entitlements
// ---------------------------------------------------------------------------

/// What the fold has accumulated: the value, its priority, and the entity
/// credited with it.
pub struct FoldState {
    pub value: Option<EntitlementValue>,
    pub priority: Option<u8>,
    pub origin: Option<EntitlementEntityId>,
}

/// The grant comes from an add-on listed as multi-instance.
pub open spec fn is_additive_entity(e: EntitlementEntityId, multi: Seq<u128>) -> bool {
    match e {
        EntitlementEntityId::AddOn(aid) => multi.contains(aid),
        _ => false,
    }
}

/// One step of the fold: same priority merges, a new priority replaces.
/// The origin stays with the accumulator when the merge is additive, or when
/// the accumulator still dominates under permissive merge; otherwise it moves
/// to the new grant's entity.
pub open spec fn fold_step(st: FoldState, e: Entitlement, multi: Seq<u128>) -> FoldState {
    let pri = priority_of(e.entity);
    let same = st.priority == Some(pri);
    let add = is_additive_entity(e.entity, multi);
    let keep_origin = match st.origin { Some(o) => o, None => e.entity };
    match st.value {
        Some(prev) if same => FoldState {
            value: Some(if add { additive(prev, e.value) } else { permissive(prev, e.value) }),
            priority: Some(pri),
            origin: Some(if add || dominates(prev, e.value) { keep_origin } else { e.entity }),
        },
        _ => FoldState { value: Some(e.value), priority: Some(pri), origin: Some(e.entity) },
    }
}

/// Left fold of [`fold_step`] over `s`.
pub open spec fn fold_entitlements(s: Seq<Entitlement>, multi: Seq<u128>) -> FoldState
    decreases s.len(),
{
    if s.len() == 0 {
        FoldState { value: None, priority: None, origin: None }
    } else {
        fold_step(fold_entitlements(s.drop_last(), multi), s.last(), multi)
    }
}

/// No additive merge of the fold overflows a `u64` limit.
pub open spec fn step_fits(st: FoldState, e: Entitlement, multi: Seq<u128>) -> bool {
    match st.value {
        Some(prev) => (st.priority == Some(priority_of(e.entity)) && is_additive_entity(e.entity, multi))
            ==> additive_fits(prev, e.value),
        None => true,
    }
}

/// Every step of the fold over `s` fits (see [`step_fits`]).
pub open spec fn fold_fits(s: Seq<Entitlement>, multi: Seq<u128>) -> bool
    decreases s.len(),
{
    s.len() == 0 || (fold_fits(s.drop_last(), multi) && step_fits(fold_entitlements(s.drop_last(), multi), s.last(), multi))
}

/// The resolved value for a feature of type `t` from the folded value, or
/// `None` when the variants disagree.
pub open spec fn resolved_value(t: FeatureType, v: EntitlementValue) -> Option<ResolvedEntitlementValue> {
    match (t, v) {
        (FeatureType::Boolean, EntitlementValue::Boolean { enabled }) =>
            Some(ResolvedEntitlementValue::Boolean { enabled }),
        (FeatureType::Metered { metric_id }, EntitlementValue::Metered { limit, reset_period, overage_behavior, warning_threshold_pct, enabled }) =>
            Some(ResolvedEntitlementValue::Metered { metric_id, limit, reset_period, overage_behavior, warning_threshold_pct, enabled }),
        _ => None,
    }
}

/// The resolution of one feature from all entitlements.
pub open spec fn resolve_feature(f: Feature, ents: Seq<Entitlement>, multi: Seq<u128>) -> Option<RawResolvedEntitlement> {
    let st = fold_entitlements(sort_entitlements(entitlements_of(ents, f.id)), multi);
    match st.value {
        None => None,
        Some(v) => match resolved_value(f.feature_type, v) {
            None => None,
            Some(rv) => Some(RawResolvedEntitlement {
                feature: FeatureRef { id: f.id, name: f.name, product: f.product },
                value: rv,
                origin_entity: st.origin.unwrap(),
            }),
        },
    }
}

/// The resolutions for the feature ids `ids`, in order, skipping features that
/// are unknown, not active, or whose folded value mismatches their type.
pub open spec fn resolve_ids(ids: Seq<u128>, ents: Seq<Entitlement>, features: Seq<Feature>, multi: Seq<u128>) -> Seq<RawResolvedEntitlement>
    decreases ids.len(),
{
    if ids.len() == 0 {
        Seq::empty()
    } else {
        let prev = resolve_ids(ids.drop_last(), ents, features, multi);
        match active_feature(features, ids.last()) {
            None => prev,
            Some(f) => match resolve_feature(f, ents, multi) {
                None => prev,
                Some(r) => prev.push(r),
            },
        }
    }
}

/// All resolutions, one per distinct feature id of `ents` (first-appearance order).
pub open spec fn resolution(ents: Seq<Entitlement>, features: Seq<Feature>, multi: Seq<u128>) -> Seq<RawResolvedEntitlement> {
    resolve_ids(feature_ids_of(ents), ents, features, multi)
}

/// Every resolved feature's fold stays within `u64` limits.
pub open spec fn resolution_fits(ents: Seq<Entitlement>, features: Seq<Feature>, multi: Seq<u128>) -> bool {
    forall|fid: u128| #[trigger] active_feature(features, fid) is Some
        ==> fold_fits(sort_entitlements(entitlements_of(ents, fid)), multi)
}


// ---------------------------------------------------------------------------
// Lemmas
// ---------------------------------------------------------------------------

/// Inserting into a sorted run at the first position whose key exceeds `x`'s
/// is what [`insert_sorted`] does.
proof fn lemma_insert_at(x: Entitlement, s: Seq<Entitlement>, p: int)
    requires
        0 <= p <= s.len(),
        forall|j: int| p <= j < s.len() ==> key_lt(x, #[trigger] s[j]),
        p == 0 || !key_lt(x, s[p - 1]),
    ensures
        insert_sorted(x, s) == s.take(p).push(x) + s.skip(p),
    decreases s.len(),
{
    if s.len() == 0 {
        assert(s.take(p).push(x) + s.skip(p) =~= seq![x]);
    } else if p == s.len() {
        assert(!key_lt(x, s.last()));
        assert(s.take(p).push(x) + s.skip(p) =~= s.push(x));
    } else {
        assert(key_lt(x, s[s.len() - 1]));
        let d = s.drop_last();
        assert forall|j: int| p <= j < d.len() implies key_lt(x, #[trigger] d[j]) by {
            assert(d[j] == s[j]);
        }
        if p > 0 {
            assert(d[p - 1] == s[p - 1]);
        }
        lemma_insert_at(x, d, p);
        assert(d.take(p) =~= s.take(p));
        assert(d.take(p).push(x) + d.skip(p) + seq![s.last()] =~= s.take(p).push(x) + s.skip(p));
    }
}

/// The fold has a value, a priority and an origin exactly when the run is non-empty.
proof fn lemma_fold_shape(s: Seq<Entitlement>, multi: Seq<u128>)
    ensures
        s.len() == 0 ==> fold_entitlements(s, multi).value is None,
        s.len() > 0 ==> fold_entitlements(s, multi).value is Some
            && fold_entitlements(s, multi).priority is Some
            && fold_entitlements(s, multi).origin is Some,
{
}

/// A feature found by [`active_feature`] has the id asked for and is active.
pub(crate) proof fn lemma_active_feature(features: Seq<Feature>, fid: u128)
    ensures
        active_feature(features, fid) matches Some(f) ==> f.id == fid && f.status is Active,
    decreases features.len(),
{
    if features.len() > 0 {
        lemma_active_feature(features.drop_last(), fid);
    }
}

/// Every step of a fold whose whole run fits also fits.
proof fn lemma_fold_fits_step(s: Seq<Entitlement>, multi: Seq<u128>, k: int)
    requires
        fold_fits(s, multi),
        0 <= k < s.len(),
    ensures
        step_fits(fold_entitlements(s.take(k), multi), s[k], multi),
    decreases s.len(),
{
    if k == s.len() - 1 {
        assert(s.take(k) =~= s.drop_last());
    } else {
        let d = s.drop_last();
        lemma_fold_fits_step(d, multi, k);
        assert(d.take(k) =~= s.take(k));
        assert(d[k] == s[k]);
    }
}

// ---------------------------------------------------------------------------
// Executable resolution
// ---------------------------------------------------------------------------

/// Compares two entitlements by (priority, created_at, id).
fn key_less(a: &Entitlement, b: &Entitlement) -> (r: bool)
    ensures
        r == key_lt(*a, *b),
{
    let pa = a.entity.priority();
    let pb = b.entity.priority();
    pa < pb || (pa == pb && (a.created_at < b.created_at || (a.created_at == b.created_at && a.id < b.id)))
}

/// Stable sort by (priority, created_at, id).
fn sort_by_priority(v: Vec<Entitlement>) -> (r: Vec<Entitlement>)
    ensures
        r@ == sort_entitlements(v@),
{
    let mut sorted: Vec<Entitlement> = Vec::new();
    let mut i: usize = 0;
    while i < v.len()
        invariant
            i <= v@.len(),
            sorted@ == sort_entitlements(v@.take(i as int)),
        decreases v@.len() - i,
    {
        let x = v[i];
        let mut p: usize = sorted.len();
        while p > 0 && key_less(&x, &sorted[p - 1])
            invariant
                p <= sorted@.len(),
                forall|j: int| p <= j < sorted@.len() ==> key_lt(x, #[trigger] sorted@[j]),
            decreases p,
        {
            p = p - 1;
        }
        proof {
            lemma_insert_at(x, sorted@, p as int);
            assert(v@.take(i + 1).drop_last() =~= v@.take(i as int));
            assert(v@.take(i + 1).last() == x);
            assert(sorted@.insert(p as int, x) =~= sorted@.take(p as int).push(x) + sorted@.skip(p as int));
        }
        sorted.insert(p, x);
        i = i + 1;
    }
    assert(v@.take(v@.len() as int) =~= v@);
    sorted
}

/// Membership of an id in a list of ids.
fn contains_id(ids: &Vec<u128>, x: u128) -> (r: bool)
    ensures
        r == ids@.contains(x),
{
    let mut i: usize = 0;
    while i < ids.len()
        invariant
            i <= ids@.len(),
            forall|j: int| 0 <= j < i ==> ids@[j] != x,
        decreases ids@.len() - i,
    {
        if ids[i] == x {
            assert(ids@[i as int] == x);
            return true;
        }
        i = i + 1;
    }
    false
}

/// The distinct feature ids of `ents`, in order of first appearance.
fn collect_feature_ids(ents: &Vec<Entitlement>) -> (r: Vec<u128>)
    ensures
        r@ == feature_ids_of(ents@),
{
    let mut ids: Vec<u128> = Vec::new();
    let mut i: usize = 0;
    while i < ents.len()
        invariant
            i <= ents@.len(),
            ids@ == feature_ids_of(ents@.take(i as int)),
        decreases ents@.len() - i,
    {
        let fid = ents[i].feature_id;
        proof {
            assert(ents@.take(i + 1).drop_last() =~= ents@.take(i as int));
            assert(ents@.take(i + 1).last() == ents@[i as int]);
        }
        if !contains_id(&ids, fid) {
            ids.push(fid);
        }
        i = i + 1;
    }
    assert(ents@.take(ents@.len() as int) =~= ents@);
    ids
}

/// The entitlements of `ents` for feature `fid`, in order.
fn entitlements_for(ents: &Vec<Entitlement>, fid: u128) -> (r: Vec<Entitlement>)
    ensures
        r@ == entitlements_of(ents@, fid),
{
    let mut out: Vec<Entitlement> = Vec::new();
    let mut i: usize = 0;
    while i < ents.len()
        invariant
            i <= ents@.len(),
            out@ == entitlements_of(ents@.take(i as int), fid),
        decreases ents@.len() - i,
    {
        proof {
            assert(ents@.take(i + 1).drop_last() =~= ents@.take(i as int));
            assert(ents@.take(i + 1).last() == ents@[i as int]);
        }
        if ents[i].feature_id == fid {
            out.push(ents[i]);
        }
        i = i + 1;
    }
    assert(ents@.take(ents@.len() as int) =~= ents@);
    out
}

/// The index of the last active feature with id `fid`.
fn find_active_feature(features: &Vec<Feature>, fid: u128) -> (r: Option<usize>)
    ensures
        match r {
            Some(k) => k < features@.len() && active_feature(features@, fid) == Some(features@[k as int]),
            None => active_feature(features@, fid) is None,
        },
{
    let mut k: usize = features.len();
    assert(features@.take(k as int) =~= features@);
    while k > 0
        invariant
            k <= features@.len(),
            active_feature(features@, fid) == active_feature(features@.take(k as int), fid),
        decreases k,
    {
        let f = &features[k - 1];
        proof {
            assert(features@.take(k as int).drop_last() =~= features@.take(k - 1));
            assert(features@.take(k as int).last() == features@[k - 1]);
        }
        if f.id == fid && matches!(f.status, FeatureStatus::Active) {
            return Some(k - 1);
        }
        k = k - 1;
    }
    None
}

/// Folds one feature's sorted entitlements into (value, priority, origin).
fn fold_sorted(s: &Vec<Entitlement>, multi: &Vec<u128>) -> (r: (Option<EntitlementValue>, Option<u8>, Option<EntitlementEntityId>))
    requires
        fold_fits(s@, multi@),
    ensures
        r.0 == fold_entitlements(s@, multi@).value,
        r.1 == fold_entitlements(s@, multi@).priority,
        r.2 == fold_entitlements(s@, multi@).origin,
{
    let mut accumulated: Option<EntitlementValue> = None;
    let mut accumulated_priority: Option<u8> = None;
    let mut winning_origin: Option<EntitlementEntityId> = None;
    let mut i: usize = 0;
    while i < s.len()
        invariant
            i <= s@.len(),
            fold_fits(s@, multi@),
            accumulated == fold_entitlements(s@.take(i as int), multi@).value,
            accumulated_priority == fold_entitlements(s@.take(i as int), multi@).priority,
            winning_origin == fold_entitlements(s@.take(i as int), multi@).origin,
        decreases s@.len() - i,
    {
        let ent = s[i];
        proof {
            lemma_fold_fits_step(s@, multi@, i as int);
            assert(s@.take(i + 1).drop_last() =~= s@.take(i as int));
            assert(s@.take(i + 1).last() == ent);
        }
        let pri = ent.entity.priority();
        let same_priority = match accumulated_priority {
            Some(p) => p == pri,
            None => false,
        };
        let is_additive = match ent.entity {
            EntitlementEntityId::AddOn(aid) => contains_id(multi, aid),
            _ => false,
        };
        let keep_origin = match winning_origin {
            Some(o) => o,
            None => ent.entity,
        };
        let (next_value, next_origin) = match accumulated {
            Some(prev) => {
                if same_priority {
                    if is_additive {
                        (merge_additive(prev, ent.value), keep_origin)
                    } else {
                        let origin = if prev_dominates_under_permissive(&prev, &ent.value) {
                            keep_origin
                        } else {
                            ent.entity
                        };
                        (merge_permissive(prev, ent.value), origin)
                    }
                } else {
                    (ent.value, ent.entity)
                }
            },
            None => (ent.value, ent.entity),
        };
        accumulated = Some(next_value);
        winning_origin = Some(next_origin);
        accumulated_priority = Some(pri);
        i = i + 1;
    }
    assert(s@.take(s@.len() as int) =~= s@);
    (accumulated, accumulated_priority, winning_origin)
}

/// Copies a feature.
pub fn copy_feature(f: &Feature) -> (r: Feature)
    ensures
        r == *f,
{
    Feature {
        id: f.id,
        name: f.name.clone(),
        product: copy_product(&f.product),
        feature_type: f.feature_type,
        status: f.status,
    }
}

/// Copies an optional product reference.
pub(crate) fn copy_product(p: &Option<ProductRef>) -> (r: Option<ProductRef>)
    ensures
        r == *p,
{
    match p {
        Some(pr) => Some(ProductRef { id: pr.id, name: pr.name.clone() }),
        None => None,
    }
}

/// Resolves every feature that `entitlements` grant, one result per distinct
/// feature id (in order of first appearance). Features that are unknown or not
/// `Active` are skipped, as are folded values whose variant mismatches the
/// feature's type. The stored `mode` of a row is not consulted: same-priority
/// grants of add-ons listed in `multi_instance_addons` add up, all other
/// same-priority grants merge permissively, and a higher priority replaces.
pub fn resolve(entitlements: Vec<Entitlement>, features: Vec<Feature>, multi_instance_addons: &Vec<u128>) -> (r: Vec<RawResolvedEntitlement>)
    requires
        resolution_fits(entitlements@, features@, multi_instance_addons@),
    ensures
        r@ == resolution(entitlements@, features@, multi_instance_addons@),
{
    let ids = collect_feature_ids(&entitlements);
    let mut resolved: Vec<RawResolvedEntitlement> = Vec::new();
    let mut i: usize = 0;
    while i < ids.len()
        invariant
            i <= ids@.len(),
            ids@ == feature_ids_of(entitlements@),
            resolution_fits(entitlements@, features@, multi_instance_addons@),
            resolved@ == resolve_ids(ids@.take(i as int), entitlements@, features@, multi_instance_addons@),
        decreases ids@.len() - i,
    {
        let fid = ids[i];
        proof {
            assert(ids@.take(i + 1).drop_last() =~= ids@.take(i as int));
            assert(ids@.take(i + 1).last() == fid);
        }
        match find_active_feature(&features, fid) {
            None => {},
            Some(k) => {
                let feature = &features[k];
                proof {
                    lemma_active_feature(features@, fid);
                }
                assert(feature.id == fid);
                let mut ents = entitlements_for(&entitlements, fid);
                ents = sort_by_priority(ents);
                assert(active_feature(features@, fid) is Some);
                let (value, _priority, origin) = fold_sorted(&ents, multi_instance_addons);
                match value {
                    None => {},
                    Some(v) => {
                        let rv = match (feature.feature_type, v) {
                            (FeatureType::Boolean, EntitlementValue::Boolean { enabled }) =>
                                Some(ResolvedEntitlementValue::Boolean { enabled }),
                            (
                                FeatureType::Metered { metric_id },
                                EntitlementValue::Metered { limit, reset_period, overage_behavior, warning_threshold_pct, enabled },
                            ) => Some(ResolvedEntitlementValue::Metered {
                                metric_id,
                                limit,
                                reset_period,
                                overage_behavior,
                                warning_threshold_pct,
                                enabled,
                            }),
                            _ => None,
                        };
                        match rv {
                            None => {},
                            Some(rv) => {
                                proof {
                                    lemma_fold_shape(ents@, multi_instance_addons@);
                                }
                                let origin_entity = origin.unwrap();
                                resolved.push(RawResolvedEntitlement {
                                    feature: FeatureRef {
                                        id: feature.id,
                                        name: feature.name.clone(),
                                        product: copy_product(&feature.product),
                                    },
                                    value: rv,
                                    origin_entity,
                                });
                            },
                        }
                    },
                }
            },
        }
        i = i + 1;
    }
    assert(ids@.take(ids@.len() as int) =~= ids@);
    resolved
}

} // verus!
