//! Properties of entitlement composition that hold for all inputs.
use vstd::prelude::*;
use crate::entitlement_values::{additive, permissive, priority_of, EntitlementValue};
use crate::entitlement_values::FeatureType;
use crate::entitlement_resolution::{
    fold_entitlements, Entitlement, Feature, RawResolvedEntitlement, ResolvedEntitlementValue, active_feature,
    feature_ids_of, resolution, resolve_ids, lemma_active_feature, entitlements_of, insert_sorted,
    sort_entitlements, resolve_feature,
};

verus! {

/// Two values of the same variant agree on every field a reader compares
/// under permissive merge: the limit, the warning threshold and the kill-switch
/// of metered grants, the flag of boolean grants.
pub open spec fn same_visible_fields(x: EntitlementValue, y: EntitlementValue) -> bool {
    match (x, y) {
        (EntitlementValue::Boolean { enabled: a }, EntitlementValue::Boolean { enabled: b }) => a == b,
        (
            EntitlementValue::Metered { limit: la, warning_threshold_pct: wa, enabled: ea, .. },
            EntitlementValue::Metered { limit: lb, warning_threshold_pct: wb, enabled: eb, .. },
        ) => la == lb && wa == wb && ea == eb,
        _ => false,
    }
}

/// Both values are boolean, or both are metered.
pub open spec fn same_variant(x: EntitlementValue, y: EntitlementValue) -> bool {
    (x is Boolean && y is Boolean) || (x is Metered && y is Metered)
}

/// Permissive merge does not depend on the order of the two grants in any
/// visible field (max limit, min warning threshold, OR of the kill-switch).
pub proof fn law_permissive_merge_commutes(a: EntitlementValue, b: EntitlementValue)
    requires
        same_variant(a, b),
    ensures
        same_visible_fields(permissive(a, b), permissive(b, a)),
{
}

/// Merging a grant permissively with itself gives the grant back.
pub proof fn law_permissive_merge_idempotent(a: EntitlementValue)
    ensures
        permissive(a, a) == a,
{
}

/// Additive merge of two grants sums their limits and ORs their kill-switches
/// in either order: neither the total nor the switch depends on which
/// multi-instance grant was created first.
pub proof fn law_additive_merge_order_independent(a: EntitlementValue, b: EntitlementValue)
    requires
        same_variant(a, b),
    ensures
        match (additive(a, b), additive(b, a)) {
            (EntitlementValue::Boolean { enabled: x }, EntitlementValue::Boolean { enabled: y }) => x == y,
            (EntitlementValue::Metered { limit: lx, enabled: ex, .. }, EntitlementValue::Metered { limit: ly, enabled: ey, .. }) =>
                lx == ly && ex == ey,
            _ => false,
        },
{
}

/// An unlimited metered grant absorbs every other grant of the same priority,
/// whether the merge is permissive or additive.
pub proof fn law_unlimited_absorbs(a: EntitlementValue, b: EntitlementValue)
    requires
        a is Metered,
        b is Metered,
        a->Metered_limit is None || b->Metered_limit is None,
    ensures
        permissive(a, b)->Metered_limit is None,
        additive(a, b)->Metered_limit is None,
{
}

/// One enabled grant keeps a feature on under either merge: the kill-switch
/// must be set on every same-priority grant to switch the feature off.
pub proof fn law_enabled_wins_within_priority(a: EntitlementValue, b: EntitlementValue)
    requires
        same_variant(a, b),
        match a {
            EntitlementValue::Boolean { enabled } => enabled,
            EntitlementValue::Metered { enabled, .. } => enabled,
        },
    ensures
        match permissive(a, b) {
            EntitlementValue::Boolean { enabled } => enabled,
            EntitlementValue::Metered { enabled, .. } => enabled,
        },
        match additive(a, b) {
            EntitlementValue::Boolean { enabled } => enabled,
            EntitlementValue::Metered { enabled, .. } => enabled,
        },
        match permissive(b, a) {
            EntitlementValue::Boolean { enabled } => enabled,
            EntitlementValue::Metered { enabled, .. } => enabled,
        },
        match additive(b, a) {
            EntitlementValue::Boolean { enabled } => enabled,
            EntitlementValue::Metered { enabled, .. } => enabled,
        },
{
}

/// The fold's priority is the priority of the last grant folded in.
proof fn lemma_fold_priority(s: Seq<Entitlement>, multi: Seq<u128>)
    requires
        s.len() > 0,
    ensures
        fold_entitlements(s, multi).priority == Some(priority_of(s.last().entity)),
        fold_entitlements(s, multi).value is Some,
{
}

/// A higher priority replaces everything below it: when every grant of `lo`
/// has a lower priority than every grant of `hi` (and `hi` is not empty),
/// folding `lo` followed by `hi` gives exactly what folding `hi` alone gives,
/// value, priority and origin alike.
pub proof fn law_higher_priority_replaces(lo: Seq<Entitlement>, hi: Seq<Entitlement>, multi: Seq<u128>)
    requires
        hi.len() > 0,
        forall|i: int, j: int| 0 <= i < lo.len() && 0 <= j < hi.len()
            ==> priority_of(#[trigger] lo[i].entity) < priority_of(#[trigger] hi[j].entity),
    ensures
        fold_entitlements(lo + hi, multi) == fold_entitlements(hi, multi),
    decreases hi.len(),
{
    let all = lo + hi;
    if hi.len() == 1 {
        assert(all.drop_last() =~= lo);
        assert(all.last() == hi[0]);
        assert(hi.drop_last() =~= Seq::<Entitlement>::empty());
        assert(fold_entitlements(hi.drop_last(), multi).value is None);
        assert(hi.last() == hi[0]);
        if lo.len() > 0 {
            lemma_fold_priority(lo, multi);
            assert(priority_of(lo.last().entity) < priority_of(hi[0].entity));
        }
    } else {
        let h = hi.drop_last();
        assert forall|i: int, j: int| 0 <= i < lo.len() && 0 <= j < h.len()
            implies priority_of(#[trigger] lo[i].entity) < priority_of(#[trigger] h[j].entity) by {
            assert(h[j] == hi[j]);
        }
        law_higher_priority_replaces(lo, h, multi);
        assert(all.drop_last() =~= lo + h);
        assert(all.last() == hi.last());
    }
}

/// The origin of a fold is the entity of one of the folded grants, and that
/// grant has the priority of the last grant folded in.
pub proof fn law_fold_origin_is_a_top_contributor(s: Seq<Entitlement>, multi: Seq<u128>)
    requires
        s.len() > 0,
    ensures
        exists|k: int| 0 <= k < s.len()
            && fold_entitlements(s, multi).origin == Some(#[trigger] s[k].entity)
            && priority_of(s[k].entity) == priority_of(s.last().entity),
    decreases s.len(),
{
    let d = s.drop_last();
    let st = fold_entitlements(d, multi);
    if d.len() == 0 {
        assert(fold_entitlements(s, multi).origin == Some(s[s.len() - 1].entity));
    } else {
        lemma_fold_priority(d, multi);
        law_fold_origin_is_a_top_contributor(d, multi);
        let k = choose|k: int| 0 <= k < d.len()
            && st.origin == Some(#[trigger] d[k].entity)
            && priority_of(d[k].entity) == priority_of(d.last().entity);
        assert(d[k] == s[k]);
        if st.priority == Some(priority_of(s.last().entity)) {
            assert(fold_entitlements(s, multi).origin == Some(s[k].entity)
                || fold_entitlements(s, multi).origin == Some(s[s.len() - 1].entity));
        } else {
            assert(fold_entitlements(s, multi).origin == Some(s[s.len() - 1].entity));
        }
    }
}

/// The resolved value has the kind of its feature: a boolean value for a
/// boolean feature, a metered value carrying the feature's metric for a
/// metered one.
pub open spec fn value_fits_feature(v: ResolvedEntitlementValue, t: FeatureType) -> bool {
    match (v, t) {
        (ResolvedEntitlementValue::Boolean { .. }, FeatureType::Boolean) => true,
        (ResolvedEntitlementValue::Metered { metric_id: m, .. }, FeatureType::Metered { metric_id }) => m == metric_id,
        _ => false,
    }
}

/// A resolution entry for an active, known feature granted by `ents`.
pub open spec fn well_founded_entry(r: RawResolvedEntitlement, ids: Seq<u128>, features: Seq<Feature>) -> bool {
    &&& ids.contains(r.feature.id)
    &&& active_feature(features, r.feature.id) matches Some(f)
    &&& f.name == r.feature.name
    &&& f.product == r.feature.product
    &&& value_fits_feature(r.value, f.feature_type)
}

proof fn lemma_resolve_ids_entries(ids: Seq<u128>, ents: Seq<Entitlement>, features: Seq<Feature>, multi: Seq<u128>)
    ensures
        forall|k: int| 0 <= k < resolve_ids(ids, ents, features, multi).len()
            ==> well_founded_entry(#[trigger] resolve_ids(ids, ents, features, multi)[k], ids, features),
        (forall|a: int, b: int| 0 <= a < b < ids.len() ==> ids[a] != ids[b]) ==>
            forall|a: int, b: int| 0 <= a < b < resolve_ids(ids, ents, features, multi).len()
                ==> (#[trigger] resolve_ids(ids, ents, features, multi)[a]).feature.id
                    != (#[trigger] resolve_ids(ids, ents, features, multi)[b]).feature.id,
    decreases ids.len(),
{
    if ids.len() > 0 {
        let d = ids.drop_last();
        lemma_resolve_ids_entries(d, ents, features, multi);
        let prev = resolve_ids(d, ents, features, multi);
        let cur = resolve_ids(ids, ents, features, multi);
        lemma_active_feature(features, ids.last());
        assert forall|k: int| 0 <= k < prev.len() implies well_founded_entry(#[trigger] prev[k], ids, features) by {
            assert(well_founded_entry(prev[k], d, features));
            let j = choose|j: int| 0 <= j < d.len() && d[j] == prev[k].feature.id;
            assert(ids[j] == prev[k].feature.id);
        }
        if cur.len() > prev.len() {
            assert(cur == prev.push(cur.last()));
            assert(cur.last().feature.id == ids.last());
            assert(ids[ids.len() - 1] == ids.last());
            if forall|a: int, b: int| 0 <= a < b < ids.len() ==> ids[a] != ids[b] {
                assert forall|k: int| 0 <= k < prev.len() implies (#[trigger] prev[k]).feature.id != ids.last() by {
                    let j = choose|j: int| 0 <= j < d.len() && d[j] == prev[k].feature.id;
                    assert(ids[j] == d[j]);
                }
            }
        }
    }
}

proof fn lemma_feature_ids_unique(s: Seq<Entitlement>)
    ensures
        forall|a: int, b: int| 0 <= a < b < feature_ids_of(s).len() ==> feature_ids_of(s)[a] != feature_ids_of(s)[b],
        forall|k: int| #![trigger feature_ids_of(s)[k]] 0 <= k < feature_ids_of(s).len() ==> exists|j: int| #![trigger s[j]] 0 <= j < s.len() && s[j].feature_id == feature_ids_of(s)[k],
    decreases s.len(),
{
    if s.len() > 0 {
        let d = s.drop_last();
        lemma_feature_ids_unique(d);
        let prev = feature_ids_of(d);
        let cur = feature_ids_of(s);
        assert forall|k: int| #![trigger cur[k]] 0 <= k < cur.len() implies exists|j: int| #![trigger s[j]] 0 <= j < s.len() && s[j].feature_id == cur[k] by {
            if k < prev.len() {
                let j = choose|j: int| #![trigger d[j]] 0 <= j < d.len() && d[j].feature_id == prev[k];
                assert(s[j] == d[j]);
            } else {
                assert(s[s.len() - 1].feature_id == cur[k]);
            }
        }
    }
}

/// Resolution yields at most one entitlement per feature, only for features
/// that the entitlements grant and that are known and active, named as the
/// feature and valued in the feature's own kind (a metered value carries the
/// feature's metric). In particular a disabled, archived or unknown feature
/// never resolves.
pub proof fn law_resolution_entries_are_active_features(ents: Seq<Entitlement>, features: Seq<Feature>, multi: Seq<u128>)
    ensures
        forall|k: int| 0 <= k < resolution(ents, features, multi).len() ==> {
            let r = #[trigger] resolution(ents, features, multi)[k];
            &&& well_founded_entry(r, feature_ids_of(ents), features)
            &&& exists|j: int| #![trigger ents[j]] 0 <= j < ents.len() && ents[j].feature_id == r.feature.id
        },
        forall|a: int, b: int| 0 <= a < b < resolution(ents, features, multi).len()
            ==> (#[trigger] resolution(ents, features, multi)[a]).feature.id
                != (#[trigger] resolution(ents, features, multi)[b]).feature.id,
{
    let ids = feature_ids_of(ents);
    lemma_feature_ids_unique(ents);
    lemma_resolve_ids_entries(ids, ents, features, multi);
    let res = resolution(ents, features, multi);
    assert forall|k: int| #![trigger res[k]] 0 <= k < res.len() implies exists|j: int| #![trigger ents[j]] 0 <= j < ents.len() && ents[j].feature_id == res[k].feature.id by {
        assert(well_founded_entry(res[k], ids, features));
        let i = choose|i: int| 0 <= i < ids.len() && ids[i] == res[k].feature.id;
        assert(ids[i] == feature_ids_of(ents)[i]);
    }
}

/// Two entitlement rows that differ at most in their stored mode.
pub open spec fn same_but_mode(a: Entitlement, b: Entitlement) -> bool {
    a.id == b.id && a.feature_id == b.feature_id && a.entity == b.entity && a.value == b.value && a.created_at == b.created_at
}

/// Two runs of rows that agree row by row except for the stored modes.
pub open spec fn agree_but_modes(a: Seq<Entitlement>, b: Seq<Entitlement>) -> bool {
    a.len() == b.len() && forall|i: int| 0 <= i < a.len() ==> same_but_mode(#[trigger] a[i], b[i])
}

proof fn lemma_agree_drop_last(a: Seq<Entitlement>, b: Seq<Entitlement>)
    requires
        agree_but_modes(a, b),
        a.len() > 0,
    ensures
        agree_but_modes(a.drop_last(), b.drop_last()),
        same_but_mode(a.last(), b.last()),
{
    assert forall|i: int| 0 <= i < a.drop_last().len() implies same_but_mode(#[trigger] a.drop_last()[i], b.drop_last()[i]) by {
        assert(same_but_mode(a[i], b[i]));
    }
    assert(same_but_mode(a[a.len() - 1], b[b.len() - 1]));
}

proof fn lemma_agree_push(a: Seq<Entitlement>, b: Seq<Entitlement>, x: Entitlement, y: Entitlement)
    requires
        agree_but_modes(a, b),
        same_but_mode(x, y),
    ensures
        agree_but_modes(a.push(x), b.push(y)),
{
    assert forall|i: int| 0 <= i < a.push(x).len() implies same_but_mode(#[trigger] a.push(x)[i], b.push(y)[i]) by {
        if i < a.len() {
            assert(same_but_mode(a[i], b[i]));
        }
    }
}

proof fn lemma_agree_entitlements_of(a: Seq<Entitlement>, b: Seq<Entitlement>, fid: u128)
    requires
        agree_but_modes(a, b),
    ensures
        agree_but_modes(entitlements_of(a, fid), entitlements_of(b, fid)),
    decreases a.len(),
{
    if a.len() > 0 {
        lemma_agree_drop_last(a, b);
        lemma_agree_entitlements_of(a.drop_last(), b.drop_last(), fid);
        if a.last().feature_id == fid {
            lemma_agree_push(entitlements_of(a.drop_last(), fid), entitlements_of(b.drop_last(), fid), a.last(), b.last());
        }
    }
}

proof fn lemma_agree_feature_ids(a: Seq<Entitlement>, b: Seq<Entitlement>)
    requires
        agree_but_modes(a, b),
    ensures
        feature_ids_of(a) == feature_ids_of(b),
    decreases a.len(),
{
    if a.len() > 0 {
        lemma_agree_drop_last(a, b);
        lemma_agree_feature_ids(a.drop_last(), b.drop_last());
    }
}

proof fn lemma_agree_insert(x: Entitlement, y: Entitlement, s: Seq<Entitlement>, t: Seq<Entitlement>)
    requires
        same_but_mode(x, y),
        agree_but_modes(s, t),
    ensures
        agree_but_modes(insert_sorted(x, s), insert_sorted(y, t)),
    decreases s.len(),
{
    if s.len() == 0 {
        assert(agree_but_modes(seq![x], seq![y])) by {
            assert(seq![x][0] == x);
            assert(seq![y][0] == y);
        }
    } else {
        lemma_agree_drop_last(s, t);
        if crate::entitlement_resolution::key_lt(x, s.last()) {
            lemma_agree_insert(x, y, s.drop_last(), t.drop_last());
            lemma_agree_push(insert_sorted(x, s.drop_last()), insert_sorted(y, t.drop_last()), s.last(), t.last());
        } else {
            lemma_agree_push(s, t, x, y);
        }
    }
}

proof fn lemma_agree_sort(a: Seq<Entitlement>, b: Seq<Entitlement>)
    requires
        agree_but_modes(a, b),
    ensures
        agree_but_modes(sort_entitlements(a), sort_entitlements(b)),
    decreases a.len(),
{
    if a.len() > 0 {
        lemma_agree_drop_last(a, b);
        lemma_agree_sort(a.drop_last(), b.drop_last());
        lemma_agree_insert(a.last(), b.last(), sort_entitlements(a.drop_last()), sort_entitlements(b.drop_last()));
    }
}

proof fn lemma_agree_fold(a: Seq<Entitlement>, b: Seq<Entitlement>, multi: Seq<u128>)
    requires
        agree_but_modes(a, b),
    ensures
        fold_entitlements(a, multi) == fold_entitlements(b, multi),
    decreases a.len(),
{
    if a.len() > 0 {
        lemma_agree_drop_last(a, b);
        lemma_agree_fold(a.drop_last(), b.drop_last(), multi);
    }
}

proof fn lemma_agree_resolve_ids(ids: Seq<u128>, a: Seq<Entitlement>, b: Seq<Entitlement>, features: Seq<Feature>, multi: Seq<u128>)
    requires
        agree_but_modes(a, b),
    ensures
        resolve_ids(ids, a, features, multi) == resolve_ids(ids, b, features, multi),
    decreases ids.len(),
{
    if ids.len() > 0 {
        lemma_agree_resolve_ids(ids.drop_last(), a, b, features, multi);
        match active_feature(features, ids.last()) {
            Some(f) => {
                lemma_agree_entitlements_of(a, b, f.id);
                lemma_agree_sort(entitlements_of(a, f.id), entitlements_of(b, f.id));
                lemma_agree_fold(sort_entitlements(entitlements_of(a, f.id)), sort_entitlements(entitlements_of(b, f.id)), multi);
                assert(resolve_feature(f, a, multi) == resolve_feature(f, b, multi));
            },
            None => {},
        }
    }
}

/// The stored mode of an entitlement row is ignored: rows that differ only
/// in their modes resolve alike (composition follows from priorities and the
/// multi-instance add-ons alone).
pub proof fn law_stored_mode_is_ignored(a: Seq<Entitlement>, b: Seq<Entitlement>, features: Seq<Feature>, multi: Seq<u128>)
    requires
        agree_but_modes(a, b),
    ensures
        resolution(a, features, multi) == resolution(b, features, multi),
{
    lemma_agree_feature_ids(a, b);
    lemma_agree_resolve_ids(feature_ids_of(a), a, b, features, multi);
}

/// `l` is at least each of the limits `la` and `lb` and is one of them, and
/// unlimited (`None`) exactly when either is.
pub open spec fn most_generous_limit(la: Option<u64>, lb: Option<u64>, l: Option<u64>) -> bool {
    &&& (la is None || lb is None) <==> l is None
    &&& l matches Some(v) ==> (la matches Some(x) && lb matches Some(y) && v >= x && v >= y && (v == x || v == y))
}

/// `w` warns no later than either threshold `wa` and `wb` asks and is one of
/// them; a missing threshold defers to the other.
pub open spec fn earliest_warning(wa: Option<u8>, wb: Option<u8>, w: Option<u8>) -> bool {
    &&& (wa is Some && wb is Some) ==> (w matches Some(z) && z <= wa->0 && z <= wb->0 && (z == wa->0 || z == wb->0))
    &&& wa is None ==> w == wb
    &&& wb is None ==> w == wa
}

/// The permissive merge of two metered grants: the most generous limit, the
/// earliest warning, on when either is on, and the second grant's reset
/// period and overage behaviour.
pub open spec fn generous_metered(a: EntitlementValue, b: EntitlementValue, r: EntitlementValue) -> bool {
    match (a, b, r) {
        (
            EntitlementValue::Metered { limit: la, warning_threshold_pct: wa, enabled: ea, .. },
            EntitlementValue::Metered { limit: lb, reset_period: rb, overage_behavior: ob, warning_threshold_pct: wb, enabled: eb },
            EntitlementValue::Metered { limit, reset_period, overage_behavior, warning_threshold_pct, enabled },
        ) => {
            &&& enabled == (ea || eb)
            &&& reset_period == rb
            &&& overage_behavior == ob
            &&& most_generous_limit(la, lb, limit)
            &&& earliest_warning(wa, wb, warning_threshold_pct)
        },
        _ => false,
    }
}

/// Merging two same-priority grants permissively grants the most generous
/// of both: for metered grants the limit is at least each grant's and is one
/// of them (unlimited when either is), the warning comes as early as any
/// grant asks (the smaller threshold; a missing one defers to the other),
/// and the feature stays on when either grant has it on; the reset period
/// and overage behaviour are the second grant's. Two boolean grants merge to
/// enabled exactly when either is.
pub proof fn law_permissive_merge_is_most_generous(a: EntitlementValue, b: EntitlementValue)
    ensures
        (a is Metered && b is Metered) ==> generous_metered(a, b, permissive(a, b)),
        (a is Boolean && b is Boolean) ==> (permissive(a, b) matches EntitlementValue::Boolean { enabled }
            && enabled == (a->Boolean_enabled || b->Boolean_enabled)),
{
    if a is Metered && b is Metered {
        let r = permissive(a, b);
        assert(most_generous_limit(a->Metered_limit, b->Metered_limit, r->Metered_limit));
        assert(earliest_warning(a->warning_threshold_pct, b->warning_threshold_pct, r->warning_threshold_pct));
    }
}

} // verus!
