//! Naming the entity a resolved entitlement comes from: which ids to look up,
//! and the display name each origin gets from the looked-up names.
use vstd::prelude::*;
use crate::entitlement_values::EntitlementEntityId;
use crate::entitlement_resolution::{
    FeatureRef, RawResolvedEntitlement, ResolvedEntitlementValue, copy_product,
};
use crate::entitlement_chains::{unique_ids, extend_unique, lemma_unique_from_empty, unique_product_ids};
use crate::text::{int_text, int_to_text};

verus! {

/// The kinds of origin whose names are looked up.
#[derive(Debug, Clone, Copy, PartialEq, Eq, Structural)]
pub enum OriginKind {
    Plan,
    PlanVersion,
    AddOn,
    Feature,
}

/// The id of `e` when it is of kind `k`.
pub open spec fn id_of_kind(e: EntitlementEntityId, k: OriginKind) -> Option<u128> {
    match (e, k) {
        (EntitlementEntityId::Plan(id), OriginKind::Plan) => Some(id),
        (EntitlementEntityId::PlanVersion(id), OriginKind::PlanVersion) => Some(id),
        (EntitlementEntityId::AddOn(id), OriginKind::AddOn) => Some(id),
        (EntitlementEntityId::Feature(id), OriginKind::Feature) => Some(id),
        _ => None,
    }
}

/// The ids of the origins of kind `k`, in order, repeats included.
pub open spec fn ids_of_kind(s: Seq<EntitlementEntityId>, k: OriginKind) -> Seq<u128>
    decreases s.len(),
{
    if s.len() == 0 {
        seq![]
    } else {
        match id_of_kind(s.last(), k) {
            Some(id) => ids_of_kind(s.drop_last(), k).push(id),
            None => ids_of_kind(s.drop_last(), k),
        }
    }
}

fn kind_id(e: &EntitlementEntityId, k: OriginKind) -> (r: Option<u128>)
    ensures
        r == id_of_kind(*e, k),
{
    match (e, k) {
        (EntitlementEntityId::Plan(id), OriginKind::Plan) => Some(*id),
        (EntitlementEntityId::PlanVersion(id), OriginKind::PlanVersion) => Some(*id),
        (EntitlementEntityId::AddOn(id), OriginKind::AddOn) => Some(*id),
        (EntitlementEntityId::Feature(id), OriginKind::Feature) => Some(*id),
        _ => None,
    }
}

/// The distinct ids of the origins of kind `k` (to look their names up).
pub fn origin_ids(origins: &[EntitlementEntityId], k: OriginKind) -> (r: Vec<u128>)
    ensures
        r@ == unique_ids(ids_of_kind(origins@, k)),
{
    let mut raw: Vec<u128> = Vec::new();
    let mut i: usize = 0;
    while i < origins.len()
        invariant
            i <= origins@.len(),
            raw@ == ids_of_kind(origins@.take(i as int), k),
        decreases origins@.len() - i,
    {
        proof {
            assert(origins@.take(i + 1).drop_last() =~= origins@.take(i as int));
            assert(origins@.take(i + 1).last() == origins@[i as int]);
        }
        match kind_id(&origins[i], k) {
            Some(id) => raw.push(id),
            None => {},
        }
        i = i + 1;
    }
    assert(origins@.take(i as int) =~= origins@);
    let mut out: Vec<u128> = Vec::new();
    extend_unique(&mut out, raw.as_slice());
    proof {
        lemma_unique_from_empty(raw@);
    }
    out
}

/// The name recorded for `id`, read as a map filled in order: the last
/// entry for the id wins.
pub open spec fn name_for(names: Seq<(u128, String)>, id: u128) -> Option<Seq<char>>
    decreases names.len(),
{
    if names.len() == 0 {
        None
    } else if names.last().0 == id {
        Some(names.last().1@)
    } else {
        name_for(names.drop_last(), id)
    }
}

/// The plan and version number recorded for a plan version (last entry wins).
pub open spec fn version_for(versions: Seq<(u128, u128, i32)>, id: u128) -> Option<(u128, i32)>
    decreases versions.len(),
{
    if versions.len() == 0 {
        None
    } else if versions.last().0 == id {
        Some((versions.last().1, versions.last().2))
    } else {
        version_for(versions.drop_last(), id)
    }
}

/// The names looked up for the origins: plans, plan versions (their plan and
/// version number), add-ons and features.
#[derive(Debug)]
pub struct OriginNames {
    pub plans: Vec<(u128, String)>,
    pub plan_versions: Vec<(u128, u128, i32)>,
    pub add_ons: Vec<(u128, String)>,
    pub features: Vec<(u128, String)>,
}

/// The plans of the looked-up plan versions.
pub open spec fn parent_plans(versions: Seq<(u128, u128, i32)>) -> Seq<u128> {
    versions.map_values(|v: (u128, u128, i32)| v.1)
}

/// The plans whose names are needed: those of plan origins and the parents
/// of plan-version origins, each once.
pub fn plan_ids_to_load(plan_ids: &[u128], versions: &Vec<(u128, u128, i32)>) -> (r: Vec<u128>)
    ensures
        r@ == unique_ids(plan_ids@ + parent_plans(versions@) + Seq::<u128>::empty()),
{
    let mut parents: Vec<u128> = Vec::new();
    let mut i: usize = 0;
    while i < versions.len()
        invariant
            i <= versions@.len(),
            parents@ == parent_plans(versions@.take(i as int)),
        decreases versions@.len() - i,
    {
        parents.push(versions[i].1);
        i = i + 1;
        assert(parents@ =~= parent_plans(versions@.take(i as int)));
    }
    assert(versions@.take(i as int) =~= versions@);
    let none: Vec<u128> = Vec::new();
    unique_product_ids(plan_ids, parents.as_slice(), none.as_slice())
}

/// The display name of a plan version: its plan's name and " v" with the
/// version number.
pub open spec fn version_label(plan_name: Seq<char>, version: i32) -> Seq<char> {
    plan_name + " v"@ + int_text(version as int)
}

/// The display name of an origin: the name of its plan, add-on or feature;
/// for a plan version, its plan's name and version; none for a subscription
/// or quote, or when the name was not found.
pub open spec fn origin_label(e: EntitlementEntityId, names: OriginNames) -> Option<Seq<char>> {
    match e {
        EntitlementEntityId::Plan(id) => name_for(names.plans@, id),
        EntitlementEntityId::PlanVersion(id) => match version_for(names.plan_versions@, id) {
            Some((plan_id, version)) => match name_for(names.plans@, plan_id) {
                Some(n) => Some(version_label(n, version)),
                None => None,
            },
            None => None,
        },
        EntitlementEntityId::AddOn(id) => name_for(names.add_ons@, id),
        EntitlementEntityId::Feature(id) => name_for(names.features@, id),
        EntitlementEntityId::Subscription(_) | EntitlementEntityId::Quote(_) => None,
    }
}

fn find_name(names: &Vec<(u128, String)>, id: u128) -> (r: Option<String>)
    ensures
        match r {
            Some(s) => name_for(names@, id) == Some(s@),
            None => name_for(names@, id) is None,
        },
{
    let mut k: usize = names.len();
    assert(names@.take(k as int) =~= names@);
    while k > 0
        invariant
            k <= names@.len(),
            name_for(names@, id) == name_for(names@.take(k as int), id),
        decreases k,
    {
        proof {
            assert(names@.take(k as int).drop_last() =~= names@.take(k - 1));
            assert(names@.take(k as int).last() == names@[k - 1]);
        }
        if names[k - 1].0 == id {
            return Some(names[k - 1].1.clone());
        }
        k = k - 1;
    }
    None
}

fn find_version(versions: &Vec<(u128, u128, i32)>, id: u128) -> (r: Option<(u128, i32)>)
    ensures
        r == version_for(versions@, id),
{
    let mut k: usize = versions.len();
    assert(versions@.take(k as int) =~= versions@);
    while k > 0
        invariant
            k <= versions@.len(),
            version_for(versions@, id) == version_for(versions@.take(k as int), id),
        decreases k,
    {
        proof {
            assert(versions@.take(k as int).drop_last() =~= versions@.take(k - 1));
            assert(versions@.take(k as int).last() == versions@[k - 1]);
        }
        if versions[k - 1].0 == id {
            return Some((versions[k - 1].1, versions[k - 1].2));
        }
        k = k - 1;
    }
    None
}

/// A plan version's name: the plan's name, " v" and the version number.
fn version_label_text(plan_name: &String, version: i32) -> (s: String)
    ensures
        s@ == version_label(plan_name@, version),
{
    let mut s = plan_name.as_str().to_owned();
    s.append(" v");
    s.append(int_to_text(version as i64).as_str());
    s
}

/// The display name of an origin (see [`origin_label`]).
pub fn origin_name(e: &EntitlementEntityId, names: &OriginNames) -> (r: Option<String>)
    ensures
        match r {
            Some(s) => origin_label(*e, *names) == Some(s@),
            None => origin_label(*e, *names) is None,
        },
{
    match e {
        EntitlementEntityId::Plan(id) => find_name(&names.plans, *id),
        EntitlementEntityId::PlanVersion(id) => match find_version(&names.plan_versions, *id) {
            Some((plan_id, version)) => match find_name(&names.plans, plan_id) {
                Some(n) => Some(version_label_text(&n, version)),
                None => None,
            },
            None => None,
        },
        EntitlementEntityId::AddOn(id) => find_name(&names.add_ons, *id),
        EntitlementEntityId::Feature(id) => find_name(&names.features, *id),
        EntitlementEntityId::Subscription(_) | EntitlementEntityId::Quote(_) => None,
    }
}

/// The origin of a resolved entitlement, with its display name when known.
#[derive(Debug)]
pub struct ResolvedOrigin {
    pub entity: EntitlementEntityId,
    pub name: Option<String>,
}

/// A resolved entitlement with its named origin.
#[derive(Debug)]
pub struct ResolvedEntitlement {
    pub feature: FeatureRef,
    pub value: ResolvedEntitlementValue,
    pub origin: ResolvedOrigin,
}

/// `r` is `raw` with the origin named from `names`.
pub open spec fn named_from(raw: RawResolvedEntitlement, names: OriginNames, r: ResolvedEntitlement) -> bool {
    &&& r.feature == raw.feature
    &&& r.value == raw.value
    &&& r.origin.entity == raw.origin_entity
    &&& match r.origin.name {
        Some(s) => origin_label(raw.origin_entity, names) == Some(s@),
        None => origin_label(raw.origin_entity, names) is None,
    }
}

/// Attaches the display name of its origin to each resolved entitlement.
pub fn with_origin_names(items: &Vec<RawResolvedEntitlement>, names: &OriginNames) -> (r: Vec<ResolvedEntitlement>)
    ensures
        r@.len() == items@.len(),
        forall|k: int| 0 <= k < items@.len() ==> named_from(#[trigger] items@[k], *names, r@[k]),
{
    let mut out: Vec<ResolvedEntitlement> = Vec::new();
    let mut i: usize = 0;
    while i < items.len()
        invariant
            i <= items@.len(),
            out@.len() == i,
            forall|k: int| 0 <= k < i ==> named_from(#[trigger] items@[k], *names, out@[k]),
        decreases items@.len() - i,
    {
        let item = &items[i];
        let feature = FeatureRef {
            id: item.feature.id,
            name: item.feature.name.clone(),
            product: copy_product(&item.feature.product),
        };
        let name = origin_name(&item.origin_entity, names);
        out.push(ResolvedEntitlement {
            feature,
            value: item.value,
            origin: ResolvedOrigin { entity: item.origin_entity, name },
        });
        i = i + 1;
    }
    out
}

} // verus!
