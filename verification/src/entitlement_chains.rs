//! Which entities can own entitlements for a resolution target (the chain), and
//! which products' features are in scope.
use vstd::prelude::*;
use crate::entitlement_values::{EntitlementEntityId, EntitlementMode};
use crate::entitlement_resolution::{copy_feature, Entitlement, Feature};

verus! {

/// Each id wrapped as an add-on entity.
pub open spec fn add_on_entities(ids: Seq<u128>) -> Seq<EntitlementEntityId> {
    ids.map_values(|id: u128| EntitlementEntityId::AddOn(id))
}

/// The chain of a product target: products own no entitlement rows themselves.
pub fn build_chain_for_product(_product_id: u128) -> (chain: Vec<EntitlementEntityId>)
    ensures
        chain@.len() == 0,
{
    Vec::new()
}

/// The chain of an add-on target: the add-on alone.
pub fn build_chain_for_addon(addon_id: u128) -> (chain: Vec<EntitlementEntityId>)
    ensures
        chain@ == seq![EntitlementEntityId::AddOn(addon_id)],
{
    let mut chain = Vec::new();
    chain.push(EntitlementEntityId::AddOn(addon_id));
    chain
}

/// `[Plan, PlanVersion, AddOn₁..n]`, in insertion order (resolution re-sorts by priority).
pub fn plan_version_chain(plan_id: u128, plan_version_id: u128, add_on_ids: &[u128]) -> (chain: Vec<EntitlementEntityId>)
    ensures
        chain@ == seq![EntitlementEntityId::Plan(plan_id), EntitlementEntityId::PlanVersion(plan_version_id)]
            + add_on_entities(add_on_ids@),
{
    let mut chain = Vec::new();
    chain.push(EntitlementEntityId::Plan(plan_id));
    chain.push(EntitlementEntityId::PlanVersion(plan_version_id));
    let ghost head = chain@;
    let mut i: usize = 0;
    while i < add_on_ids.len()
        invariant
            i <= add_on_ids@.len(),
            head == seq![EntitlementEntityId::Plan(plan_id), EntitlementEntityId::PlanVersion(plan_version_id)],
            chain@ == head + add_on_entities(add_on_ids@.take(i as int)),
        decreases add_on_ids@.len() - i,
    {
        chain.push(EntitlementEntityId::AddOn(add_on_ids[i]));
        proof {
            assert(add_on_entities(add_on_ids@.take(i + 1)) =~= add_on_entities(add_on_ids@.take(i as int)).push(
                EntitlementEntityId::AddOn(add_on_ids@[i as int])));
        }
        i = i + 1;
    }
    assert(add_on_ids@.take(add_on_ids@.len() as int) =~= add_on_ids@);
    chain
}

/// The chain of a subscription: its plan-version chain followed by the subscription.
pub fn subscription_chain(plan_id: u128, plan_version_id: u128, add_on_ids: &[u128], subscription_id: u128) -> (chain: Vec<EntitlementEntityId>)
    ensures
        chain@ == seq![EntitlementEntityId::Plan(plan_id), EntitlementEntityId::PlanVersion(plan_version_id)]
            + add_on_entities(add_on_ids@) + seq![EntitlementEntityId::Subscription(subscription_id)],
{
    let mut chain = plan_version_chain(plan_id, plan_version_id, add_on_ids);
    chain.push(EntitlementEntityId::Subscription(subscription_id));
    chain
}

/// The chain of a quote: its plan-version chain followed by the quote.
pub fn quote_chain(plan_id: u128, plan_version_id: u128, add_on_ids: &[u128], quote_id: u128) -> (chain: Vec<EntitlementEntityId>)
    ensures
        chain@ == seq![EntitlementEntityId::Plan(plan_id), EntitlementEntityId::PlanVersion(plan_version_id)]
            + add_on_entities(add_on_ids@) + seq![EntitlementEntityId::Quote(quote_id)],
{
    let mut chain = plan_version_chain(plan_id, plan_version_id, add_on_ids);
    chain.push(EntitlementEntityId::Quote(quote_id));
    chain
}

/// The chain contains both a subscription and a quote.
pub open spec fn mixes_subscription_and_quote(chain: Seq<EntitlementEntityId>) -> bool {
    (exists|i: int| 0 <= i < chain.len() && #[trigger] chain[i] is Subscription)
        && (exists|j: int| 0 <= j < chain.len() && #[trigger] chain[j] is Quote)
}

/// True when `chain` holds both a `Subscription` and a `Quote` entity, which
/// share the top priority and must never be resolved together.
pub fn chain_mixes_subscription_and_quote(chain: &[EntitlementEntityId]) -> (r: bool)
    ensures
        r == mixes_subscription_and_quote(chain@),
{
    let mut has_sub = false;
    let mut has_quote = false;
    let mut i: usize = 0;
    while i < chain.len()
        invariant
            i <= chain@.len(),
            has_sub == (exists|k: int| 0 <= k < i && #[trigger] chain@[k] is Subscription),
            has_quote == (exists|k: int| 0 <= k < i && #[trigger] chain@[k] is Quote),
            !(has_sub && has_quote),
        decreases chain@.len() - i,
    {
        match chain[i] {
            EntitlementEntityId::Subscription(_) => { has_sub = true; },
            EntitlementEntityId::Quote(_) => { has_quote = true; },
            _ => {},
        }
        proof {
            assert(has_sub == (exists|k: int| 0 <= k < i + 1 && #[trigger] chain@[k] is Subscription)) by {
                if has_sub {
                    if !(chain@[i as int] is Subscription) {
                        let k = choose|k: int| 0 <= k < i && #[trigger] chain@[k] is Subscription;
                        assert(0 <= k < i + 1 && chain@[k] is Subscription);
                    } else {
                        assert(chain@[i as int] is Subscription);
                    }
                }
            }
            assert(has_quote == (exists|k: int| 0 <= k < i + 1 && #[trigger] chain@[k] is Quote)) by {
                if has_quote {
                    if !(chain@[i as int] is Quote) {
                        let k = choose|k: int| 0 <= k < i && #[trigger] chain@[k] is Quote;
                        assert(0 <= k < i + 1 && chain@[k] is Quote);
                    } else {
                        assert(chain@[i as int] is Quote);
                    }
                }
            }
        }
        if has_sub && has_quote {
            return true;
        }
        i = i + 1;
    }
    false
}

// ---------------------------------------------------------------------------
// De-duplication (first occurrence wins)
// ---------------------------------------------------------------------------

/// The elements of `s` without repeats, each at its first occurrence.
pub open spec fn unique_ids(s: Seq<u128>) -> Seq<u128>
    decreases s.len(),
{
    if s.len() == 0 {
        Seq::empty()
    } else if unique_ids(s.drop_last()).contains(s.last()) {
        unique_ids(s.drop_last())
    } else {
        unique_ids(s.drop_last()).push(s.last())
    }
}

/// Appends to `out` every element of `src` that `out` does not hold yet.
pub(crate) fn extend_unique(out: &mut Vec<u128>, src: &[u128])
    ensures
        final(out)@ == unique_ids_from(old(out)@, src@),
{
    let ghost start = out@;
    let mut i: usize = 0;
    while i < src.len()
        invariant
            i <= src@.len(),
            out@ == unique_ids_from(start, src@.take(i as int)),
        decreases src@.len() - i,
    {
        let x = src[i];
        proof {
            assert(src@.take(i + 1).drop_last() =~= src@.take(i as int));
            assert(src@.take(i + 1).last() == x);
        }
        let mut found = false;
        let mut j: usize = 0;
        while j < out.len()
            invariant
                j <= out@.len(),
                found == (exists|k: int| 0 <= k < j && out@[k] == x),
            decreases out@.len() - j,
        {
            if out[j] == x {
                found = true;
            }
            j = j + 1;
        }
        proof {
            if found {
                let k = choose|k: int| 0 <= k < out@.len() && out@[k] == x;
                assert(out@.contains(x));
            } else {
                assert(!out@.contains(x));
            }
        }
        if !found {
            out.push(x);
        }
        i = i + 1;
    }
    assert(src@.take(src@.len() as int) =~= src@);
}

/// Adds the elements of `s` to `acc` without repeats, each at its first occurrence.
pub open spec fn unique_ids_from(acc: Seq<u128>, s: Seq<u128>) -> Seq<u128>
    decreases s.len(),
{
    if s.len() == 0 {
        acc
    } else if unique_ids_from(acc, s.drop_last()).contains(s.last()) {
        unique_ids_from(acc, s.drop_last())
    } else {
        unique_ids_from(acc, s.drop_last()).push(s.last())
    }
}

/// Starting from nothing, [`unique_ids_from`] is [`unique_ids`].
pub(crate) proof fn lemma_unique_from_empty(s: Seq<u128>)
    ensures
        unique_ids_from(Seq::empty(), s) == unique_ids(s),
    decreases s.len(),
{
    if s.len() > 0 {
        lemma_unique_from_empty(s.drop_last());
    }
}

/// Extending the accumulated run with `a` then `b` is extending with `a + b`.
proof fn lemma_unique_from_concat(acc: Seq<u128>, a: Seq<u128>, b: Seq<u128>)
    ensures
        unique_ids_from(unique_ids_from(acc, a), b) == unique_ids_from(acc, a + b),
    decreases b.len(),
{
    if b.len() == 0 {
        assert(a + b =~= a);
    } else {
        lemma_unique_from_concat(acc, a, b.drop_last());
        assert((a + b).drop_last() =~= a + b.drop_last());
        assert((a + b).last() == b.last());
    }
}

/// The ids of `a`, then `b`, then `c`, without repeats (first occurrence wins).
pub fn unique_product_ids(a: &[u128], b: &[u128], c: &[u128]) -> (r: Vec<u128>)
    ensures
        r@ == unique_ids(a@ + b@ + c@),
{
    let mut out: Vec<u128> = Vec::new();
    extend_unique(&mut out, a);
    extend_unique(&mut out, b);
    extend_unique(&mut out, c);
    proof {
        lemma_unique_from_concat(Seq::empty(), a@, b@);
        lemma_unique_from_concat(Seq::empty(), a@ + b@, c@);
        lemma_unique_from_empty(a@ + b@ + c@);
    }
    out
}

// ---------------------------------------------------------------------------
// Resolution scopes
// ---------------------------------------------------------------------------

/// The entities that can own entitlements at a target, the products whose
/// features are in scope, and whether tenant-global features apply too.
pub struct ResolutionScope {
    pub chain: Vec<EntitlementEntityId>,
    pub product_ids: Vec<u128>,
    pub include_globals: bool,
}

/// A product target: only the product's own features, no chain, no globals.
pub fn product_scope(product_id: u128) -> (s: ResolutionScope)
    ensures
        s.chain@.len() == 0,
        s.product_ids@ == seq![product_id],
        !s.include_globals,
{
    let mut product_ids = Vec::new();
    product_ids.push(product_id);
    ResolutionScope { chain: build_chain_for_product(product_id), product_ids, include_globals: false }
}

/// An add-on target: the add-on's product features, chain `[AddOn]`, no globals.
pub fn addon_scope(addon_id: u128, addon_product_id: u128) -> (s: ResolutionScope)
    ensures
        s.chain@ == seq![EntitlementEntityId::AddOn(addon_id)],
        s.product_ids@ == seq![addon_product_id],
        !s.include_globals,
{
    let mut product_ids = Vec::new();
    product_ids.push(addon_product_id);
    ResolutionScope { chain: build_chain_for_addon(addon_id), product_ids, include_globals: false }
}

/// A plan-version target: globals plus the price-component products, chain
/// `[Plan, PlanVersion]` (add-ons compose at subscription or quote level).
pub fn plan_version_scope(plan_id: u128, plan_version_id: u128, component_product_ids: Vec<u128>) -> (s: ResolutionScope)
    ensures
        s.chain@ == seq![EntitlementEntityId::Plan(plan_id), EntitlementEntityId::PlanVersion(plan_version_id)],
        s.product_ids@ == component_product_ids@,
        s.include_globals,
{
    let mut chain = Vec::new();
    chain.push(EntitlementEntityId::Plan(plan_id));
    chain.push(EntitlementEntityId::PlanVersion(plan_version_id));
    ResolutionScope { chain, product_ids: component_product_ids, include_globals: true }
}

/// A subscription target: globals plus component and active add-on products,
/// chain `[Plan, PlanVersion, AddOn…, Subscription]`.
pub fn subscription_scope(
    plan_id: u128,
    plan_version_id: u128,
    subscription_id: u128,
    add_on_ids: &[u128],
    component_product_ids: &[u128],
    add_on_product_ids: &[u128],
) -> (s: ResolutionScope)
    ensures
        s.chain@ == seq![EntitlementEntityId::Plan(plan_id), EntitlementEntityId::PlanVersion(plan_version_id)]
            + add_on_entities(add_on_ids@) + seq![EntitlementEntityId::Subscription(subscription_id)],
        s.product_ids@ == unique_ids(component_product_ids@ + add_on_product_ids@ + Seq::<u128>::empty()),
        s.include_globals,
{
    let none: Vec<u128> = Vec::new();
    ResolutionScope {
        chain: subscription_chain(plan_id, plan_version_id, add_on_ids, subscription_id),
        product_ids: unique_product_ids(component_product_ids, add_on_product_ids, none.as_slice()),
        include_globals: true,
    }
}

/// A quote target: globals plus component and add-on products, chain
/// `[Plan, PlanVersion, AddOn…, Quote]`.
pub fn quote_scope(
    plan_id: u128,
    plan_version_id: u128,
    quote_id: u128,
    add_on_ids: &[u128],
    component_product_ids: &[u128],
    add_on_product_ids: &[u128],
) -> (s: ResolutionScope)
    ensures
        s.chain@ == seq![EntitlementEntityId::Plan(plan_id), EntitlementEntityId::PlanVersion(plan_version_id)]
            + add_on_entities(add_on_ids@) + seq![EntitlementEntityId::Quote(quote_id)],
        s.product_ids@ == unique_ids(component_product_ids@ + add_on_product_ids@ + Seq::<u128>::empty()),
        s.include_globals,
{
    let none: Vec<u128> = Vec::new();
    ResolutionScope {
        chain: quote_chain(plan_id, plan_version_id, add_on_ids, quote_id),
        product_ids: unique_product_ids(component_product_ids, add_on_product_ids, none.as_slice()),
        include_globals: true,
    }
}

/// An in-flight selection: the plan-version chain with the selected add-ons,
/// globals plus the plan version's, the add-ons' and any extra products.
pub fn selection_scope(
    plan_id: u128,
    plan_version_id: u128,
    add_on_ids: &[u128],
    plan_version_product_ids: &[u128],
    add_on_product_ids: &[u128],
    extra_product_ids: &[u128],
) -> (s: ResolutionScope)
    ensures
        s.chain@ == seq![EntitlementEntityId::Plan(plan_id), EntitlementEntityId::PlanVersion(plan_version_id)]
            + add_on_entities(add_on_ids@),
        s.product_ids@ == unique_ids(plan_version_product_ids@ + add_on_product_ids@ + extra_product_ids@),
        s.include_globals,
{
    ResolutionScope {
        chain: plan_version_chain(plan_id, plan_version_id, add_on_ids),
        product_ids: unique_product_ids(plan_version_product_ids, add_on_product_ids, extra_product_ids),
        include_globals: true,
    }
}


/// Each id wrapped with the given entity constructor, for the customer-wide chain.
pub open spec fn plan_entities(ids: Seq<u128>) -> Seq<EntitlementEntityId> {
    ids.map_values(|id: u128| EntitlementEntityId::Plan(id))
}

/// Each id wrapped as a plan-version entity.
pub open spec fn plan_version_entities(ids: Seq<u128>) -> Seq<EntitlementEntityId> {
    ids.map_values(|id: u128| EntitlementEntityId::PlanVersion(id))
}

/// Each id wrapped as a subscription entity.
pub open spec fn subscription_entities(ids: Seq<u128>) -> Seq<EntitlementEntityId> {
    ids.map_values(|id: u128| EntitlementEntityId::Subscription(id))
}

/// The kind of entity a run of ids is wrapped as.
#[derive(Clone, Copy)]
enum Layer {
    Plan,
    PlanVersion,
    AddOn,
    Subscription,
}

/// The ids of `ids` wrapped as entities of `layer`.
spec fn layer_entities(layer: Layer, ids: Seq<u128>) -> Seq<EntitlementEntityId> {
    match layer {
        Layer::Plan => plan_entities(ids),
        Layer::PlanVersion => plan_version_entities(ids),
        Layer::AddOn => add_on_entities(ids),
        Layer::Subscription => subscription_entities(ids),
    }
}

/// Appends `ids`, each wrapped as an entity of `layer`.
fn push_entities(chain: &mut Vec<EntitlementEntityId>, ids: &[u128], layer: Layer)
    ensures
        final(chain)@ == old(chain)@ + layer_entities(layer, ids@),
{
    let ghost start = chain@;
    let ghost wrapped = layer_entities(layer, ids@);
    let mut i: usize = 0;
    while i < ids.len()
        invariant
            i <= ids@.len(),
            wrapped.len() == ids@.len(),
            wrapped == layer_entities(layer, ids@),
            chain@ == start + wrapped.take(i as int),
        decreases ids@.len() - i,
    {
        let id = ids[i];
        let e = match layer {
            Layer::Plan => EntitlementEntityId::Plan(id),
            Layer::PlanVersion => EntitlementEntityId::PlanVersion(id),
            Layer::AddOn => EntitlementEntityId::AddOn(id),
            Layer::Subscription => EntitlementEntityId::Subscription(id),
        };
        assert(wrapped[i as int] == e);
        chain.push(e);
        assert(wrapped.take(i + 1) =~= wrapped.take(i as int).push(e));
        i = i + 1;
    }
    assert(wrapped.take(ids@.len() as int) =~= wrapped);
}

/// The chain for a customer's active subscriptions: every plan, then every plan
/// version, then every active add-on, then every subscription.
pub fn customer_chain(plan_ids: &[u128], plan_version_ids: &[u128], add_on_ids: &[u128], subscription_ids: &[u128]) -> (chain: Vec<EntitlementEntityId>)
    ensures
        chain@ == plan_entities(plan_ids@) + plan_version_entities(plan_version_ids@)
            + add_on_entities(add_on_ids@) + subscription_entities(subscription_ids@),
{
    let mut chain: Vec<EntitlementEntityId> = Vec::new();
    push_entities(&mut chain, plan_ids, Layer::Plan);
    push_entities(&mut chain, plan_version_ids, Layer::PlanVersion);
    push_entities(&mut chain, add_on_ids, Layer::AddOn);
    push_entities(&mut chain, subscription_ids, Layer::Subscription);
    assert(chain@ =~= plan_entities(plan_ids@) + plan_version_entities(plan_version_ids@)
        + add_on_entities(add_on_ids@) + subscription_entities(subscription_ids@));
    chain
}

/// An add-on stacks per instance when it may be bought more than once
/// (`None` means no limit).
pub open spec fn multi_instance(max_instances_per_subscription: Option<i32>) -> bool {
    match max_instances_per_subscription {
        None => true,
        Some(n) => n > 1,
    }
}

/// Whether an add-on with this instance limit is multi-instance.
pub fn is_addon_multi_instance(max_instances_per_subscription: Option<i32>) -> (r: bool)
    ensures
        r == multi_instance(max_instances_per_subscription),
{
    match max_instances_per_subscription {
        None => true,
        Some(n) => n > 1,
    }
}

/// The mode stored with a new entitlement: `Stack` for multi-instance add-ons,
/// `Override` for everything else.
pub fn mode_for_entity(entity: &EntitlementEntityId, add_on_is_multi_instance: bool) -> (m: EntitlementMode)
    ensures
        m == (if entity is AddOn && add_on_is_multi_instance { EntitlementMode::Stack } else { EntitlementMode::Override }),
{
    match entity {
        EntitlementEntityId::AddOn(_) => if add_on_is_multi_instance { EntitlementMode::Stack } else { EntitlementMode::Override },
        _ => EntitlementMode::Override,
    }
}

/// The ids of the add-ons whose instance limit makes them multi-instance, in order.
pub open spec fn multi_instance_ids(rows: Seq<(u128, Option<i32>)>) -> Seq<u128>
    decreases rows.len(),
{
    if rows.len() == 0 {
        Seq::empty()
    } else if multi_instance(rows.last().1) {
        multi_instance_ids(rows.drop_last()).push(rows.last().0)
    } else {
        multi_instance_ids(rows.drop_last())
    }
}

/// Keeps the add-ons (id, instance limit) that are multi-instance.
pub fn load_multi_instance_addons(add_ons: &[(u128, Option<i32>)]) -> (r: Vec<u128>)
    ensures
        r@ == multi_instance_ids(add_ons@),
{
    let mut out: Vec<u128> = Vec::new();
    let mut i: usize = 0;
    while i < add_ons.len()
        invariant
            i <= add_ons@.len(),
            out@ == multi_instance_ids(add_ons@.take(i as int)),
        decreases add_ons@.len() - i,
    {
        proof {
            assert(add_ons@.take(i + 1).drop_last() =~= add_ons@.take(i as int));
            assert(add_ons@.take(i + 1).last() == add_ons@[i as int]);
        }
        let (id, max) = add_ons[i];
        if is_addon_multi_instance(max) {
            out.push(id);
        }
        i = i + 1;
    }
    assert(add_ons@.take(add_ons@.len() as int) =~= add_ons@);
    out
}

/// The ids of the add-on entities of a chain, in order.
pub open spec fn chain_add_on_ids(chain: Seq<EntitlementEntityId>) -> Seq<u128>
    decreases chain.len(),
{
    if chain.len() == 0 {
        Seq::empty()
    } else {
        match chain.last() {
            EntitlementEntityId::AddOn(id) => chain_add_on_ids(chain.drop_last()).push(id),
            _ => chain_add_on_ids(chain.drop_last()),
        }
    }
}

/// The add-on ids named in a chain; their instance limits decide which
/// grants add up at resolution.
pub fn add_on_ids_of_chain(chain: &[EntitlementEntityId]) -> (r: Vec<u128>)
    ensures
        r@ == chain_add_on_ids(chain@),
{
    let mut out: Vec<u128> = Vec::new();
    let mut i: usize = 0;
    while i < chain.len()
        invariant
            i <= chain@.len(),
            out@ == chain_add_on_ids(chain@.take(i as int)),
        decreases chain@.len() - i,
    {
        proof {
            assert(chain@.take(i + 1).drop_last() =~= chain@.take(i as int));
            assert(chain@.take(i + 1).last() == chain@[i as int]);
        }
        match chain[i] {
            EntitlementEntityId::AddOn(id) => { out.push(id); },
            _ => {},
        }
        i = i + 1;
    }
    assert(chain@.take(chain@.len() as int) =~= chain@);
    out
}

/// An entitlement stays in play when its feature is in scope and, if a single
/// feature was asked for, it is that feature.
pub open spec fn in_play(e: Entitlement, scoped: Seq<u128>, only: Option<u128>) -> bool {
    scoped.contains(e.feature_id) && match only { Some(fid) => e.feature_id == fid, None => true }
}

/// The entitlements of `s` in play, in order.
pub open spec fn entitlements_in_play(s: Seq<Entitlement>, scoped: Seq<u128>, only: Option<u128>) -> Seq<Entitlement>
    decreases s.len(),
{
    if s.len() == 0 {
        Seq::empty()
    } else if in_play(s.last(), scoped, only) {
        entitlements_in_play(s.drop_last(), scoped, only).push(s.last())
    } else {
        entitlements_in_play(s.drop_last(), scoped, only)
    }
}

/// Drops the entitlements whose feature is outside the product scope or is not
/// the one feature asked for.
pub fn scoped_entitlements(all: Vec<Entitlement>, scoped_feature_ids: &Vec<u128>, filter_feature_id: Option<u128>) -> (r: Vec<Entitlement>)
    ensures
        r@ == entitlements_in_play(all@, scoped_feature_ids@, filter_feature_id),
{
    let mut out: Vec<Entitlement> = Vec::new();
    let mut i: usize = 0;
    while i < all.len()
        invariant
            i <= all@.len(),
            out@ == entitlements_in_play(all@.take(i as int), scoped_feature_ids@, filter_feature_id),
        decreases all@.len() - i,
    {
        let e = all[i];
        proof {
            assert(all@.take(i + 1).drop_last() =~= all@.take(i as int));
            assert(all@.take(i + 1).last() == e);
        }
        let mut scoped = false;
        let mut j: usize = 0;
        while j < scoped_feature_ids.len()
            invariant
                j <= scoped_feature_ids@.len(),
                scoped == (exists|k: int| 0 <= k < j && scoped_feature_ids@[k] == e.feature_id),
            decreases scoped_feature_ids@.len() - j,
        {
            if scoped_feature_ids[j] == e.feature_id {
                scoped = true;
            }
            j = j + 1;
        }
        proof {
            if scoped {
                let k = choose|k: int| 0 <= k < scoped_feature_ids@.len() && scoped_feature_ids@[k] == e.feature_id;
                assert(scoped_feature_ids@.contains(e.feature_id));
            }
        }
        let wanted = match filter_feature_id {
            Some(fid) => e.feature_id == fid,
            None => true,
        };
        if scoped && wanted {
            out.push(e);
        }
        i = i + 1;
    }
    assert(all@.take(all@.len() as int) =~= all@);
    out
}

/// The features of `s` that stay in play: all of them, or only those with the
/// id asked for.
pub open spec fn features_in_play(s: Seq<Feature>, only: Option<u128>) -> Seq<Feature>
    decreases s.len(),
{
    if s.len() == 0 {
        Seq::empty()
    } else if (match only { Some(fid) => s.last().id == fid, None => true }) {
        features_in_play(s.drop_last(), only).push(s.last())
    } else {
        features_in_play(s.drop_last(), only)
    }
}

/// Narrows the scoped features to the one asked for, if any.
pub fn select_features(features: Vec<Feature>, filter_feature_id: Option<u128>) -> (r: Vec<Feature>)
    ensures
        r@ == features_in_play(features@, filter_feature_id),
{
    let mut out: Vec<Feature> = Vec::new();
    let mut i: usize = 0;
    while i < features.len()
        invariant
            i <= features@.len(),
            out@ == features_in_play(features@.take(i as int), filter_feature_id),
        decreases features@.len() - i,
    {
        let f = &features[i];
        proof {
            assert(features@.take(i + 1).drop_last() =~= features@.take(i as int));
            assert(features@.take(i + 1).last() == *f);
        }
        let wanted = match filter_feature_id {
            Some(fid) => f.id == fid,
            None => true,
        };
        if wanted {
            out.push(copy_feature(f));
        }
        i = i + 1;
    }
    assert(features@.take(features@.len() as int) =~= features@);
    out
}

} // verus!
