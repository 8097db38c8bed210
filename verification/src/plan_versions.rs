//! Plan versions: which pointer of the plan a new version fills, and how the
//! price links of a version carry over to its draft copy.
use vstd::prelude::*;

verus! {

/// The changes to a plan's version pointers: `None` leaves a pointer as it
/// is, `Some(v)` sets it to `v`.
#[derive(Debug, Clone, Copy, PartialEq, Eq)]
pub struct VersionPointers {
    pub active_version_id: Option<Option<u128>>,
    pub draft_version_id: Option<Option<u128>>,
}

/// The pointer a freshly inserted plan version fills: the draft pointer for
/// a draft version, the active pointer otherwise; the other one is kept.
pub fn version_pointers(is_draft_version: bool, version_id: u128) -> (p: VersionPointers)
    ensures
        is_draft_version ==> p == (VersionPointers { active_version_id: None, draft_version_id: Some(Some(version_id)) }),
        !is_draft_version ==> p == (VersionPointers { active_version_id: Some(Some(version_id)), draft_version_id: None }),
{
    if is_draft_version {
        VersionPointers { active_version_id: None, draft_version_id: Some(Some(version_id)) }
    } else {
        VersionPointers { active_version_id: Some(Some(version_id)), draft_version_id: None }
    }
}

/// A price component of a plan version, as the copy matches it.
#[derive(Debug)]
pub struct ComponentKey {
    pub id: u128,
    pub name: String,
    pub product_id: Option<u128>,
}

/// A link between a price component and a price.
#[derive(Debug, Clone, Copy, PartialEq, Eq)]
pub struct ComponentPrice {
    pub plan_component_id: u128,
    pub price_id: u128,
}

/// The first component with the id `id`.
pub open spec fn component_by_id(components: Seq<ComponentKey>, id: u128) -> Option<ComponentKey>
    decreases components.len(),
{
    if components.len() == 0 {
        None
    } else if components[0].id == id {
        Some(components[0])
    } else {
        component_by_id(components.drop_first(), id)
    }
}

/// The id of the component named `name` with product `product_id`, read as
/// a map filled in order: the last such component wins.
pub open spec fn component_by_key(components: Seq<ComponentKey>, name: Seq<char>, product_id: Option<u128>) -> Option<u128>
    decreases components.len(),
{
    if components.len() == 0 {
        None
    } else if components.last().name@ == name && components.last().product_id == product_id {
        Some(components.last().id)
    } else {
        component_by_key(components.drop_last(), name, product_id)
    }
}

/// What one price link of the source version becomes in the copy: the link
/// from the copied component with the same name and product to the same
/// price, or nothing when either component is not found.
pub open spec fn remapped_link(src: Seq<ComponentKey>, dst: Seq<ComponentKey>, link: ComponentPrice) -> Seq<ComponentPrice> {
    match component_by_id(src, link.plan_component_id) {
        Some(c) => match component_by_key(dst, c.name@, c.product_id) {
            Some(d) => seq![ComponentPrice { plan_component_id: d, price_id: link.price_id }],
            None => seq![],
        },
        None => seq![],
    }
}

/// The price links of the copy, in the order of the source links.
pub open spec fn remapped_links(src: Seq<ComponentKey>, dst: Seq<ComponentKey>, links: Seq<ComponentPrice>) -> Seq<ComponentPrice>
    decreases links.len(),
{
    if links.len() == 0 {
        seq![]
    } else {
        remapped_links(src, dst, links.drop_last()) + remapped_link(src, dst, links.last())
    }
}

fn same_product(a: Option<u128>, b: Option<u128>) -> (r: bool)
    ensures
        r == (a == b),
{
    match (a, b) {
        (Some(x), Some(y)) => x == y,
        (None, None) => true,
        _ => false,
    }
}

fn find_component_by_id(components: &Vec<ComponentKey>, id: u128) -> (r: Option<usize>)
    ensures
        match r {
            Some(k) => k < components@.len() && component_by_id(components@, id) == Some(components@[k as int]),
            None => component_by_id(components@, id) is None,
        },
{
    let mut k: usize = 0;
    assert(components@.skip(0) =~= components@);
    while k < components.len()
        invariant
            k <= components@.len(),
            component_by_id(components@, id) == component_by_id(components@.skip(k as int), id),
        decreases components@.len() - k,
    {
        proof {
            assert(components@.skip(k as int).drop_first() =~= components@.skip(k + 1));
            assert(components@.skip(k as int)[0] == components@[k as int]);
        }
        if components[k].id == id {
            return Some(k);
        }
        k = k + 1;
    }
    None
}

fn find_component_by_key(components: &Vec<ComponentKey>, name: &String, product_id: Option<u128>) -> (r: Option<u128>)
    ensures
        r == component_by_key(components@, name@, product_id),
{
    let mut k: usize = components.len();
    assert(components@.take(k as int) =~= components@);
    while k > 0
        invariant
            k <= components@.len(),
            component_by_key(components@, name@, product_id) == component_by_key(components@.take(k as int), name@, product_id),
        decreases k,
    {
        proof {
            assert(components@.take(k as int).drop_last() =~= components@.take(k - 1));
            assert(components@.take(k as int).last() == components@[k - 1]);
        }
        if components[k - 1].name == *name && same_product(components[k - 1].product_id, product_id) {
            return Some(components[k - 1].id);
        }
        k = k - 1;
    }
    None
}

/// Carries the price links of a plan version over to its copy: each link's
/// component is looked up among the source components by id, and the copy's
/// component with the same name and product takes the link; links whose
/// components are not found are dropped.
pub fn remap_component_prices(src: &Vec<ComponentKey>, dst: &Vec<ComponentKey>, links: &Vec<ComponentPrice>) -> (r: Vec<ComponentPrice>)
    ensures
        r@ == remapped_links(src@, dst@, links@),
        forall|k: int| 0 <= k < r@.len() ==> exists|i: int| #![trigger links@[i]] 0 <= i < links@.len()
            && (#[trigger] r@[k]).price_id == links@[i].price_id
            && carries_over(src@, dst@, links@[i].plan_component_id, r@[k].plan_component_id),
{
    let mut out: Vec<ComponentPrice> = Vec::new();
    let mut i: usize = 0;
    while i < links.len()
        invariant
            i <= links@.len(),
            out@ == remapped_links(src@, dst@, links@.take(i as int)),
        decreases links@.len() - i,
    {
        let link = links[i];
        proof {
            assert(links@.take(i + 1).drop_last() =~= links@.take(i as int));
            assert(links@.take(i + 1).last() == link);
        }
        match find_component_by_id(src, link.plan_component_id) {
            Some(k) => {
                match find_component_by_key(dst, &src[k].name, src[k].product_id) {
                    Some(d) => {
                        out.push(ComponentPrice { plan_component_id: d, price_id: link.price_id });
                    },
                    None => {},
                }
            },
            None => {},
        }
        proof {
            let prev = remapped_links(src@, dst@, links@.take(i as int));
            assert(out@ =~= prev + remapped_link(src@, dst@, link));
        }
        i = i + 1;
    }
    assert(links@.take(i as int) =~= links@);
    proof {
        assert forall|k: int| 0 <= k < out@.len() implies exists|i: int| #![trigger links@[i]] 0 <= i < links@.len()
            && (#[trigger] out@[k]).price_id == links@[i].price_id
            && carries_over(src@, dst@, links@[i].plan_component_id, out@[k].plan_component_id) by {
            law_remapped_links_keep_components(src@, dst@, links@, k);
        }
    }
    out
}

/// The prices linked to component `c`, in link order, keeping only the
/// prices that were found.
pub open spec fn linked_prices(links: Seq<ComponentPrice>, found: Seq<u128>, c: u128) -> Seq<u128>
    decreases links.len(),
{
    if links.len() == 0 {
        Seq::empty()
    } else if links.last().plan_component_id == c && found.contains(links.last().price_id) {
        linked_prices(links.drop_last(), found, c).push(links.last().price_id)
    } else {
        linked_prices(links.drop_last(), found, c)
    }
}

/// No component before index `i` has the id of the one at `i`.
pub open spec fn first_with_id(components: Seq<ComponentKey>, i: int) -> bool {
    forall|j: int| 0 <= j < i ==> (#[trigger] components[j]).id != components[i].id
}

/// Whether `x` occurs in `v`.
fn contains_id(v: &Vec<u128>, x: u128) -> (b: bool)
    ensures
        b == v@.contains(x),
{
    let mut i: usize = 0;
    while i < v.len()
        invariant
            i <= v@.len(),
            forall|j: int| 0 <= j < i ==> v@[j] != x,
        decreases v@.len() - i,
    {
        if v[i] == x {
            return true;
        }
        i = i + 1;
    }
    false
}

/// The found prices linked to component `c`.
fn prices_of(links: &Vec<ComponentPrice>, found: &Vec<u128>, c: u128) -> (r: Vec<u128>)
    ensures
        r@ == linked_prices(links@, found@, c),
{
    let mut r: Vec<u128> = Vec::new();
    let mut i: usize = 0;
    while i < links.len()
        invariant
            i <= links@.len(),
            r@ == linked_prices(links@.take(i as int), found@, c),
        decreases links@.len() - i,
    {
        let l = links[i];
        proof {
            let t = links@.take(i as int + 1);
            assert(t.drop_last() =~= links@.take(i as int));
            assert(t.last() == l);
        }
        if l.plan_component_id == c && contains_id(found, l.price_id) {
            r.push(l.price_id);
        }
        i = i + 1;
    }
    proof {
        assert(links@.take(links@.len() as int) =~= links@);
    }
    r
}

/// The prices each component of a plan version carries: the found prices
/// linked to it, in link order. A component repeating an earlier one's id
/// gets none (the earlier one took them).
pub fn attach_prices(components: &Vec<ComponentKey>, links: &Vec<ComponentPrice>, found: &Vec<u128>) -> (r: Vec<Vec<u128>>)
    ensures
        r@.len() == components@.len(),
        forall|i: int| 0 <= i < components@.len() ==> (#[trigger] r@[i])@ == if first_with_id(components@, i) {
            linked_prices(links@, found@, components@[i].id)
        } else {
            Seq::<u128>::empty()
        },
{
    let mut r: Vec<Vec<u128>> = Vec::new();
    let mut i: usize = 0;
    while i < components.len()
        invariant
            i <= components@.len(),
            r@.len() == i,
            forall|k: int| 0 <= k < i ==> (#[trigger] r@[k])@ == if first_with_id(components@, k) {
                linked_prices(links@, found@, components@[k].id)
            } else {
                Seq::<u128>::empty()
            },
        decreases components@.len() - i,
    {
        let id = components[i].id;
        let mut seen = false;
        let mut j: usize = 0;
        while j < i
            invariant
                j <= i < components@.len(),
                id == components@[i as int].id,
                seen <==> exists|k: int| 0 <= k < j && (#[trigger] components@[k]).id == id,
            decreases i - j,
        {
            if components[j].id == id {
                seen = true;
            }
            j = j + 1;
        }
        if seen {
            r.push(Vec::new());
        } else {
            r.push(prices_of(links, found, id));
        }
        i = i + 1;
    }
    r
}

/// The components priced the legacy way: those with no found price linked
/// to their id and no product, in order.
pub open spec fn legacy_ids(components: Seq<ComponentKey>, links: Seq<ComponentPrice>, found: Seq<u128>) -> Seq<u128>
    decreases components.len(),
{
    if components.len() == 0 {
        Seq::empty()
    } else {
        let c = components.last();
        if linked_prices(links, found, c.id).len() == 0 && c.product_id is None {
            legacy_ids(components.drop_last(), links, found).push(c.id)
        } else {
            legacy_ids(components.drop_last(), links, found)
        }
    }
}

/// The ids of the components whose legacy fee must be read.
pub fn legacy_component_ids(components: &Vec<ComponentKey>, links: &Vec<ComponentPrice>, found: &Vec<u128>) -> (r: Vec<u128>)
    ensures
        r@ == legacy_ids(components@, links@, found@),
{
    let mut r: Vec<u128> = Vec::new();
    let mut i: usize = 0;
    while i < components.len()
        invariant
            i <= components@.len(),
            r@ == legacy_ids(components@.take(i as int), links@, found@),
        decreases components@.len() - i,
    {
        proof {
            let t = components@.take(i as int + 1);
            assert(t.drop_last() =~= components@.take(i as int));
            assert(t.last() == components@[i as int]);
        }
        let prices = prices_of(links, found, components[i].id);
        if prices.len() == 0 && components[i].product_id.is_none() {
            r.push(components[i].id);
        }
        i = i + 1;
    }
    proof {
        assert(components@.take(components@.len() as int) =~= components@);
    }
    r
}

/// The settings of a plan version that a draft copy carries over.
#[derive(Debug, PartialEq, Eq)]
pub struct PlanVersionSettings {
    pub plan_id: u128,
    pub version: i32,
    pub trial_duration_days: Option<i32>,
    pub trialing_plan_id: Option<u128>,
    pub trial_is_free: bool,
    pub period_start_day: Option<i16>,
    pub net_terms: i32,
    pub currency: String,
    pub billing_cycles: Option<i32>,
    pub uses_product_pricing: bool,
}

/// A plan version to insert.
#[derive(Debug, PartialEq, Eq)]
pub struct NewPlanVersion {
    pub id: u128,
    pub is_draft_version: bool,
    pub settings: PlanVersionSettings,
    pub created_by: u128,
}

/// The draft copy of `source` with id `new_id`: the next version number of
/// the same plan, marked as a draft, priced through products, created by
/// `created_by`, with the source's trial, billing and currency settings.
pub fn draft_copy(source: &PlanVersionSettings, new_id: u128, created_by: u128) -> (v: NewPlanVersion)
    requires
        source.version < i32::MAX,
    ensures
        v.id == new_id,
        v.is_draft_version,
        v.created_by == created_by,
        v.settings == (PlanVersionSettings {
            version: (source.version + 1) as i32,
            uses_product_pricing: true,
            ..*source
        }),
{
    NewPlanVersion {
        id: new_id,
        is_draft_version: true,
        settings: PlanVersionSettings {
            plan_id: source.plan_id,
            version: source.version + 1,
            trial_duration_days: source.trial_duration_days,
            trialing_plan_id: source.trialing_plan_id,
            trial_is_free: source.trial_is_free,
            period_start_day: source.period_start_day,
            net_terms: source.net_terms,
            currency: source.currency.clone(),
            billing_cycles: source.billing_cycles,
            uses_product_pricing: true,
        },
        created_by,
    }
}

/// Before a draft copy is made, the plan's draft pointer is cleared (so that
/// older drafts can be removed) and its active pointer left as it is.
pub fn clear_draft_pointer() -> (p: VersionPointers)
    ensures
        p == (VersionPointers { active_version_id: None, draft_version_id: Some(None) }),
{
    VersionPointers { active_version_id: None, draft_version_id: Some(None) }
}

/// Component `b` of the copy carries over component `a` of the source: `a`
/// is a source component, `b` a copied one, and they have the same name and
/// the same product.
pub open spec fn carries_over(src: Seq<ComponentKey>, dst: Seq<ComponentKey>, a: u128, b: u128) -> bool {
    exists|s: int, t: int|
        #![trigger src[s], dst[t]]
        0 <= s < src.len() && 0 <= t < dst.len() && src[s].id == a && dst[t].id == b
            && dst[t].name@ == src[s].name@ && dst[t].product_id == src[s].product_id
}

/// A component found by name and product has that name and product.
proof fn lemma_found_by_key(components: Seq<ComponentKey>, name: Seq<char>, product_id: Option<u128>)
    requires
        component_by_key(components, name, product_id) is Some,
    ensures
        exists|t: int| #![trigger components[t]] 0 <= t < components.len()
            && components[t].id == component_by_key(components, name, product_id)->0
            && components[t].name@ == name && components[t].product_id == product_id,
    decreases components.len(),
{
    let last = components.len() - 1;
    if components.last().name@ == name && components.last().product_id == product_id {
        assert(components[last] == components.last());
    } else {
        let d = components.drop_last();
        lemma_found_by_key(d, name, product_id);
        let t = choose|t: int| #![trigger d[t]] 0 <= t < d.len() && d[t].id == component_by_key(d, name, product_id)->0
            && d[t].name@ == name && d[t].product_id == product_id;
        assert(components[t] == d[t]);
    }
}

/// A component found by id is one of the components, with that id.
proof fn lemma_found_by_id(components: Seq<ComponentKey>, id: u128)
    requires
        component_by_id(components, id) is Some,
    ensures
        exists|s: int| #![trigger components[s]] 0 <= s < components.len()
            && components[s] == component_by_id(components, id)->0 && components[s].id == id,
    decreases components.len(),
{
    if components[0].id != id {
        let d = components.drop_first();
        lemma_found_by_id(d, id);
        let s = choose|s: int| #![trigger d[s]] 0 <= s < d.len() && d[s] == component_by_id(d, id)->0 && d[s].id == id;
        assert(components[s + 1] == d[s]);
    }
}

/// A price link carried over to the copy keeps its price and moves to a
/// copied component with the same name and product as its source component:
/// a link never moves to a component of another product or name.
pub proof fn law_remapped_link_keeps_component(src: Seq<ComponentKey>, dst: Seq<ComponentKey>, link: ComponentPrice)
    ensures
        remapped_link(src, dst, link).len() <= 1,
        remapped_link(src, dst, link).len() == 1 ==> ({
            let p = remapped_link(src, dst, link)[0];
            p.price_id == link.price_id && carries_over(src, dst, link.plan_component_id, p.plan_component_id)
        }),
{
    if remapped_link(src, dst, link).len() == 1 {
        let c = component_by_id(src, link.plan_component_id)->0;
        lemma_found_by_id(src, link.plan_component_id);
        lemma_found_by_key(dst, c.name@, c.product_id);
        let s = choose|s: int| #![trigger src[s]] 0 <= s < src.len() && src[s] == c && src[s].id == link.plan_component_id;
        let b = component_by_key(dst, c.name@, c.product_id)->0;
        let t = choose|t: int| #![trigger dst[t]] 0 <= t < dst.len() && dst[t].id == b && dst[t].name@ == c.name@
            && dst[t].product_id == c.product_id;
        assert(src[s].id == link.plan_component_id && dst[t].id == b);
    }
}

/// Every link of the copy keeps the price of a source link and sits on a
/// copied component with the same name and product as that link's
/// component.
pub proof fn law_remapped_links_keep_components(src: Seq<ComponentKey>, dst: Seq<ComponentKey>, links: Seq<ComponentPrice>, k: int)
    requires
        0 <= k < remapped_links(src, dst, links).len(),
    ensures
        exists|i: int| #![trigger links[i]] 0 <= i < links.len() && remapped_links(src, dst, links)[k].price_id == links[i].price_id
            && carries_over(src, dst, links[i].plan_component_id, remapped_links(src, dst, links)[k].plan_component_id),
    decreases links.len(),
{
    let d = links.drop_last();
    let last = links.len() - 1;
    law_remapped_link_keeps_component(src, dst, links[last]);
    assert(links.last() == links[last]);
    let prev = remapped_links(src, dst, d);
    if k < prev.len() {
        law_remapped_links_keep_components(src, dst, d, k);
        let i = choose|i: int| #![trigger d[i]] 0 <= i < d.len() && prev[k].price_id == d[i].price_id
            && carries_over(src, dst, d[i].plan_component_id, prev[k].plan_component_id);
        assert(remapped_links(src, dst, links)[k] == prev[k]);
        assert(links[i] == d[i]);
    } else {
        assert(remapped_links(src, dst, links)[k] == remapped_link(src, dst, links[last])[0]);
        assert(links[last] == links[last]);
    }
}

/// A component that has the name and product looked for is found.
proof fn lemma_key_present(components: Seq<ComponentKey>, name: Seq<char>, product_id: Option<u128>, t: int)
    requires
        0 <= t < components.len(),
        components[t].name@ == name,
        components[t].product_id == product_id,
    ensures
        component_by_key(components, name, product_id) is Some,
    decreases components.len(),
{
    if t < components.len() - 1 {
        let d = components.drop_last();
        assert(d[t] == components[t]);
        if !(components.last().name@ == name && components.last().product_id == product_id) {
            lemma_key_present(d, name, product_id, t);
        }
    }
}

/// A price link whose component is among the source components is carried
/// over whenever the copy has a component with that component's name and
/// product.
pub proof fn law_matching_link_is_carried_over(src: Seq<ComponentKey>, dst: Seq<ComponentKey>, link: ComponentPrice, s: int, t: int)
    requires
        0 <= s < src.len(),
        src[s].id == link.plan_component_id,
        0 <= t < dst.len(),
        dst[t].name@ == component_by_id(src, link.plan_component_id)->0.name@,
        dst[t].product_id == component_by_id(src, link.plan_component_id)->0.product_id,
    ensures
        remapped_link(src, dst, link).len() == 1,
        remapped_link(src, dst, link)[0].price_id == link.price_id,
{
    lemma_id_present(src, link.plan_component_id, s);
    let c = component_by_id(src, link.plan_component_id)->0;
    lemma_key_present(dst, c.name@, c.product_id, t);
}

/// A component with the id looked for is found.
proof fn lemma_id_present(components: Seq<ComponentKey>, id: u128, s: int)
    requires
        0 <= s < components.len(),
        components[s].id == id,
    ensures
        component_by_id(components, id) is Some,
    decreases components.len(),
{
    if s > 0 && components[0].id != id {
        let d = components.drop_first();
        assert(d[s - 1] == components[s]);
        lemma_id_present(d, id, s - 1);
    }
}

} // verus!
