//! The highest priority decides: what the resolution of a feature is when a
//! single grant outranks all others.
use vstd::prelude::*;
use crate::entitlement_values::priority_of;
use crate::entitlement_resolution::{
    entitlements_of, fold_entitlements, insert_sorted, key_lt, resolve_feature, resolved_value, sort_entitlements,
    Entitlement, Feature, FeatureRef, RawResolvedEntitlement,
};
use crate::entitlement_laws::law_higher_priority_replaces;

verus! {

/// How many elements of `s` satisfy `p`.
pub open spec fn count_where(s: Seq<Entitlement>, p: spec_fn(Entitlement) -> bool) -> nat
    decreases s.len(),
{
    if s.len() == 0 {
        0
    } else {
        count_where(s.drop_last(), p) + if p(s.last()) { 1nat } else { 0nat }
    }
}

/// No element of `s` comes after one with a greater (priority, created_at, id)
/// key.
pub open spec fn key_sorted(s: Seq<Entitlement>) -> bool {
    forall|i: int, j: int| 0 <= i < j < s.len() ==> !key_lt(#[trigger] s[j], #[trigger] s[i])
}

proof fn lemma_count_push(s: Seq<Entitlement>, x: Entitlement, p: spec_fn(Entitlement) -> bool)
    ensures
        count_where(s.push(x), p) == count_where(s, p) + if p(x) { 1nat } else { 0nat },
{
    assert(s.push(x).drop_last() =~= s);
}

/// Counting commutes with insertion.
proof fn lemma_count_insert(x: Entitlement, s: Seq<Entitlement>, p: spec_fn(Entitlement) -> bool)
    ensures
        count_where(insert_sorted(x, s), p) == count_where(s, p) + if p(x) { 1nat } else { 0nat },
    decreases s.len(),
{
    if s.len() == 0 {
        lemma_count_push(s, x, p);
        assert(seq![x] =~= s.push(x));
    } else if key_lt(x, s.last()) {
        lemma_count_insert(x, s.drop_last(), p);
        lemma_count_push(insert_sorted(x, s.drop_last()), s.last(), p);
        lemma_count_push(s.drop_last(), s.last(), p);
        assert(s.drop_last().push(s.last()) =~= s);
    } else {
        lemma_count_push(s, x, p);
    }
}

/// Sorting keeps every count.
proof fn lemma_count_sort(s: Seq<Entitlement>, p: spec_fn(Entitlement) -> bool)
    ensures
        count_where(sort_entitlements(s), p) == count_where(s, p),
    decreases s.len(),
{
    if s.len() > 0 {
        lemma_count_sort(s.drop_last(), p);
        lemma_count_insert(s.last(), sort_entitlements(s.drop_last()), p);
    }
}

/// Counting over one feature's entitlements counts over all entitlements of
/// that feature.
proof fn lemma_count_entitlements_of(s: Seq<Entitlement>, fid: u128, p: spec_fn(Entitlement) -> bool)
    ensures
        count_where(entitlements_of(s, fid), p) == count_where(s, |e: Entitlement| e.feature_id == fid && p(e)),
    decreases s.len(),
{
    if s.len() > 0 {
        lemma_count_entitlements_of(s.drop_last(), fid, p);
        if s.last().feature_id == fid {
            lemma_count_push(entitlements_of(s.drop_last(), fid), s.last(), p);
        }
    }
}

/// Elements of an insertion are the inserted one or elements of `s`, and an
/// insertion into a sorted sequence is sorted.
proof fn lemma_insert_sorted(x: Entitlement, s: Seq<Entitlement>)
    ensures
        insert_sorted(x, s).len() == s.len() + 1,
        forall|k: int| 0 <= k < insert_sorted(x, s).len() ==> (#[trigger] insert_sorted(x, s)[k] == x
            || exists|j: int| 0 <= j < s.len() && insert_sorted(x, s)[k] == s[j]),
        key_sorted(s) ==> key_sorted(insert_sorted(x, s)),
    decreases s.len(),
{
    let r = insert_sorted(x, s);
    if s.len() == 0 {
        assert(r =~= seq![x]);
    } else if key_lt(x, s.last()) {
        let d = s.drop_last();
        lemma_insert_sorted(x, d);
        let r0 = insert_sorted(x, d);
        assert(r =~= r0.push(s.last()));
        assert forall|k: int| 0 <= k < r.len() implies (#[trigger] r[k] == x
            || exists|j: int| 0 <= j < s.len() && r[k] == s[j]) by {
            if k < r0.len() {
                assert(r[k] == r0[k]);
                if r0[k] != x {
                    let j = choose|j: int| 0 <= j < d.len() && r0[k] == d[j];
                    assert(r[k] == s[j]);
                }
            } else {
                assert(r[k] == s[s.len() - 1]);
            }
        }
        if key_sorted(s) {
            assert(key_sorted(d));
            assert forall|i: int, j: int| 0 <= i < j < r.len() implies !key_lt(#[trigger] r[j], #[trigger] r[i]) by {
                if j < r0.len() {
                    assert(r[i] == r0[i]);
                    assert(r[j] == r0[j]);
                } else {
                    assert(r[j] == s.last());
                    assert(r[i] == r0[i]);
                    if r0[i] != x {
                        let m = choose|m: int| 0 <= m < d.len() && r0[i] == d[m];
                        assert(s[m] == d[m]);
                        assert(!key_lt(s[s.len() - 1], s[m]));
                    }
                }
            }
        }
    } else {
        assert(r =~= s.push(x));
        assert forall|k: int| 0 <= k < r.len() implies (#[trigger] r[k] == x
            || exists|j: int| 0 <= j < s.len() && r[k] == s[j]) by {
            if k < s.len() {
                assert(r[k] == s[k]);
            }
        }
        if key_sorted(s) {
            assert forall|i: int, j: int| 0 <= i < j < r.len() implies !key_lt(#[trigger] r[j], #[trigger] r[i]) by {
                if j < s.len() {
                    assert(r[i] == s[i]);
                    assert(r[j] == s[j]);
                } else {
                    assert(r[i] == s[i]);
                    if i < s.len() - 1 {
                        assert(!key_lt(s[s.len() - 1], s[i]));
                    }
                }
            }
        }
    }
}

/// The sort is sorted.
proof fn lemma_sort_sorted(s: Seq<Entitlement>)
    ensures
        key_sorted(sort_entitlements(s)),
        sort_entitlements(s).len() == s.len(),
    decreases s.len(),
{
    if s.len() > 0 {
        lemma_sort_sorted(s.drop_last());
        lemma_insert_sorted(s.last(), sort_entitlements(s.drop_last()));
    }
}

/// A count is positive when some element satisfies the predicate, and an
/// element satisfying it is found at some index when the count is positive.
proof fn lemma_count_witness(s: Seq<Entitlement>, p: spec_fn(Entitlement) -> bool)
    ensures
        count_where(s, p) > 0 <==> exists|k: int| 0 <= k < s.len() && p(#[trigger] s[k]),
    decreases s.len(),
{
    if s.len() > 0 {
        let d = s.drop_last();
        lemma_count_witness(d, p);
        if exists|k: int| 0 <= k < s.len() && p(#[trigger] s[k]) {
            let k = choose|k: int| 0 <= k < s.len() && p(#[trigger] s[k]);
            if k < d.len() {
                assert(d[k] == s[k]);
            }
        }
        if exists|k: int| 0 <= k < d.len() && p(#[trigger] d[k]) {
            let k = choose|k: int| 0 <= k < d.len() && p(#[trigger] d[k]);
            assert(s[k] == d[k]);
        }
    }
}

/// Two distinct indices satisfying the predicate make a count of at least two.
proof fn lemma_count_two(s: Seq<Entitlement>, p: spec_fn(Entitlement) -> bool, i: int, j: int)
    requires
        0 <= i < j < s.len(),
        p(s[i]),
        p(s[j]),
    ensures
        count_where(s, p) >= 2,
    decreases s.len(),
{
    let d = s.drop_last();
    if j < s.len() - 1 {
        assert(d[i] == s[i] && d[j] == s[j]);
        lemma_count_two(d, p, i, j);
    } else {
        assert(d[i] == s[i]);
        lemma_count_witness(d, p);
    }
}

/// One index alone satisfying the predicate makes a count of one.
proof fn lemma_count_one(s: Seq<Entitlement>, p: spec_fn(Entitlement) -> bool, k: int)
    requires
        0 <= k < s.len(),
        p(s[k]),
        forall|i: int| 0 <= i < s.len() && i != k ==> !p(#[trigger] s[i]),
    ensures
        count_where(s, p) == 1,
    decreases s.len(),
{
    let d = s.drop_last();
    if k < s.len() - 1 {
        assert(d[k] == s[k]);
        assert forall|i: int| 0 <= i < d.len() && i != k implies !p(#[trigger] d[i]) by {
            assert(d[i] == s[i]);
        }
        lemma_count_one(d, p, k);
    } else {
        assert forall|i: int| 0 <= i < d.len() implies !p(#[trigger] d[i]) by {
            assert(d[i] == s[i]);
        }
        lemma_count_witness(d, p);
    }
}

/// The resolution of feature `f` when one grant outranks all others.
pub open spec fn sole_top_resolution(f: Feature, g: Entitlement) -> Option<RawResolvedEntitlement> {
    match resolved_value(f.feature_type, g.value) {
        None => None,
        Some(rv) => Some(RawResolvedEntitlement {
            feature: FeatureRef { id: f.id, name: f.name, product: f.product },
            value: rv,
            origin_entity: g.entity,
        }),
    }
}

/// The highest priority decides: when one grant of feature `f` (the one at
/// index `k`) has a higher priority than every other grant of `f`, the
/// feature resolves to that grant's value, credited to its entity, whatever
/// the other grants say.
pub proof fn law_sole_top_grant_decides(f: Feature, ents: Seq<Entitlement>, multi: Seq<u128>, k: int)
    requires
        0 <= k < ents.len(),
        ents[k].feature_id == f.id,
        forall|i: int| 0 <= i < ents.len() && i != k && (#[trigger] ents[i]).feature_id == f.id
            ==> priority_of(ents[i].entity) < priority_of(ents[k].entity),
    ensures
        resolve_feature(f, ents, multi) == sole_top_resolution(f, ents[k]),
{
    let g = ents[k];
    let top = priority_of(g.entity);
    let fid = f.id;
    let e = entitlements_of(ents, fid);
    let s = sort_entitlements(e);
    let is_top = |x: Entitlement| priority_of(x.entity) >= top;
    let is_g = |x: Entitlement| x == g;

    // Exactly one grant of the feature reaches the top priority, and it is `g`.
    lemma_count_entitlements_of(ents, fid, is_top);
    lemma_count_one(ents, |x: Entitlement| x.feature_id == fid && is_top(x), k);
    lemma_count_sort(e, is_top);
    lemma_count_entitlements_of(ents, fid, is_g);
    lemma_count_witness(ents, |x: Entitlement| x.feature_id == fid && is_g(x));
    lemma_count_sort(e, is_g);
    lemma_count_witness(s, is_g);
    lemma_sort_sorted(e);
    assert(count_where(s, is_top) == 1);

    // `g` sits at the end of the sorted grants; every other one ranks lower.
    let m = choose|m: int| 0 <= m < s.len() && is_g(#[trigger] s[m]);
    assert(s[m] == g);
    let last = s.len() - 1;
    if m < last {
        assert(!key_lt(s[last], s[m]));
        lemma_count_two(s, is_top, m, last);
    }
    assert(m == last);
    let lo = s.drop_last();
    assert forall|i: int| 0 <= i < lo.len() implies priority_of(#[trigger] lo[i].entity) < top by {
        assert(lo[i] == s[i]);
        if priority_of(s[i].entity) >= top {
            lemma_count_two(s, is_top, i, last);
        }
    }
    assert(s =~= lo + seq![g]);
    law_higher_priority_replaces(lo, seq![g], multi);
    assert(seq![g].drop_last() =~= Seq::<Entitlement>::empty());
    assert(seq![g].last() == g);
    assert(fold_entitlements(seq![g].drop_last(), multi).value is None);
    let st = fold_entitlements(s, multi);
    assert(st == fold_entitlements(seq![g], multi));
    assert(st.value == Some(g.value));
    assert(st.origin == Some(g.entity));
}

/// The grants of `s` whose priority is at least `top`, in their order.
pub open spec fn at_least(s: Seq<Entitlement>, top: int) -> Seq<Entitlement>
    decreases s.len(),
{
    if s.len() == 0 {
        Seq::empty()
    } else if priority_of(s.last().entity) >= top {
        at_least(s.drop_last(), top).push(s.last())
    } else {
        at_least(s.drop_last(), top)
    }
}

/// The grants of `s` whose priority is below `top`, in their order.
pub open spec fn below(s: Seq<Entitlement>, top: int) -> Seq<Entitlement>
    decreases s.len(),
{
    if s.len() == 0 {
        Seq::empty()
    } else if priority_of(s.last().entity) < top {
        below(s.drop_last(), top).push(s.last())
    } else {
        below(s.drop_last(), top)
    }
}

/// What the two filters keep: elements of `s` on the right side of `top`,
/// as many as `s` has at or above it.
proof fn lemma_filters(s: Seq<Entitlement>, top: int)
    ensures
        forall|k: int| 0 <= k < at_least(s, top).len() ==> priority_of((#[trigger] at_least(s, top)[k]).entity) >= top
            && exists|j: int| 0 <= j < s.len() && at_least(s, top)[k] == s[j],
        forall|k: int| 0 <= k < below(s, top).len() ==> priority_of((#[trigger] below(s, top)[k]).entity) < top,
        at_least(s, top).len() == count_where(s, |x: Entitlement| priority_of(x.entity) >= top),
    decreases s.len(),
{
    if s.len() > 0 {
        let d = s.drop_last();
        lemma_filters(d, top);
        let a = at_least(s, top);
        assert forall|k: int| 0 <= k < a.len() implies priority_of((#[trigger] a[k]).entity) >= top
            && exists|j: int| 0 <= j < s.len() && a[k] == s[j] by {
            if k < at_least(d, top).len() {
                assert(a[k] == at_least(d, top)[k]);
                let j = choose|j: int| 0 <= j < d.len() && at_least(d, top)[k] == d[j];
                assert(a[k] == s[j]);
            } else {
                assert(a[k] == s[s.len() - 1]);
            }
        }
        let b = below(s, top);
        assert forall|k: int| 0 <= k < b.len() implies priority_of((#[trigger] b[k]).entity) < top by {
            if k < below(d, top).len() {
                assert(b[k] == below(d, top)[k]);
            }
        }
    }
}

/// Keeping the grants at or above `top` and then taking one feature's grants
/// is taking the feature's grants and then keeping those at or above `top`.
proof fn lemma_at_least_entitlements_of(s: Seq<Entitlement>, fid: u128, top: int)
    ensures
        entitlements_of(at_least(s, top), fid) == at_least(entitlements_of(s, fid), top),
    decreases s.len(),
{
    if s.len() > 0 {
        let d = s.drop_last();
        lemma_at_least_entitlements_of(d, fid, top);
        if priority_of(s.last().entity) >= top {
            let t = at_least(d, top).push(s.last());
            assert(t.drop_last() =~= at_least(d, top));
            if s.last().feature_id == fid {
                let u = entitlements_of(d, fid).push(s.last());
                assert(u.drop_last() =~= entitlements_of(d, fid));
            }
        } else if s.last().feature_id == fid {
            let u = entitlements_of(d, fid).push(s.last());
            assert(u.drop_last() =~= entitlements_of(d, fid));
        }
    }
}

/// Inserting into a sorted sequence and then keeping the grants at or above
/// `top` is keeping them first and then inserting, if the inserted grant is
/// kept at all.
proof fn lemma_at_least_insert(x: Entitlement, s: Seq<Entitlement>, top: int)
    requires
        key_sorted(s),
    ensures
        at_least(insert_sorted(x, s), top) == if priority_of(x.entity) >= top {
            insert_sorted(x, at_least(s, top))
        } else {
            at_least(s, top)
        },
    decreases s.len(),
{
    let r = insert_sorted(x, s);
    if s.len() == 0 {
        assert(r =~= seq![x]);
        assert(seq![x].drop_last() =~= Seq::<Entitlement>::empty());
        assert(seq![x].last() == x);
        assert(at_least(s, top) =~= Seq::<Entitlement>::empty());
        assert(r == seq![x]);
        let e0 = Seq::<Entitlement>::empty();
        assert(seq![x] =~= e0.push(x));
        assert(e0.push(x).drop_last() =~= e0);
        if priority_of(x.entity) >= top {
            assert(at_least(e0.push(x), top) == at_least(e0, top).push(x));
            assert(at_least(r, top) =~= seq![x]);
        } else {
            assert(at_least(e0.push(x), top) == at_least(e0, top));
            assert(at_least(r, top) =~= Seq::<Entitlement>::empty());
        }
    } else if key_lt(x, s.last()) {
        let d = s.drop_last();
        let y = s.last();
        assert(key_sorted(d));
        lemma_at_least_insert(x, d, top);
        let r0 = insert_sorted(x, d);
        assert(r == r0.push(y));
        assert(r0.push(y).drop_last() =~= r0);
        assert(r0.push(y).last() == y);
        if priority_of(x.entity) >= top {
            assert(priority_of(y.entity) >= top);
            let a = at_least(d, top).push(y);
            assert(at_least(s, top) == a);
            assert(a.drop_last() =~= at_least(d, top));
            assert(a.last() == y);
            assert(insert_sorted(x, a) == insert_sorted(x, at_least(d, top)).push(y));
            assert(at_least(r, top) == at_least(r0, top).push(y));
        } else if priority_of(y.entity) >= top {
            assert(at_least(r, top) == at_least(r0, top).push(y));
            assert(at_least(s, top) == at_least(d, top).push(y));
        } else {
            assert(at_least(r, top) == at_least(r0, top));
            assert(at_least(s, top) == at_least(d, top));
        }
    } else {
        assert(r == s.push(x));
        assert(s.push(x).drop_last() =~= s);
        assert(s.push(x).last() == x);
        if priority_of(x.entity) >= top {
            let a = at_least(s, top);
            assert(at_least(r, top) == a.push(x));
            lemma_filters(s, top);
            if a.len() > 0 {
                let j = choose|j: int| 0 <= j < s.len() && a[a.len() - 1] == s[j];
                if j < s.len() - 1 {
                    assert(!key_lt(s[s.len() - 1], s[j]));
                }
                assert(!key_lt(x, a.last()));
            } else {
                assert(a.push(x) =~= seq![x]);
            }
        } else {
            assert(at_least(r, top) == at_least(s, top));
        }
    }
}

/// Sorting commutes with keeping the grants at or above `top`.
proof fn lemma_at_least_sort(s: Seq<Entitlement>, top: int)
    ensures
        at_least(sort_entitlements(s), top) == sort_entitlements(at_least(s, top)),
    decreases s.len(),
{
    if s.len() > 0 {
        let d = s.drop_last();
        lemma_at_least_sort(d, top);
        lemma_sort_sorted(d);
        lemma_at_least_insert(s.last(), sort_entitlements(d), top);
        if priority_of(s.last().entity) >= top {
            let a = at_least(d, top).push(s.last());
            assert(a.drop_last() =~= at_least(d, top));
            assert(a.last() == s.last());
        }
    }
}

/// A sorted sequence is its grants below `top` followed by those at or above.
proof fn lemma_split_sorted(s: Seq<Entitlement>, top: int)
    requires
        key_sorted(s),
    ensures
        s == below(s, top) + at_least(s, top),
    decreases s.len(),
{
    if s.len() > 0 {
        let d = s.drop_last();
        assert(key_sorted(d));
        lemma_split_sorted(d, top);
        assert(s =~= d.push(s.last()));
        if priority_of(s.last().entity) >= top {
            assert(below(s, top) == below(d, top));
            assert(at_least(s, top) == at_least(d, top).push(s.last()));
            assert((below(d, top) + at_least(d, top)).push(s.last()) =~= below(d, top) + at_least(d, top).push(s.last()));
        } else {
            lemma_filters(d, top);
            if at_least(d, top).len() > 0 {
                let j = choose|j: int| 0 <= j < d.len() && at_least(d, top)[0] == d[j];
                assert(!key_lt(s[s.len() - 1], s[j]));
            }
            assert(at_least(d, top) =~= Seq::<Entitlement>::empty());
            assert(s =~= below(d, top).push(s.last()) + Seq::<Entitlement>::empty());
        }
    }
}

/// Grants below the top do not count: for any priority `top` that some grant
/// of feature `f` reaches, dropping every grant below `top` leaves the
/// feature's resolution (value and origin) unchanged. Within the top priority,
/// grants merge; below it, they are replaced.
pub proof fn law_lower_priorities_are_ignored(f: Feature, ents: Seq<Entitlement>, multi: Seq<u128>, top: int, k: int)
    requires
        0 <= k < ents.len(),
        ents[k].feature_id == f.id,
        priority_of(ents[k].entity) >= top,
    ensures
        resolve_feature(f, ents, multi) == resolve_feature(f, at_least(ents, top), multi),
{
    let fid = f.id;
    let e = entitlements_of(ents, fid);
    let s = sort_entitlements(e);
    let is_top = |x: Entitlement| priority_of(x.entity) >= top;
    lemma_at_least_entitlements_of(ents, fid, top);
    lemma_at_least_sort(e, top);
    lemma_sort_sorted(e);
    lemma_split_sorted(s, top);
    lemma_filters(s, top);
    lemma_count_sort(e, is_top);
    lemma_count_entitlements_of(ents, fid, is_top);
    lemma_count_witness(ents, |x: Entitlement| x.feature_id == fid && is_top(x));
    let lo = below(s, top);
    let hi = at_least(s, top);
    assert(hi.len() > 0);
    assert forall|i: int, j: int| 0 <= i < lo.len() && 0 <= j < hi.len()
        implies priority_of(#[trigger] lo[i].entity) < priority_of(#[trigger] hi[j].entity) by {
        assert(priority_of(lo[i].entity) < top);
        assert(priority_of(hi[j].entity) >= top);
    }
    law_higher_priority_replaces(lo, hi, multi);
}

} // verus!
