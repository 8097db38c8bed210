//! The tax breakdown of a credit note: its lines' taxes grouped by rate and
//! name, each with the taxable base of its rate.
use vstd::prelude::*;
use vstd::arithmetic::power::{pow, lemma_pow_positive};
use crate::credit_notes::{Dec, TaxDetail, CreditLine, same_value, decimal_eq, abs_int, sum_of};

verus! {

/// One tax group of a breakdown (amounts unsigned: a credit note's direction
/// is implied).
#[derive(Debug)]
pub struct TaxBreakdownItem {
    pub taxable_amount: u64,
    pub tax_amount: u64,
    pub tax_rate: Dec,
    pub name: String,
}

/// Equal value is transitive.
pub proof fn lemma_same_value_trans(a: Dec, b: Dec, c: Dec)
    requires
        same_value(a, b),
        same_value(b, c),
    ensures
        same_value(a, c),
{
    let pa = pow(10, a.scale as nat);
    let pb = pow(10, b.scale as nat);
    let pc = pow(10, c.scale as nat);
    lemma_pow_positive(10, b.scale as nat);
    let x = a.mantissa as int;
    let y = b.mantissa as int;
    let z = c.mantissa as int;
    assert(x * pc * pb == z * pa * pb) by (nonlinear_arith)
        requires
            x * pb == y * pa,
            y * pc == z * pb,
    ;
    assert(x * pc == z * pa) by (nonlinear_arith)
        requires
            x * pc * pb == z * pa * pb,
            pb > 0,
    ;
}

/// An entry `(rate, name, amount)` counts towards the group of `rate` and
/// `name`: same rate value, same name.
#[verifier::opaque]
pub open spec fn key_match(e_rate: Dec, e_name: Seq<char>, rate: Dec, name: Seq<char>) -> bool {
    same_value(e_rate, rate) && e_name == name
}

/// Matching keys is symmetric and transitive.
proof fn lemma_key_match_trans(r1: Dec, n1: Seq<char>, r2: Dec, n2: Seq<char>, r3: Dec, n3: Seq<char>)
    requires
        key_match(r1, n1, r2, n2),
        key_match(r2, n2, r3, n3),
    ensures
        key_match(r1, n1, r3, n3),
        key_match(r3, n3, r1, n1),
{
    reveal(key_match);
    lemma_same_value_trans(r1, r2, r3);
}

/// Total amount of the entries in the group of `rate` and `name`.
pub open spec fn group_sum(entries: Seq<(Dec, Seq<char>, int)>, rate: Dec, name: Seq<char>) -> int
    decreases entries.len(),
{
    if entries.len() == 0 {
        0
    } else {
        let e = entries.last();
        group_sum(entries.drop_last(), rate, name) + if key_match(e.0, e.1, rate, name) { e.2 } else { 0 }
    }
}

/// The tax entries of a line: one per tax detail, or, without details and
/// with some tax or taxable amount, one for the line's combined rate named
/// "Tax". Amounts are magnitudes.
pub open spec fn tax_line_entries(line: CreditLine) -> Seq<(Dec, Seq<char>, int)> {
    if line.tax_details@.len() == 0 {
        if line.tax_amount != 0 || line.taxable_amount != 0 {
            seq![(line.tax_rate, "Tax"@, abs_int(line.tax_amount as int))]
        } else {
            seq![]
        }
    } else {
        line.tax_details@.map_values(|d: TaxDetail| (d.tax_rate, d.tax_name@, abs_int(d.tax_amount as int)))
    }
}

/// Detail `j` has a rate equal in value to that of an earlier detail.
pub open spec fn rate_seen_before(details: Seq<TaxDetail>, j: int) -> bool {
    exists|k: int| 0 <= k < j && same_value(#[trigger] details[k].tax_rate, details[j].tax_rate)
}

/// The taxable base of a line counted once for each distinct rate among its
/// details, at the first detail of that rate (the entries carry no name).
pub open spec fn detail_rate_entries(details: Seq<TaxDetail>, taxable: int) -> Seq<(Dec, Seq<char>, int)>
    decreases details.len(),
{
    if details.len() == 0 {
        seq![]
    } else {
        detail_rate_entries(details.drop_last(), taxable) + if rate_seen_before(details, details.len() - 1) {
            Seq::<(Dec, Seq<char>, int)>::empty()
        } else {
            seq![(details.last().tax_rate, Seq::<char>::empty(), taxable)]
        }
    }
}

/// The taxable-base entries of a line.
pub open spec fn rate_line_entries(line: CreditLine) -> Seq<(Dec, Seq<char>, int)> {
    if line.tax_details@.len() == 0 {
        if line.tax_amount != 0 || line.taxable_amount != 0 {
            seq![(line.tax_rate, Seq::<char>::empty(), abs_int(line.taxable_amount as int))]
        } else {
            seq![]
        }
    } else {
        detail_rate_entries(line.tax_details@, abs_int(line.taxable_amount as int))
    }
}

/// The tax entries of all lines, in order.
pub open spec fn tax_entries(lines: Seq<CreditLine>) -> Seq<(Dec, Seq<char>, int)>
    decreases lines.len(),
{
    if lines.len() == 0 {
        seq![]
    } else {
        tax_entries(lines.drop_last()) + tax_line_entries(lines.last())
    }
}

/// The taxable-base entries of all lines, in order.
pub open spec fn rate_entries(lines: Seq<CreditLine>) -> Seq<(Dec, Seq<char>, int)>
    decreases lines.len(),
{
    if lines.len() == 0 {
        seq![]
    } else {
        rate_entries(lines.drop_last()) + rate_line_entries(lines.last())
    }
}

/// Every group of `entries` sums to at most `u64::MAX`.
pub open spec fn groups_fit(entries: Seq<(Dec, Seq<char>, int)>) -> bool {
    forall|j: int| 0 <= j < entries.len() ==> #[trigger] group_sum(entries, entries[j].0, entries[j].1) <= u64::MAX
}

/// The amounts of a line are not `i64::MIN` (their magnitudes fit) and its
/// rates are decimals.
pub open spec fn line_amounts_ok(line: CreditLine) -> bool {
    &&& line.taxable_amount != i64::MIN
    &&& line.tax_amount != i64::MIN
    &&& line.tax_rate.wf()
    &&& forall|k: int| 0 <= k < line.tax_details@.len() ==> {
        &&& (#[trigger] line.tax_details@[k]).tax_amount != i64::MIN
        &&& line.tax_details@[k].tax_rate.wf()
    }
}

/// Inputs on which the breakdown is computed without overflow.
pub open spec fn breakdown_fits(lines: Seq<CreditLine>) -> bool {
    &&& forall|i: int| 0 <= i < lines.len() ==> line_amounts_ok(#[trigger] lines[i])
    &&& groups_fit(tax_entries(lines))
    &&& groups_fit(rate_entries(lines))
}

/// The view of exec entries.
pub open spec fn entries_view(v: Seq<(Dec, String, u64)>) -> Seq<(Dec, Seq<char>, int)> {
    v.map_values(|e: (Dec, String, u64)| (e.0, e.1@, e.2 as int))
}

/// All rates of the entries are decimals.
pub open spec fn entries_wf(v: Seq<(Dec, String, u64)>) -> bool {
    forall|j: int| 0 <= j < v.len() ==> (#[trigger] v[j]).0.wf()
}

/// The magnitude of an amount.
fn magnitude(x: i64) -> (r: u64)
    requires
        x != i64::MIN,
    ensures
        r == abs_int(x as int),
{
    if x < 0 {
        (-x) as u64
    } else {
        x as u64
    }
}

proof fn lemma_entries_view_push(v: Seq<(Dec, String, u64)>, e: (Dec, String, u64))
    ensures
        entries_view(v.push(e)) == entries_view(v).push((e.0, e.1@, e.2 as int)),
{
    assert(entries_view(v.push(e)) =~= entries_view(v).push((e.0, e.1@, e.2 as int)));
}

/// Appends the tax entries of `line`.
fn push_tax_entries(line: &CreditLine, out: &mut Vec<(Dec, String, u64)>)
    requires
        line_amounts_ok(*line),
        entries_wf(old(out)@),
    ensures
        entries_view(final(out)@) == entries_view(old(out)@) + tax_line_entries(*line),
        entries_wf(final(out)@),
{
    let ghost start = entries_view(out@);
    if line.tax_details.len() == 0 {
        if line.tax_amount != 0 || line.taxable_amount != 0 {
            let name = "Tax".to_owned();
            let m = magnitude(line.tax_amount);
            proof {
                reveal_strlit("Tax");
                lemma_entries_view_push(out@, (line.tax_rate, name, m));
            }
            out.push((line.tax_rate, name, m));
            assert(entries_view(out@) =~= start + tax_line_entries(*line));
        } else {
            assert(entries_view(out@) =~= start + tax_line_entries(*line));
        }
    } else {
        let mut j: usize = 0;
        while j < line.tax_details.len()
            invariant
                line_amounts_ok(*line),
                j <= line.tax_details@.len(),
                line.tax_details@.len() > 0,
                entries_wf(out@),
                entries_view(out@) == start + line.tax_details@.take(j as int).map_values(
                    |d: TaxDetail| (d.tax_rate, d.tax_name@, abs_int(d.tax_amount as int)),
                ),
            decreases line.tax_details@.len() - j,
        {
            let d = &line.tax_details[j];
            let m = magnitude(d.tax_amount);
            let name = d.tax_name.clone();
            proof {
                lemma_entries_view_push(out@, (d.tax_rate, name, m));
                assert(line.tax_details@.take(j + 1) =~= line.tax_details@.take(j as int).push(*d));
            }
            out.push((d.tax_rate, name, m));
            j = j + 1;
            assert(entries_view(out@) =~= start + line.tax_details@.take(j as int).map_values(
                |d: TaxDetail| (d.tax_rate, d.tax_name@, abs_int(d.tax_amount as int)),
            ));
        }
        assert(line.tax_details@.take(j as int) =~= line.tax_details@);
    }
}

/// Whether an earlier detail (before `j`) has a rate of the same value.
fn seen_rate(details: &Vec<TaxDetail>, j: usize) -> (r: bool)
    requires
        j < details@.len(),
        forall|k: int| 0 <= k < details@.len() ==> (#[trigger] details@[k]).tax_rate.wf(),
    ensures
        r == rate_seen_before(details@, j as int),
{
    let mut k: usize = 0;
    while k < j
        invariant
            j < details@.len(),
            k <= j,
            forall|m: int| 0 <= m < details@.len() ==> (#[trigger] details@[m]).tax_rate.wf(),
            forall|m: int| 0 <= m < k ==> !same_value(#[trigger] details@[m].tax_rate, details@[j as int].tax_rate),
        decreases j - k,
    {
        if decimal_eq(details[k].tax_rate, details[j].tax_rate) {
            return true;
        }
        k = k + 1;
    }
    false
}

/// Appends the taxable-base entries of `line`.
fn push_rate_entries(line: &CreditLine, out: &mut Vec<(Dec, String, u64)>)
    requires
        line_amounts_ok(*line),
        entries_wf(old(out)@),
    ensures
        entries_view(final(out)@) == entries_view(old(out)@) + rate_line_entries(*line),
        entries_wf(final(out)@),
{
    let ghost start = entries_view(out@);
    let taxable = magnitude(line.taxable_amount);
    if line.tax_details.len() == 0 {
        if line.tax_amount != 0 || line.taxable_amount != 0 {
            let name = String::new();
            proof {
                lemma_entries_view_push(out@, (line.tax_rate, name, taxable));
            }
            out.push((line.tax_rate, name, taxable));
            assert(entries_view(out@) =~= start + rate_line_entries(*line));
        } else {
            assert(entries_view(out@) =~= start + rate_line_entries(*line));
        }
    } else {
        let mut j: usize = 0;
        while j < line.tax_details.len()
            invariant
                line_amounts_ok(*line),
                j <= line.tax_details@.len(),
                line.tax_details@.len() > 0,
                taxable == abs_int(line.taxable_amount as int),
                entries_wf(out@),
                entries_view(out@) == start + detail_rate_entries(line.tax_details@.take(j as int), taxable as int),
            decreases line.tax_details@.len() - j,
        {
            let ghost prefix = line.tax_details@.take(j + 1);
            proof {
                assert(prefix.drop_last() =~= line.tax_details@.take(j as int));
                assert(prefix.last() == line.tax_details@[j as int]);
                assert(rate_seen_before(prefix, j as int) == rate_seen_before(line.tax_details@, j as int)) by {
                    if rate_seen_before(prefix, j as int) {
                        let k = choose|k: int| 0 <= k < j && same_value(#[trigger] prefix[k].tax_rate, prefix[j as int].tax_rate);
                        assert(same_value(line.tax_details@[k].tax_rate, line.tax_details@[j as int].tax_rate));
                    }
                    if rate_seen_before(line.tax_details@, j as int) {
                        let k = choose|k: int| 0 <= k < j && same_value(#[trigger] line.tax_details@[k].tax_rate, line.tax_details@[j as int].tax_rate);
                        assert(same_value(prefix[k].tax_rate, prefix[j as int].tax_rate));
                    }
                }
            }
            let seen = seen_rate(&line.tax_details, j);
            if !seen {
                let name = String::new();
                proof {
                    lemma_entries_view_push(out@, (line.tax_details@[j as int].tax_rate, name, taxable));
                }
                out.push((line.tax_details[j].tax_rate, name, taxable));
            }
            j = j + 1;
            assert(entries_view(out@) =~= start + detail_rate_entries(line.tax_details@.take(j as int), taxable as int));
        }
        assert(line.tax_details@.take(j as int) =~= line.tax_details@);
    }
}

/// The tax entries of all lines.
fn collect_tax_entries(lines: &Vec<CreditLine>) -> (r: Vec<(Dec, String, u64)>)
    requires
        forall|i: int| 0 <= i < lines@.len() ==> line_amounts_ok(#[trigger] lines@[i]),
    ensures
        entries_view(r@) == tax_entries(lines@),
        entries_wf(r@),
{
    let mut out: Vec<(Dec, String, u64)> = Vec::new();
    let mut i: usize = 0;
    assert(entries_view(out@) =~= tax_entries(lines@.take(0)));
    while i < lines.len()
        invariant
            i <= lines@.len(),
            forall|k: int| 0 <= k < lines@.len() ==> line_amounts_ok(#[trigger] lines@[k]),
            entries_wf(out@),
            entries_view(out@) == tax_entries(lines@.take(i as int)),
        decreases lines@.len() - i,
    {
        push_tax_entries(&lines[i], &mut out);
        proof {
            let p = lines@.take(i + 1);
            assert(p.drop_last() =~= lines@.take(i as int));
            assert(p.last() == lines@[i as int]);
        }
        i = i + 1;
    }
    assert(lines@.take(i as int) =~= lines@);
    out
}

/// The taxable-base entries of all lines.
fn collect_rate_entries(lines: &Vec<CreditLine>) -> (r: Vec<(Dec, String, u64)>)
    requires
        forall|i: int| 0 <= i < lines@.len() ==> line_amounts_ok(#[trigger] lines@[i]),
    ensures
        entries_view(r@) == rate_entries(lines@),
        entries_wf(r@),
{
    let mut out: Vec<(Dec, String, u64)> = Vec::new();
    let mut i: usize = 0;
    assert(entries_view(out@) =~= rate_entries(lines@.take(0)));
    while i < lines.len()
        invariant
            i <= lines@.len(),
            forall|k: int| 0 <= k < lines@.len() ==> line_amounts_ok(#[trigger] lines@[k]),
            entries_wf(out@),
            entries_view(out@) == rate_entries(lines@.take(i as int)),
        decreases lines@.len() - i,
    {
        push_rate_entries(&lines[i], &mut out);
        proof {
            let p = lines@.take(i + 1);
            assert(p.drop_last() =~= lines@.take(i as int));
            assert(p.last() == lines@[i as int]);
        }
        i = i + 1;
    }
    assert(lines@.take(i as int) =~= lines@);
    out
}

/// A group's sum over a prefix is at most its sum over the whole (amounts
/// are not negative).
proof fn lemma_group_sum_prefix(s: Seq<(Dec, Seq<char>, int)>, i: int, rate: Dec, name: Seq<char>)
    requires
        0 <= i <= s.len(),
        forall|j: int| 0 <= j < s.len() ==> (#[trigger] s[j]).2 >= 0,
    ensures
        group_sum(s.take(i), rate, name) <= group_sum(s, rate, name),
    decreases s.len(),
{
    if i < s.len() {
        lemma_group_sum_prefix(s.drop_last(), i, rate, name);
        assert(s.drop_last().take(i) =~= s.take(i));
    } else {
        assert(s.take(i) =~= s);
    }
}

/// Extending a prefix by one entry adds that entry to its group.
proof fn lemma_group_sum_step(s: Seq<(Dec, Seq<char>, int)>, i: int, rate: Dec, name: Seq<char>)
    requires
        0 <= i < s.len(),
    ensures
        group_sum(s.take(i + 1), rate, name) == group_sum(s.take(i), rate, name)
            + if key_match(s[i].0, s[i].1, rate, name) { s[i].2 } else { 0 },
{
    assert(s.take(i + 1).drop_last() =~= s.take(i));
}

/// A group no entry matches sums to zero.
proof fn lemma_group_sum_none(s: Seq<(Dec, Seq<char>, int)>, rate: Dec, name: Seq<char>)
    requires
        forall|j: int| 0 <= j < s.len() ==> !key_match((#[trigger] s[j]).0, s[j].1, rate, name),
    ensures
        group_sum(s, rate, name) == 0,
    decreases s.len(),
{
    if s.len() > 0 {
        lemma_group_sum_none(s.drop_last(), rate, name);
        assert(!key_match(s[s.len() - 1].0, s[s.len() - 1].1, rate, name));
    }
}

/// Groups of matching keys have the same sum.
proof fn lemma_group_sum_same_key(s: Seq<(Dec, Seq<char>, int)>, r1: Dec, n1: Seq<char>, r2: Dec, n2: Seq<char>)
    requires
        key_match(r1, n1, r2, n2),
    ensures
        group_sum(s, r1, n1) == group_sum(s, r2, n2),
    decreases s.len(),
{
    if s.len() > 0 {
        lemma_group_sum_same_key(s.drop_last(), r1, n1, r2, n2);
        let e = s.last();
        lemma_key_match_refl_sym(r1, n1, r2, n2);
        if key_match(e.0, e.1, r1, n1) {
            lemma_key_match_trans(e.0, e.1, r1, n1, r2, n2);
        }
        if key_match(e.0, e.1, r2, n2) {
            lemma_key_match_trans(e.0, e.1, r2, n2, r1, n1);
        }
    }
}

/// The index of the group matching `rate` and `name`, if any.
fn find_group(keys: &Vec<(Dec, String)>, rate: Dec, name: &String) -> (r: Option<usize>)
    requires
        rate.wf(),
        forall|k: int| 0 <= k < keys@.len() ==> (#[trigger] keys@[k]).0.wf(),
    ensures
        r matches Some(k) ==> k < keys@.len() && key_match(keys@[k as int].0, keys@[k as int].1@, rate, name@),
        r is None ==> forall|k: int| 0 <= k < keys@.len() ==> !key_match((#[trigger] keys@[k]).0, keys@[k].1@, rate, name@),
{
    reveal(key_match);
    let mut k: usize = 0;
    while k < keys.len()
        invariant
            k <= keys@.len(),
            rate.wf(),
            forall|m: int| 0 <= m < keys@.len() ==> (#[trigger] keys@[m]).0.wf(),
            forall|m: int| 0 <= m < k ==> !key_match((#[trigger] keys@[m]).0, keys@[m].1@, rate, name@),
        decreases keys@.len() - k,
    {
        proof {
            reveal(key_match);
        }
        if decimal_eq(keys[k].0, rate) && keys[k].1 == *name {
            return Some(k);
        }
        k = k + 1;
    }
    None
}

/// Some key of `keys` matches the entry `e`.
pub open spec fn key_covers(keys: Seq<(Dec, String)>, e: (Dec, Seq<char>, int)) -> bool {
    exists|k: int| #![trigger keys[k]] 0 <= k < keys.len() && key_match(e.0, e.1, keys[k].0, keys[k].1@)
}

/// `key` is, exactly, the rate and name of the first entry of `s` in its
/// group (the first entry whose rate has its value and whose name is its
/// name).
pub open spec fn key_from(s: Seq<(Dec, Seq<char>, int)>, key: (Dec, String)) -> bool {
    exists|j: int| #![trigger s[j]] 0 <= j < s.len() && s[j].0 == key.0 && s[j].1 == key.1@
        && forall|i: int| 0 <= i < j ==> !key_match((#[trigger] s[i]).0, s[i].1, key.0, key.1@)
}

/// What grouping `s` into `keys` with sums `amounts` promises: one group per
/// key of value (names compared exactly), keyed by one of its entries.
#[verifier::opaque]
pub open spec fn grouped(s: Seq<(Dec, Seq<char>, int)>, keys: Seq<(Dec, String)>, amounts: Seq<u64>) -> bool {
    &&& keys.len() == amounts.len()
    &&& forall|k: int| #![trigger keys[k]] 0 <= k < keys.len() ==> amounts[k] == group_sum(s, keys[k].0, keys[k].1@)
    &&& forall|k: int, m: int| #![trigger keys[k], keys[m]] 0 <= k < m < keys.len() ==> !key_match(keys[k].0, keys[k].1@, keys[m].0, keys[m].1@)
    &&& forall|j: int| 0 <= j < s.len() ==> #[trigger] key_covers(keys, s[j])
    &&& forall|k: int| 0 <= k < keys.len() ==> #[trigger] key_from(s, keys[k])
}

/// Matching keys is reflexive and symmetric.
proof fn lemma_key_match_refl_sym(r1: Dec, n1: Seq<char>, r2: Dec, n2: Seq<char>)
    ensures
        key_match(r1, n1, r1, n1),
        key_match(r1, n1, r2, n2) ==> key_match(r2, n2, r1, n1),
{
    reveal(key_match);
}

/// Adding an entry to the group its key matches keeps the grouping.
proof fn lemma_grouped_add(s: Seq<(Dec, Seq<char>, int)>, i: int, keys: Seq<(Dec, String)>, amounts: Seq<u64>, k: int, updated: u64)
    requires
        0 <= i < s.len(),
        grouped(s.take(i), keys, amounts),
        0 <= k < keys.len(),
        key_match(s[i].0, s[i].1, keys[k].0, keys[k].1@),
        updated == amounts[k] + s[i].2,
    ensures
        grouped(s.take(i + 1), keys, amounts.update(k, updated)),
{
    reveal(grouped);
    let t = s.take(i);
    let t1 = s.take(i + 1);
    let na = amounts.update(k, updated);
    assert forall|j: int| 0 <= j <= i implies #[trigger] t1[j] == s[j] by {}
    assert forall|m: int| #![trigger keys[m]] 0 <= m < keys.len() implies na[m] == group_sum(t1, keys[m].0, keys[m].1@) by {
        lemma_group_sum_step(s, i, keys[m].0, keys[m].1@);
        if m != k && key_match(s[i].0, s[i].1, keys[m].0, keys[m].1@) {
            lemma_key_match_refl_sym(s[i].0, s[i].1, keys[k].0, keys[k].1@);
            lemma_key_match_trans(keys[k].0, keys[k].1@, s[i].0, s[i].1, keys[m].0, keys[m].1@);
            if k < m {
                assert(!key_match(keys[k].0, keys[k].1@, keys[m].0, keys[m].1@));
            } else {
                assert(!key_match(keys[m].0, keys[m].1@, keys[k].0, keys[k].1@));
            }
        }
    }
    assert forall|j: int| 0 <= j < t1.len() implies #[trigger] key_covers(keys, t1[j]) by {
        if j == i {
            assert(key_match(t1[j].0, t1[j].1, keys[k].0, keys[k].1@));
        } else {
            assert(t1[j] == t[j]);
            assert(key_covers(keys, t[j]));
        }
    }
    assert forall|kk: int| 0 <= kk < keys.len() implies #[trigger] key_from(t1, keys[kk]) by {
        assert(key_from(t, keys[kk]));
        let j = choose|j: int| #![trigger t[j]] 0 <= j < t.len() && t[j].0 == keys[kk].0 && t[j].1 == keys[kk].1@
            && forall|x: int| 0 <= x < j ==> !key_match((#[trigger] t[x]).0, t[x].1, keys[kk].0, keys[kk].1@);
        assert(t1[j] == t[j]);
        assert forall|x: int| 0 <= x < j implies !key_match((#[trigger] t1[x]).0, t1[x].1, keys[kk].0, keys[kk].1@) by {
            assert(t1[x] == t[x]);
        }
    }
}

/// An entry whose key no group matches opens a new group.
proof fn lemma_grouped_open(s: Seq<(Dec, Seq<char>, int)>, i: int, keys: Seq<(Dec, String)>, amounts: Seq<u64>, key: (Dec, String), amount: u64)
    requires
        0 <= i < s.len(),
        grouped(s.take(i), keys, amounts),
        forall|k: int| 0 <= k < keys.len() ==> !key_match((#[trigger] keys[k]).0, keys[k].1@, s[i].0, s[i].1),
        key.0 == s[i].0,
        key.1@ == s[i].1,
        amount == s[i].2,
    ensures
        grouped(s.take(i + 1), keys.push(key), amounts.push(amount)),
{
    reveal(grouped);
    let t = s.take(i);
    let t1 = s.take(i + 1);
    let nk = keys.push(key);
    let na = amounts.push(amount);
    let rate = key.0;
    let name = key.1@;
    assert forall|j: int| 0 <= j <= i implies #[trigger] t1[j] == s[j] by {}
    assert forall|j: int| 0 <= j < t.len() implies !key_match((#[trigger] t[j]).0, t[j].1, rate, name) by {
        assert(key_covers(keys, t[j]));
        let kk = choose|kk: int| #![trigger keys[kk]] 0 <= kk < keys.len() && key_match(t[j].0, t[j].1, keys[kk].0, keys[kk].1@);
        if key_match(t[j].0, t[j].1, rate, name) {
            lemma_key_match_refl_sym(t[j].0, t[j].1, keys[kk].0, keys[kk].1@);
            lemma_key_match_trans(keys[kk].0, keys[kk].1@, t[j].0, t[j].1, rate, name);
        }
    }
    lemma_group_sum_none(t, rate, name);
    lemma_key_match_refl_sym(rate, name, rate, name);
    assert forall|m: int| #![trigger nk[m]] 0 <= m < nk.len() implies na[m] == group_sum(t1, nk[m].0, nk[m].1@) by {
        lemma_group_sum_step(s, i, nk[m].0, nk[m].1@);
        if m < keys.len() {
            assert(nk[m] == keys[m]);
            if key_match(s[i].0, s[i].1, keys[m].0, keys[m].1@) {
                lemma_key_match_refl_sym(s[i].0, s[i].1, keys[m].0, keys[m].1@);
            }
        }
    }
    assert forall|a: int, b: int| #![trigger nk[a], nk[b]] 0 <= a < b < nk.len() implies !key_match(nk[a].0, nk[a].1@, nk[b].0, nk[b].1@) by {
        assert(nk[a] == keys[a]);
        if b < keys.len() {
            assert(nk[b] == keys[b]);
        }
    }
    assert forall|j: int| 0 <= j < t1.len() implies #[trigger] key_covers(nk, t1[j]) by {
        if j == i {
            assert(key_match(t1[j].0, t1[j].1, nk[keys.len() as int].0, nk[keys.len() as int].1@));
        } else {
            assert(t1[j] == t[j]);
            assert(key_covers(keys, t[j]));
            let kk = choose|kk: int| #![trigger keys[kk]] 0 <= kk < keys.len() && key_match(t[j].0, t[j].1, keys[kk].0, keys[kk].1@);
            assert(nk[kk] == keys[kk]);
        }
    }
    assert forall|kk: int| 0 <= kk < nk.len() implies #[trigger] key_from(t1, nk[kk]) by {
        if kk == keys.len() {
            assert(t1[i].0 == nk[kk].0);
            assert forall|x: int| 0 <= x < i implies !key_match((#[trigger] t1[x]).0, t1[x].1, nk[kk].0, nk[kk].1@) by {
                assert(t1[x] == t[x]);
            }
        } else {
            assert(nk[kk] == keys[kk]);
            assert(key_from(t, keys[kk]));
            let j = choose|j: int| #![trigger t[j]] 0 <= j < t.len() && t[j].0 == keys[kk].0 && t[j].1 == keys[kk].1@
                && forall|x: int| 0 <= x < j ==> !key_match((#[trigger] t[x]).0, t[x].1, keys[kk].0, keys[kk].1@);
            assert(t1[j] == t[j]);
            assert forall|x: int| 0 <= x < j implies !key_match((#[trigger] t1[x]).0, t1[x].1, keys[kk].0, keys[kk].1@) by {
                assert(t1[x] == t[x]);
            }
        }
    }
}

/// The group an entry joins has room for its amount.
proof fn lemma_grouped_room(s: Seq<(Dec, Seq<char>, int)>, i: int, keys: Seq<(Dec, String)>, amounts: Seq<u64>, k: int)
    requires
        0 <= i < s.len(),
        grouped(s.take(i), keys, amounts),
        groups_fit(s),
        forall|j: int| 0 <= j < s.len() ==> (#[trigger] s[j]).2 >= 0,
        0 <= k < keys.len(),
        key_match(s[i].0, s[i].1, keys[k].0, keys[k].1@),
    ensures
        amounts[k] + s[i].2 <= u64::MAX,
{
    reveal(grouped);
    assert(amounts[k] == group_sum(s.take(i), keys[k].0, keys[k].1@));
    lemma_group_sum_step(s, i, keys[k].0, keys[k].1@);
    lemma_group_sum_prefix(s, i + 1, keys[k].0, keys[k].1@);
    assert(group_sum(s, s[i].0, s[i].1) <= u64::MAX);
    lemma_group_sum_same_key(s, s[i].0, s[i].1, keys[k].0, keys[k].1@);
}

/// Groups entries by the value of their rate and their name, summing amounts.
fn group_entries(entries: &Vec<(Dec, String, u64)>) -> (r: (Vec<(Dec, String)>, Vec<u64>))
    requires
        entries_wf(entries@),
        groups_fit(entries_view(entries@)),
    ensures
        grouped(entries_view(entries@), r.0@, r.1@),
        r.0@.len() == r.1@.len(),
        forall|k: int| 0 <= k < r.0@.len() ==> (#[trigger] r.0@[k]).0.wf(),
{
    let ghost s = entries_view(entries@);
    let mut keys: Vec<(Dec, String)> = Vec::new();
    let mut amounts: Vec<u64> = Vec::new();
    let mut i: usize = 0;
    assert(grouped(s.take(0), keys@, amounts@)) by {
        reveal(grouped);
    }
    while i < entries.len()
        invariant
            i <= entries@.len(),
            s == entries_view(entries@),
            s.len() == entries@.len(),
            entries_wf(entries@),
            groups_fit(s),
            forall|k: int| 0 <= k < keys@.len() ==> (#[trigger] keys@[k]).0.wf(),
            keys@.len() == amounts@.len(),
            grouped(s.take(i as int), keys@, amounts@),
        decreases entries@.len() - i,
    {
        proof {
            assert(s[i as int] == (entries@[i as int].0, entries@[i as int].1@, entries@[i as int].2 as int));
            assert(entries_wf(entries@) ==> entries@[i as int].0.wf());
        }
        let rate = entries[i].0;
        let amount = entries[i].2;
        match find_group(&keys, rate, &entries[i].1) {
            Some(k) => {
                proof {
                    assert forall|j: int| 0 <= j < s.len() implies (#[trigger] s[j]).2 >= 0 by {
                        assert(s[j].2 == entries@[j].2 as int);
                    }
                    lemma_key_match_refl_sym(keys@[k as int].0, keys@[k as int].1@, rate, entries@[i as int].1@);
                    lemma_grouped_room(s, i as int, keys@, amounts@, k as int);
                }
                let updated = amounts[k] + amount;
                proof {
                    lemma_grouped_add(s, i as int, keys@, amounts@, k as int, updated);
                }
                amounts.set(k, updated);
            },
            None => {
                let name = entries[i].1.clone();
                proof {
                    lemma_grouped_open(s, i as int, keys@, amounts@, (rate, name), amount);
                }
                keys.push((rate, name));
                amounts.push(amount);
            },
        }
        i = i + 1;
    }
    assert(s.take(i as int) =~= s);
    (keys, amounts)
}

/// What a grouping states of one of its keys.
proof fn lemma_grouped_get(s: Seq<(Dec, Seq<char>, int)>, keys: Seq<(Dec, String)>, amounts: Seq<u64>, k: int)
    requires
        grouped(s, keys, amounts),
        0 <= k < keys.len(),
    ensures
        keys.len() == amounts.len(),
        amounts[k] == group_sum(s, keys[k].0, keys[k].1@),
{
    reveal(grouped);
}

/// A key no group matches has an empty group.
proof fn lemma_grouped_absent(s: Seq<(Dec, Seq<char>, int)>, keys: Seq<(Dec, String)>, amounts: Seq<u64>, rate: Dec, name: Seq<char>)
    requires
        grouped(s, keys, amounts),
        forall|k: int| 0 <= k < keys.len() ==> !key_match((#[trigger] keys[k]).0, keys[k].1@, rate, name),
    ensures
        group_sum(s, rate, name) == 0,
{
    reveal(grouped);
    assert forall|j: int| 0 <= j < s.len() implies !key_match((#[trigger] s[j]).0, s[j].1, rate, name) by {
        assert(key_covers(keys, s[j]));
        let kk = choose|kk: int| #![trigger keys[kk]] 0 <= kk < keys.len() && key_match(s[j].0, s[j].1, keys[kk].0, keys[kk].1@);
        if key_match(s[j].0, s[j].1, rate, name) {
            lemma_key_match_refl_sym(s[j].0, s[j].1, keys[kk].0, keys[kk].1@);
            lemma_key_match_trans(keys[kk].0, keys[kk].1@, s[j].0, s[j].1, rate, name);
        }
    }
    lemma_group_sum_none(s, rate, name);
}

/// Some item of the breakdown has the key of entry `e`.
pub open spec fn breakdown_covers(r: Seq<TaxBreakdownItem>, e: (Dec, Seq<char>, int)) -> bool {
    exists|i: int| #![trigger r[i]] 0 <= i < r.len() && key_match(e.0, e.1, r[i].tax_rate, r[i].name@)
}

/// The rate and name of `item` are, exactly, those of the first entry of
/// its group (so of several forms of one rate value, the first one met).
pub open spec fn item_from(entries: Seq<(Dec, Seq<char>, int)>, item: TaxBreakdownItem) -> bool {
    exists|j: int| #![trigger entries[j]] 0 <= j < entries.len() && entries[j].0 == item.tax_rate && entries[j].1 == item.name@
        && forall|i: int| 0 <= i < j ==> !key_match((#[trigger] entries[i]).0, entries[i].1, item.tax_rate, item.name@)
}

/// `r` is the tax breakdown of `lines`: one item per (rate value, name) among
/// the lines' taxes, in no particular order, each carrying the total tax of
/// its group and the taxable base of its rate (each line's base counted once
/// per rate).
pub open spec fn is_tax_breakdown(lines: Seq<CreditLine>, r: Seq<TaxBreakdownItem>) -> bool {
    let te = tax_entries(lines);
    let re = rate_entries(lines);
    &&& forall|i: int| 0 <= i < r.len() ==> (#[trigger] r[i]).tax_amount == group_sum(te, r[i].tax_rate, r[i].name@)
    &&& forall|i: int| 0 <= i < r.len() ==> (#[trigger] r[i]).taxable_amount == group_sum(re, r[i].tax_rate, Seq::<char>::empty())
    &&& forall|i: int, m: int| #![trigger r[i], r[m]] 0 <= i < m < r.len() ==> !key_match(r[i].tax_rate, r[i].name@, r[m].tax_rate, r[m].name@)
    &&& forall|j: int| 0 <= j < te.len() ==> #[trigger] breakdown_covers(r, te[j])
    &&& forall|i: int| 0 <= i < r.len() ==> #[trigger] item_from(te, r[i])
}

/// Computes the tax breakdown of credit-note lines: taxes grouped by rate
/// (by value) and name, with their amounts summed as magnitudes; a line
/// without tax details contributes its combined rate under the name "Tax"
/// when it has tax or a taxable amount. Each group's taxable amount is the
/// sum of the taxable bases at its rate, a line's base counted once per rate.
pub fn compute_tax_breakdown(line_items: &Vec<CreditLine>) -> (r: Vec<TaxBreakdownItem>)
    requires
        breakdown_fits(line_items@),
    ensures
        is_tax_breakdown(line_items@, r@),
{
    let te = collect_tax_entries(line_items);
    let re = collect_rate_entries(line_items);
    let (tax_keys, tax_amounts) = group_entries(&te);
    let (rate_keys, rate_amounts) = group_entries(&re);
    let ghost tes = entries_view(te@);
    let ghost res = entries_view(re@);
    let no_name = String::new();
    let mut out: Vec<TaxBreakdownItem> = Vec::new();
    let mut i: usize = 0;
    while i < tax_keys.len()
        invariant
            i <= tax_keys@.len(),
            tax_keys@.len() == tax_amounts@.len(),
            no_name@ == Seq::<char>::empty(),
            grouped(res, rate_keys@, rate_amounts@),
            forall|k: int| 0 <= k < rate_keys@.len() ==> (#[trigger] rate_keys@[k]).0.wf(),
            forall|k: int| 0 <= k < tax_keys@.len() ==> (#[trigger] tax_keys@[k]).0.wf(),
            out@.len() == i,
            forall|m: int| #![trigger out@[m]] 0 <= m < i ==> {
                &&& out@[m].tax_rate == tax_keys@[m].0
                &&& out@[m].name@ == tax_keys@[m].1@
                &&& out@[m].tax_amount == tax_amounts@[m]
                &&& out@[m].taxable_amount == group_sum(res, tax_keys@[m].0, Seq::<char>::empty())
            },
        decreases tax_keys@.len() - i,
    {
        let rate = tax_keys[i].0;
        let taxable = match find_group(&rate_keys, rate, &no_name) {
            Some(k) => {
                proof {
                    lemma_grouped_get(res, rate_keys@, rate_amounts@, k as int);
                    lemma_group_sum_same_key(res, rate_keys@[k as int].0, rate_keys@[k as int].1@, rate, no_name@);
                }
                rate_amounts[k]
            },
            None => {
                proof {
                    lemma_grouped_absent(res, rate_keys@, rate_amounts@, rate, no_name@);
                }
                0
            },
        };
        out.push(TaxBreakdownItem {
            taxable_amount: taxable,
            tax_amount: tax_amounts[i],
            tax_rate: rate,
            name: tax_keys[i].1.clone(),
        });
        i = i + 1;
    }
    proof {
        reveal(grouped);
        assert(tes == tax_entries(line_items@));
        assert(res == rate_entries(line_items@));
        assert forall|j: int| 0 <= j < tes.len() implies #[trigger] breakdown_covers(out@, tes[j]) by {
            assert(key_covers(tax_keys@, tes[j]));
            let kk = choose|kk: int| #![trigger tax_keys@[kk]] 0 <= kk < tax_keys@.len() && key_match(tes[j].0, tes[j].1, tax_keys@[kk].0, tax_keys@[kk].1@);
            assert(out@[kk].tax_rate == tax_keys@[kk].0);
        }
        assert forall|m: int| 0 <= m < out@.len() implies #[trigger] item_from(tes, out@[m]) by {
            assert(out@[m].tax_rate == tax_keys@[m].0);
            assert(key_from(tes, tax_keys@[m]));
        }
        assert forall|a: int, b: int| #![trigger out@[a], out@[b]] 0 <= a < b < out@.len() implies !key_match(out@[a].tax_rate, out@[a].name@, out@[b].tax_rate, out@[b].name@) by {
            assert(out@[a].tax_rate == tax_keys@[a].0);
            assert(out@[b].tax_rate == tax_keys@[b].0);
            assert(!key_match(tax_keys@[a].0, tax_keys@[a].1@, tax_keys@[b].0, tax_keys@[b].1@));
        }
        assert forall|m: int| 0 <= m < out@.len() implies (#[trigger] out@[m]).tax_amount == group_sum(tes, out@[m].tax_rate, out@[m].name@) by {
            assert(out@[m].tax_rate == tax_keys@[m].0);
            assert(tax_amounts@[m] == group_sum(tes, tax_keys@[m].0, tax_keys@[m].1@));
        }
    }
    out
}

/// The magnitudes of the tax details' amounts, summed.
pub open spec fn detail_abs_sum(details: Seq<TaxDetail>) -> int
    decreases details.len(),
{
    if details.len() == 0 {
        0
    } else {
        detail_abs_sum(details.drop_last()) + abs_int(details.last().tax_amount as int)
    }
}

/// A bound on what a line adds to the groups of a breakdown: its tax and
/// tax details, and its taxable base once per detail (at least once).
pub open spec fn line_weight(line: CreditLine) -> int {
    abs_int(line.tax_amount as int) + detail_abs_sum(line.tax_details@)
        + abs_int(line.taxable_amount as int) * (line.tax_details@.len() + 1)
}

/// [`line_weight`] as a function value.
pub open spec fn weight_fn() -> spec_fn(CreditLine) -> int {
    |l: CreditLine| line_weight(l)
}

/// A line's weight is not negative.
pub proof fn lemma_weight_nonneg(line: CreditLine)
    ensures
        (weight_fn())(line) >= 0,
{
    lemma_detail_abs_sum_nonneg(line.tax_details@);
    let t = abs_int(line.taxable_amount as int);
    let n = line.tax_details@.len();
    assert(0 <= t * (n + 1)) by (nonlinear_arith)
        requires
            t >= 0,
            n >= 0,
    ;
}

/// The magnitudes of the entries' amounts, summed.
pub open spec fn entries_abs_total(s: Seq<(Dec, Seq<char>, int)>) -> int
    decreases s.len(),
{
    if s.len() == 0 {
        0
    } else {
        entries_abs_total(s.drop_last()) + abs_int(s.last().2)
    }
}

proof fn lemma_group_sum_le_total(s: Seq<(Dec, Seq<char>, int)>, rate: Dec, name: Seq<char>)
    ensures
        group_sum(s, rate, name) <= entries_abs_total(s),
        entries_abs_total(s) >= 0,
    decreases s.len(),
{
    if s.len() > 0 {
        lemma_group_sum_le_total(s.drop_last(), rate, name);
    }
}

proof fn lemma_entries_abs_total_concat(a: Seq<(Dec, Seq<char>, int)>, b: Seq<(Dec, Seq<char>, int)>)
    ensures
        entries_abs_total(a + b) == entries_abs_total(a) + entries_abs_total(b),
    decreases b.len(),
{
    if b.len() == 0 {
        assert(a + b =~= a);
    } else {
        lemma_entries_abs_total_concat(a, b.drop_last());
        assert((a + b).drop_last() =~= a + b.drop_last());
        assert((a + b).last() == b.last());
    }
}

proof fn lemma_detail_entries_total(details: Seq<TaxDetail>)
    ensures
        entries_abs_total(details.map_values(|d: TaxDetail| (d.tax_rate, d.tax_name@, abs_int(d.tax_amount as int))))
            == detail_abs_sum(details),
    decreases details.len(),
{
    if details.len() > 0 {
        lemma_detail_entries_total(details.drop_last());
        let f = |d: TaxDetail| (d.tax_rate, d.tax_name@, abs_int(d.tax_amount as int));
        assert(details.map_values(f).drop_last() =~= details.drop_last().map_values(f));
    }
}

proof fn lemma_detail_rate_total(details: Seq<TaxDetail>, taxable: int)
    requires
        taxable >= 0,
    ensures
        0 <= entries_abs_total(detail_rate_entries(details, taxable)) <= taxable * details.len(),
    decreases details.len(),
{
    if details.len() > 0 {
        let d = details.drop_last();
        lemma_detail_rate_total(d, taxable);
        let tail = if rate_seen_before(details, details.len() - 1) {
            Seq::<(Dec, Seq<char>, int)>::empty()
        } else {
            seq![(details.last().tax_rate, Seq::<char>::empty(), taxable)]
        };
        lemma_entries_abs_total_concat(detail_rate_entries(d, taxable), tail);
        if !rate_seen_before(details, details.len() - 1) {
            assert(entries_abs_total(tail) == taxable) by {
                assert(tail.len() == 1);
                assert(tail.drop_last() =~= Seq::<(Dec, Seq<char>, int)>::empty());
                assert(entries_abs_total(tail.drop_last()) == 0);
                assert(tail.last().2 == taxable);
            }
        }
        let n = d.len();
        assert(taxable * n + taxable == taxable * (n + 1)) by (nonlinear_arith);
        assert(0 <= taxable * n) by (nonlinear_arith)
            requires
                taxable >= 0,
                n >= 0,
        ;
    }
}

proof fn lemma_line_entries_total(line: CreditLine)
    ensures
        0 <= entries_abs_total(tax_line_entries(line)) + entries_abs_total(rate_line_entries(line)) <= line_weight(line),
{
    let t = abs_int(line.taxable_amount as int);
    let n = line.tax_details@.len();
    assert(0 <= t * (n + 1)) by (nonlinear_arith)
        requires
            t >= 0,
    ;
    lemma_detail_abs_sum_nonneg(line.tax_details@);
    if n == 0 {
        let te = tax_line_entries(line);
        let re = rate_line_entries(line);
        assert(t * (n + 1) == t) by (nonlinear_arith)
            requires
                n == 0,
        ;
        if te.len() > 0 {
            assert(te.drop_last() =~= Seq::<(Dec, Seq<char>, int)>::empty());
            assert(re.drop_last() =~= Seq::<(Dec, Seq<char>, int)>::empty());
            assert(entries_abs_total(te.drop_last()) == 0);
            assert(entries_abs_total(re.drop_last()) == 0);
            assert(entries_abs_total(te) == abs_int(line.tax_amount as int));
            assert(entries_abs_total(re) == t);
        } else {
            assert(entries_abs_total(te) == 0);
            assert(entries_abs_total(re) == 0);
        }
    } else {
        lemma_detail_entries_total(line.tax_details@);
        lemma_detail_rate_total(line.tax_details@, t);
        assert(t * n <= t * (n + 1)) by (nonlinear_arith)
            requires
                t >= 0,
        ;
    }
}

pub(crate) proof fn lemma_detail_abs_sum_nonneg(details: Seq<TaxDetail>)
    ensures
        detail_abs_sum(details) >= 0,
    decreases details.len(),
{
    if details.len() > 0 {
        lemma_detail_abs_sum_nonneg(details.drop_last());
    }
}

proof fn lemma_entries_total_by_weight(lines: Seq<CreditLine>)
    ensures
        entries_abs_total(tax_entries(lines)) + entries_abs_total(rate_entries(lines))
            <= sum_of(lines, weight_fn()),
    decreases lines.len(),
{
    if lines.len() > 0 {
        lemma_entries_total_by_weight(lines.drop_last());
        lemma_entries_abs_total_concat(tax_entries(lines.drop_last()), tax_line_entries(lines.last()));
        lemma_entries_abs_total_concat(rate_entries(lines.drop_last()), rate_line_entries(lines.last()));
        lemma_line_entries_total(lines.last());
    }
}

/// Lines whose amounts are in range and whose weights sum to at most
/// `u64::MAX` have a breakdown computed without overflow.
pub proof fn lemma_breakdown_fits_by_weight(lines: Seq<CreditLine>)
    requires
        forall|i: int| 0 <= i < lines.len() ==> line_amounts_ok(#[trigger] lines[i]),
        sum_of(lines, weight_fn()) <= u64::MAX,
    ensures
        breakdown_fits(lines),
{
    lemma_entries_total_by_weight(lines);
    let te = tax_entries(lines);
    let re = rate_entries(lines);
    lemma_group_sum_le_total(te, te.first().0, te.first().1);
    lemma_group_sum_le_total(re, re.first().0, re.first().1);
    assert forall|j: int| 0 <= j < te.len() implies #[trigger] group_sum(te, te[j].0, te[j].1) <= u64::MAX by {
        lemma_group_sum_le_total(te, te[j].0, te[j].1);
    }
    assert forall|j: int| 0 <= j < re.len() implies #[trigger] group_sum(re, re[j].0, re[j].1) <= u64::MAX by {
        lemma_group_sum_le_total(re, re[j].0, re[j].1);
    }
}

/// Total of the amounts of `entries`.
pub open spec fn entries_total(entries: Seq<(Dec, Seq<char>, int)>) -> int
    decreases entries.len(),
{
    if entries.len() == 0 {
        0
    } else {
        entries_total(entries.drop_last()) + entries.last().2
    }
}

/// Total tax of the breakdown items.
pub open spec fn breakdown_tax_total(r: Seq<TaxBreakdownItem>) -> int
    decreases r.len(),
{
    if r.len() == 0 {
        0
    } else {
        breakdown_tax_total(r.drop_last()) + r.last().tax_amount
    }
}

/// The group sums of `entries` under the keys of the items, added up.
spec fn groups_total(r: Seq<TaxBreakdownItem>, entries: Seq<(Dec, Seq<char>, int)>) -> int
    decreases r.len(),
{
    if r.len() == 0 {
        0
    } else {
        groups_total(r.drop_last(), entries) + group_sum(entries, r.last().tax_rate, r.last().name@)
    }
}

/// How many items the entry `e` counts towards.
spec fn matching_items(r: Seq<TaxBreakdownItem>, e: (Dec, Seq<char>, int)) -> nat
    decreases r.len(),
{
    if r.len() == 0 {
        0
    } else {
        matching_items(r.drop_last(), e) + if key_match(e.0, e.1, r.last().tax_rate, r.last().name@) { 1nat } else { 0nat }
    }
}

/// No two items have matching keys.
spec fn distinct_keys(r: Seq<TaxBreakdownItem>) -> bool {
    forall|i: int, m: int| #![trigger r[i], r[m]] 0 <= i < m < r.len()
        ==> !key_match(r[i].tax_rate, r[i].name@, r[m].tax_rate, r[m].name@)
}

/// One more entry adds its amount once for each item it counts towards.
proof fn lemma_groups_total_push(r: Seq<TaxBreakdownItem>, entries: Seq<(Dec, Seq<char>, int)>, e: (Dec, Seq<char>, int))
    ensures
        groups_total(r, entries.push(e)) == groups_total(r, entries) + matching_items(r, e) * e.2,
    decreases r.len(),
{
    assert(entries.push(e).drop_last() =~= entries);
    if r.len() > 0 {
        lemma_groups_total_push(r.drop_last(), entries, e);
        let m = matching_items(r.drop_last(), e) as int;
        let b: int = if key_match(e.0, e.1, r.last().tax_rate, r.last().name@) { 1 } else { 0 };
        assert(entries.push(e).last() == e);
        assert(group_sum(entries.push(e), r.last().tax_rate, r.last().name@)
            == group_sum(entries, r.last().tax_rate, r.last().name@) + b * e.2);
        assert((m + b) * e.2 == m * e.2 + b * e.2) by (nonlinear_arith);
        assert(matching_items(r, e) == m + b);
    } else {
        assert(matching_items(r, e) == 0);
        assert(0 * e.2 == 0) by (nonlinear_arith);
    }
}

/// With no entries, every group is empty.
proof fn lemma_groups_total_empty(r: Seq<TaxBreakdownItem>)
    ensures
        groups_total(r, Seq::empty()) == 0,
    decreases r.len(),
{
    if r.len() > 0 {
        lemma_groups_total_empty(r.drop_last());
    }
}

/// An entry that matches no item counts towards none.
proof fn lemma_matching_none(r: Seq<TaxBreakdownItem>, e: (Dec, Seq<char>, int))
    requires
        forall|i: int| 0 <= i < r.len() ==> !key_match(e.0, e.1, (#[trigger] r[i]).tax_rate, r[i].name@),
    ensures
        matching_items(r, e) == 0,
    decreases r.len(),
{
    if r.len() > 0 {
        let d = r.drop_last();
        assert forall|i: int| 0 <= i < d.len() implies !key_match(e.0, e.1, (#[trigger] d[i]).tax_rate, d[i].name@) by {
            assert(d[i] == r[i]);
        }
        lemma_matching_none(d, e);
        assert(r.last() == r[r.len() - 1]);
    }
}

/// An entry covered by items with pairwise distinct keys counts towards
/// exactly one of them.
proof fn lemma_matching_one(r: Seq<TaxBreakdownItem>, e: (Dec, Seq<char>, int))
    requires
        distinct_keys(r),
        breakdown_covers(r, e),
    ensures
        matching_items(r, e) == 1,
    decreases r.len(),
{
    let d = r.drop_last();
    let last = r.len() - 1;
    assert forall|i: int, m: int| #![trigger d[i], d[m]] 0 <= i < m < d.len()
        implies !key_match(d[i].tax_rate, d[i].name@, d[m].tax_rate, d[m].name@) by {
        assert(d[i] == r[i] && d[m] == r[m]);
    }
    if key_match(e.0, e.1, r[last].tax_rate, r[last].name@) {
        assert forall|i: int| 0 <= i < d.len() implies !key_match(e.0, e.1, (#[trigger] d[i]).tax_rate, d[i].name@) by {
            assert(d[i] == r[i]);
            if key_match(e.0, e.1, r[i].tax_rate, r[i].name@) {
                lemma_key_match_sym(e.0, e.1, r[i].tax_rate, r[i].name@);
                lemma_key_match_trans(r[i].tax_rate, r[i].name@, e.0, e.1, r[last].tax_rate, r[last].name@);
                assert(!key_match(r[i].tax_rate, r[i].name@, r[last].tax_rate, r[last].name@));
            }
        }
        lemma_matching_none(d, e);
        assert(r.last() == r[last]);
    } else {
        let k = choose|k: int| #![trigger r[k]] 0 <= k < r.len() && key_match(e.0, e.1, r[k].tax_rate, r[k].name@);
        assert(k < last);
        assert(d[k] == r[k]);
        assert(breakdown_covers(d, e));
        lemma_matching_one(d, e);
        assert(r.last() == r[last]);
    }
}

/// Matching keys is symmetric.
proof fn lemma_key_match_sym(r1: Dec, n1: Seq<char>, r2: Dec, n2: Seq<char>)
    requires
        key_match(r1, n1, r2, n2),
    ensures
        key_match(r2, n2, r1, n1),
{
    reveal(key_match);
}

/// Items with distinct keys covering every entry add up to all entries.
proof fn lemma_groups_total_all(r: Seq<TaxBreakdownItem>, entries: Seq<(Dec, Seq<char>, int)>)
    requires
        distinct_keys(r),
        forall|j: int| 0 <= j < entries.len() ==> #[trigger] breakdown_covers(r, entries[j]),
    ensures
        groups_total(r, entries) == entries_total(entries),
    decreases entries.len(),
{
    if entries.len() == 0 {
        lemma_groups_total_empty(r);
        assert(entries =~= Seq::<(Dec, Seq<char>, int)>::empty());
    } else {
        let d = entries.drop_last();
        let e = entries.last();
        assert forall|j: int| 0 <= j < d.len() implies #[trigger] breakdown_covers(r, d[j]) by {
            assert(d[j] == entries[j]);
        }
        lemma_groups_total_all(r, d);
        assert(breakdown_covers(r, entries[entries.len() - 1]));
        lemma_matching_one(r, e);
        lemma_groups_total_push(r, d, e);
        assert(d.push(e) =~= entries);
    }
}

/// The items' taxes are their group sums, added up.
proof fn lemma_breakdown_total_is_groups_total(r: Seq<TaxBreakdownItem>, entries: Seq<(Dec, Seq<char>, int)>)
    requires
        forall|i: int| 0 <= i < r.len() ==> (#[trigger] r[i]).tax_amount == group_sum(entries, r[i].tax_rate, r[i].name@),
    ensures
        breakdown_tax_total(r) == groups_total(r, entries),
    decreases r.len(),
{
    if r.len() > 0 {
        let d = r.drop_last();
        assert forall|i: int| 0 <= i < d.len() implies (#[trigger] d[i]).tax_amount == group_sum(entries, d[i].tax_rate, d[i].name@) by {
            assert(d[i] == r[i]);
        }
        lemma_breakdown_total_is_groups_total(d, entries);
        assert(r.last() == r[r.len() - 1]);
    }
}

/// No tax is lost or counted twice: the taxes of a breakdown add up to the
/// magnitudes of all the lines' tax entries (each detail's tax, or the tax
/// of a line without details).
pub proof fn law_breakdown_keeps_every_tax(lines: Seq<CreditLine>, r: Seq<TaxBreakdownItem>)
    requires
        is_tax_breakdown(lines, r),
    ensures
        breakdown_tax_total(r) == entries_total(tax_entries(lines)),
{
    let te = tax_entries(lines);
    lemma_breakdown_total_is_groups_total(r, te);
    lemma_groups_total_all(r, te);
}

/// `b` is detail `a` with its tax amount negated.
pub open spec fn detail_negated(a: TaxDetail, b: TaxDetail) -> bool {
    b.tax_rate == a.tax_rate && b.tax_name@ == a.tax_name@ && b.tax_amount == -a.tax_amount
}

/// `b` is line `a` with its taxable amount, its tax and every detail's tax
/// negated (rates and names kept).
pub open spec fn line_negated(a: CreditLine, b: CreditLine) -> bool {
    &&& b.taxable_amount == -a.taxable_amount
    &&& b.tax_amount == -a.tax_amount
    &&& b.tax_rate == a.tax_rate
    &&& b.tax_details@.len() == a.tax_details@.len()
    &&& forall|k: int| 0 <= k < a.tax_details@.len() ==> detail_negated(#[trigger] a.tax_details@[k], b.tax_details@[k])
}

/// Details with the same rates give the same taxable-base entries.
proof fn lemma_detail_rate_entries_same_rates(a: Seq<TaxDetail>, b: Seq<TaxDetail>, taxable: int)
    requires
        a.len() == b.len(),
        forall|k: int| 0 <= k < a.len() ==> (#[trigger] a[k]).tax_rate == b[k].tax_rate,
    ensures
        detail_rate_entries(a, taxable) == detail_rate_entries(b, taxable),
    decreases a.len(),
{
    if a.len() > 0 {
        let da = a.drop_last();
        let db = b.drop_last();
        assert forall|k: int| 0 <= k < da.len() implies (#[trigger] da[k]).tax_rate == db[k].tax_rate by {
            assert(da[k] == a[k] && db[k] == b[k]);
        }
        lemma_detail_rate_entries_same_rates(da, db, taxable);
        let j = a.len() - 1;
        assert(rate_seen_before(a, j) == rate_seen_before(b, j)) by {
            if rate_seen_before(a, j) {
                let k = choose|k: int| 0 <= k < j && same_value(#[trigger] a[k].tax_rate, a[j].tax_rate);
                assert(same_value(b[k].tax_rate, b[j].tax_rate));
            }
            if rate_seen_before(b, j) {
                let k = choose|k: int| 0 <= k < j && same_value(#[trigger] b[k].tax_rate, b[j].tax_rate);
                assert(same_value(a[k].tax_rate, a[j].tax_rate));
            }
        }
        assert(a.last().tax_rate == b.last().tax_rate);
    }
}

/// A negated line has the same entries as the line.
proof fn lemma_line_entries_negated(a: CreditLine, b: CreditLine)
    requires
        line_negated(a, b),
    ensures
        tax_line_entries(a) == tax_line_entries(b),
        rate_line_entries(a) == rate_line_entries(b),
{
    let da = a.tax_details@;
    let db = b.tax_details@;
    if da.len() > 0 {
        assert forall|k: int| 0 <= k < da.len() implies (#[trigger] da[k]).tax_rate == db[k].tax_rate by {
            assert(detail_negated(da[k], db[k]));
        }
        lemma_detail_rate_entries_same_rates(da, db, abs_int(a.taxable_amount as int));
        assert(abs_int(a.taxable_amount as int) == abs_int(b.taxable_amount as int));
        let ta = da.map_values(|d: TaxDetail| (d.tax_rate, d.tax_name@, abs_int(d.tax_amount as int)));
        let tb = db.map_values(|d: TaxDetail| (d.tax_rate, d.tax_name@, abs_int(d.tax_amount as int)));
        assert forall|k: int| 0 <= k < ta.len() implies ta[k] == tb[k] by {
            assert(detail_negated(da[k], db[k]));
        }
        assert(ta =~= tb);
    }
}

/// Negating every line changes none of the entries.
proof fn lemma_entries_negated(a: Seq<CreditLine>, b: Seq<CreditLine>)
    requires
        a.len() == b.len(),
        forall|i: int| 0 <= i < a.len() ==> line_negated(#[trigger] a[i], b[i]),
    ensures
        tax_entries(a) == tax_entries(b),
        rate_entries(a) == rate_entries(b),
    decreases a.len(),
{
    if a.len() > 0 {
        let da = a.drop_last();
        let db = b.drop_last();
        assert forall|i: int| 0 <= i < da.len() implies line_negated(#[trigger] da[i], db[i]) by {
            assert(da[i] == a[i] && db[i] == b[i]);
        }
        lemma_entries_negated(da, db);
        assert(line_negated(a[a.len() - 1], b[b.len() - 1]));
        lemma_line_entries_negated(a.last(), b.last());
    }
}

/// The breakdown reads magnitudes only: negating the taxable amount, the tax
/// and every detail's tax of every line leaves the tax breakdowns unchanged
/// (the same lists of items are breakdowns of both).
pub proof fn law_negated_lines_keep_breakdown(a: Seq<CreditLine>, b: Seq<CreditLine>, r: Seq<TaxBreakdownItem>)
    requires
        a.len() == b.len(),
        forall|i: int| 0 <= i < a.len() ==> line_negated(#[trigger] a[i], b[i]),
    ensures
        is_tax_breakdown(a, r) <==> is_tax_breakdown(b, r),
{
    lemma_entries_negated(a, b);
}

/// Two items agree on every field (names compared as text).
pub open spec fn same_item(x: TaxBreakdownItem, y: TaxBreakdownItem) -> bool {
    &&& x.tax_rate == y.tax_rate
    &&& x.name@ == y.name@
    &&& x.tax_amount == y.tax_amount
    &&& x.taxable_amount == y.taxable_amount
}

/// `x` is, field for field, one of the items of `r`.
pub open spec fn appears_in(x: TaxBreakdownItem, r: Seq<TaxBreakdownItem>) -> bool {
    exists|k: int| 0 <= k < r.len() && same_item(x, #[trigger] r[k])
}

/// Item `i` of one breakdown of `lines` appears, field for field, in any
/// other breakdown of the same lines.
proof fn lemma_item_in_other(lines: Seq<CreditLine>, r1: Seq<TaxBreakdownItem>, r2: Seq<TaxBreakdownItem>, i: int)
    requires
        is_tax_breakdown(lines, r1),
        is_tax_breakdown(lines, r2),
        0 <= i < r1.len(),
    ensures
        appears_in(r1[i], r2),
{
    let te = tax_entries(lines);
    let x = r1[i];
    assert(item_from(te, x));
    let j = choose|j: int| #![trigger te[j]] 0 <= j < te.len() && te[j].0 == x.tax_rate && te[j].1 == x.name@
        && forall|a: int| 0 <= a < j ==> !key_match((#[trigger] te[a]).0, te[a].1, x.tax_rate, x.name@);
    assert(breakdown_covers(r2, te[j]));
    let k = choose|k: int| #![trigger r2[k]] 0 <= k < r2.len() && key_match(te[j].0, te[j].1, r2[k].tax_rate, r2[k].name@);
    let y = r2[k];
    assert(item_from(te, y));
    let j2 = choose|j2: int| #![trigger te[j2]] 0 <= j2 < te.len() && te[j2].0 == y.tax_rate && te[j2].1 == y.name@
        && forall|a: int| 0 <= a < j2 ==> !key_match((#[trigger] te[a]).0, te[a].1, y.tax_rate, y.name@);
    // x's key and y's key match
    lemma_key_match_sym(te[j].0, te[j].1, y.tax_rate, y.name@);
    if j2 < j {
        assert(!key_match(te[j2].0, te[j2].1, x.tax_rate, x.name@));
        assert(key_match(te[j2].0, te[j2].1, x.tax_rate, x.name@));
    }
    if j < j2 {
        assert(!key_match(te[j].0, te[j].1, y.tax_rate, y.name@));
    }
    assert(j == j2);
    assert(same_item(x, y));
    assert(same_item(r1[i], r2[k]));
}

/// A tax breakdown is unique up to order: every item of one breakdown of
/// some lines is an item of any other breakdown of the same lines, with the
/// same rate (in the same form), name and amounts.
pub proof fn law_breakdown_is_unique(lines: Seq<CreditLine>, r1: Seq<TaxBreakdownItem>, r2: Seq<TaxBreakdownItem>)
    requires
        is_tax_breakdown(lines, r1),
        is_tax_breakdown(lines, r2),
    ensures
        forall|i: int| 0 <= i < r1.len() ==> appears_in(#[trigger] r1[i], r2),
{
    assert forall|i: int| 0 <= i < r1.len() implies appears_in(#[trigger] r1[i], r2) by {
        lemma_item_in_other(lines, r1, r2, i);
    }
}

} // verus!
