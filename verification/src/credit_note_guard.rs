//! Deciding at run time whether a credit note can be planned within machine
//! integers and `Decimal` products (see [`plan_inputs_ok`]).
use vstd::prelude::*;
use crate::credit_notes::{
    CreditLine, CreditLineItem, CreditType, Dec, TaxDetail, abs_int, sum_of, lemma_sum_of_push, lemma_sum_of_nonneg,
    DECIMAL_MAX_MANTISSA, DECIMAL_MAX_SCALE, DECIMAL_PRODUCT_BOUND,
};
use crate::tax_breakdown::{
    line_amounts_ok, line_weight, detail_abs_sum, weight_fn, lemma_weight_nonneg, lemma_detail_abs_sum_nonneg,
};
use crate::credit_note_plan::{
    IssuedCreditNote, InvoiceForCredit, CreditNoteStatus, credited_in, already_credited, notes_ok,
    plan_inputs_ok, credited_amount, abs_subtotal_fn, abs_taxes_fn, selected_lines, lines_ok, line_selected,
    lemma_selected_step, lemma_selected_prefix_sum, lemma_selected_at,
    lemma_credited_in_prefix, lemma_credited_in_nonneg, lemma_already_credited_prefix,
};

verus! {

/// What the credit notes in force credited for `id`, when it is an `i64`.
fn already_checked(notes: &Vec<IssuedCreditNote>, id: &String) -> (r: Option<i64>)
    ensures
        match r {
            Some(x) => x == already_credited(notes@, id@),
            None => already_credited(notes@, id@) > i64::MAX,
        },
{
    let mut total: i128 = 0;
    let mut i: usize = 0;
    while i < notes.len()
        invariant
            i <= notes@.len(),
            total == already_credited(notes@.take(i as int), id@),
            0 <= total <= i64::MAX,
        decreases notes@.len() - i,
    {
        let note = &notes[i];
        proof {
            assert(notes@.take(i + 1).drop_last() =~= notes@.take(i as int));
            assert(notes@.take(i + 1).last() == notes@[i as int]);
        }
        let ghost base = total as int;
        match note.status {
            CreditNoteStatus::Voided => {},
            _ => {
                let mut j: usize = 0;
                while j < note.line_items.len()
                    invariant
                        i < notes@.len(),
                        *note == notes@[i as int],
                        !(note.status is Voided),
                        j <= note.line_items@.len(),
                        base == already_credited(notes@.take(i as int), id@),
                        total == base + credited_in(note.line_items@.take(j as int), id@),
                        0 <= total <= i64::MAX,
                    decreases note.line_items@.len() - j,
                {
                    let line = &note.line_items[j];
                    proof {
                        assert(note.line_items@.take(j + 1).drop_last() =~= note.line_items@.take(j as int));
                        assert(note.line_items@.take(j + 1).last() == note.line_items@[j as int]);
                    }
                    if line.local_id == *id {
                        let a: i128 = line.amount_subtotal as i128;
                        let m: i128 = if a < 0 { -a } else { a };
                        total = total + m;
                        if total > 0x7FFF_FFFF_FFFF_FFFF {
                            proof {
                                lemma_credited_in_prefix(note.line_items@, j + 1, id@);
                                lemma_already_credited_prefix(notes@, i + 1, id@);
                                assert(notes@.take(i + 1).drop_last() =~= notes@.take(i as int));
                                assert(notes@.take(i + 1).last() == notes@[i as int]);
                                assert(already_credited(notes@.take(i + 1), id@)
                                    == already_credited(notes@.take(i as int), id@) + credited_in(note.line_items@, id@));
                            }
                            return None;
                        }
                    }
                    j = j + 1;
                }
                assert(note.line_items@.take(j as int) =~= note.line_items@);
            },
        }
        i = i + 1;
    }
    assert(notes@.take(i as int) =~= notes@);
    Some(total as i64)
}

/// Whether the credit notes in force have amounts whose magnitudes, and
/// whose sums per line id, are `i64`s (see [`notes_ok`]).
pub fn notes_in_range(notes: &Vec<IssuedCreditNote>) -> (b: bool)
    ensures
        b == notes_ok(notes@),
{
    let mut i: usize = 0;
    while i < notes.len()
        invariant
            i <= notes@.len(),
            forall|p: int, q: int|
                #![trigger notes@[p].line_items@[q]]
                0 <= p < i && !(notes@[p].status is Voided) && 0 <= q < notes@[p].line_items@.len() ==> {
                    &&& notes@[p].line_items@[q].amount_subtotal != i64::MIN
                    &&& already_credited(notes@, notes@[p].line_items@[q].local_id@) <= i64::MAX
                },
        decreases notes@.len() - i,
    {
        let note = &notes[i];
        match note.status {
            CreditNoteStatus::Voided => {},
            _ => {
                let mut j: usize = 0;
                while j < note.line_items.len()
                    invariant
                        i < notes@.len(),
                        *note == notes@[i as int],
                        !(note.status is Voided),
                        j <= note.line_items@.len(),
                        forall|p: int, q: int|
                            #![trigger notes@[p].line_items@[q]]
                            0 <= p < i && !(notes@[p].status is Voided) && 0 <= q < notes@[p].line_items@.len() ==> {
                                &&& notes@[p].line_items@[q].amount_subtotal != i64::MIN
                                &&& already_credited(notes@, notes@[p].line_items@[q].local_id@) <= i64::MAX
                            },
                        forall|q: int|
                            #![trigger notes@[i as int].line_items@[q]]
                            0 <= q < j ==> {
                                &&& notes@[i as int].line_items@[q].amount_subtotal != i64::MIN
                                &&& already_credited(notes@, notes@[i as int].line_items@[q].local_id@) <= i64::MAX
                            },
                    decreases note.line_items@.len() - j,
                {
                    let line = &note.line_items[j];
                    assert(notes@[i as int].line_items@[j as int] == *line);
                    if line.amount_subtotal == i64::MIN {
                        return false;
                    }
                    match already_checked(notes, &line.local_id) {
                        None => {
                            return false;
                        },
                        Some(_) => {},
                    }
                    j = j + 1;
                }
            },
        }
        i = i + 1;
    }
    true
}

/// Whether a decimal is within what a `Decimal` holds.
fn dec_in_range(d: Dec) -> (b: bool)
    ensures
        b == d.wf(),
{
    -DECIMAL_MAX_MANTISSA <= d.mantissa && d.mantissa <= DECIMAL_MAX_MANTISSA && d.scale <= DECIMAL_MAX_SCALE
}

/// Whether a line's amounts and rates are in range (see [`line_amounts_ok`]).
fn line_in_range(line: &CreditLine) -> (b: bool)
    ensures
        b == line_amounts_ok(*line),
{
    if line.taxable_amount == i64::MIN || line.tax_amount == i64::MIN || !dec_in_range(line.tax_rate) {
        return false;
    }
    let mut k: usize = 0;
    while k < line.tax_details.len()
        invariant
            k <= line.tax_details@.len(),
            forall|q: int| 0 <= q < k ==> {
                &&& (#[trigger] line.tax_details@[q]).tax_amount != i64::MIN
                &&& line.tax_details@[q].tax_rate.wf()
            },
        decreases line.tax_details@.len() - k,
    {
        let d = &line.tax_details[k];
        if d.tax_amount == i64::MIN || !dec_in_range(d.tax_rate) {
            return false;
        }
        k = k + 1;
    }
    true
}

/// The magnitude of an amount, widened.
fn wide_abs(x: i64) -> (r: u128)
    ensures
        r == abs_int(x as int),
{
    if x < 0 {
        (-(x as i128)) as u128
    } else {
        x as u128
    }
}

/// A line's weight (see [`line_weight`]), when it is at most `u64::MAX`.
fn weight_checked(line: &CreditLine) -> (r: Option<u64>)
    ensures
        match r {
            Some(w) => w == line_weight(*line),
            None => line_weight(*line) > u64::MAX,
        },
{
    let details = &line.tax_details;
    let mut d: u128 = 0;
    let mut k: usize = 0;
    while k < details.len()
        invariant
            details@ == line.tax_details@,
            k <= details@.len(),
            d == detail_abs_sum(details@.take(k as int)),
            d <= u64::MAX,
        decreases details@.len() - k,
    {
        proof {
            assert(details@.take(k + 1).drop_last() =~= details@.take(k as int));
            assert(details@.take(k + 1).last() == details@[k as int]);
        }
        d = d + wide_abs(details[k].tax_amount);
        if d > 0xFFFF_FFFF_FFFF_FFFF {
            proof {
                lemma_detail_abs_sum_prefix(details@, k + 1);
                lemma_detail_abs_sum_nonneg(details@);
                let t = abs_int(line.taxable_amount as int);
                let n = details@.len();
                assert(0 <= t * (n + 1)) by (nonlinear_arith)
                    requires
                        t >= 0,
                        n >= 0,
                ;
                assert(d == detail_abs_sum(details@.take(k + 1)));
                assert(details@ == line.tax_details@);
                assert(line_weight(*line) == abs_int(line.tax_amount as int) + detail_abs_sum(line.tax_details@) + t * (n + 1));
                assert(line_weight(*line) >= detail_abs_sum(details@));
            }
            return None;
        }
        k = k + 1;
    }
    assert(details@.take(k as int) =~= details@);
    let n: u128 = details.len() as u128 + 1;
    let t: u128 = wide_abs(line.taxable_amount);
    assert(t * n <= 0x8000_0000_0000_0000 * 0x1_0000_0000_0000_0000) by (nonlinear_arith)
        requires
            t <= 0x8000_0000_0000_0000,
            n <= 0x1_0000_0000_0000_0000,
    ;
    let total: u128 = wide_abs(line.tax_amount) + d + t * n;
    if total > 0xFFFF_FFFF_FFFF_FFFF {
        None
    } else {
        Some(total as u64)
    }
}

proof fn lemma_detail_abs_sum_prefix(details: Seq<TaxDetail>, k: int)
    requires
        0 <= k <= details.len(),
    ensures
        detail_abs_sum(details.take(k)) <= detail_abs_sum(details),
    decreases details.len(),
{
    if k < details.len() {
        lemma_detail_abs_sum_prefix(details.drop_last(), k);
        assert(details.drop_last().take(k) =~= details.take(k));
    } else {
        assert(details.take(k) =~= details);
    }
}

/// Whether the magnitudes and weights of the lines the request selects sum
/// within bounds.
fn sums_in_range(lines: &Vec<CreditLine>, notes: &Vec<IssuedCreditNote>, request: &Option<Vec<CreditLineItem>>) -> (b: bool)
    requires
        notes_ok(notes@),
    ensures
        b == ({
            let sel = selected_lines(lines@, notes@, *request);
            sum_of(sel, abs_subtotal_fn()) <= i64::MAX && sum_of(sel, abs_taxes_fn()) <= i64::MAX
                && sum_of(sel, weight_fn()) <= u64::MAX
        }),
{
    let mut subtotals: u128 = 0;
    let mut taxes: u128 = 0;
    let mut weights: u128 = 0;
    let mut i: usize = 0;
    proof {
        assert forall|l: CreditLine| #[trigger] (weight_fn())(l) >= 0 by {
            lemma_weight_nonneg(l);
        }
        assert(lines@.take(0) =~= Seq::<CreditLine>::empty());
    }
    while i < lines.len()
        invariant
            i <= lines@.len(),
            notes_ok(notes@),
            forall|l: CreditLine| #[trigger] (weight_fn())(l) >= 0,
            subtotals == sum_of(selected_lines(lines@.take(i as int), notes@, *request), abs_subtotal_fn()),
            taxes == sum_of(selected_lines(lines@.take(i as int), notes@, *request), abs_taxes_fn()),
            weights == sum_of(selected_lines(lines@.take(i as int), notes@, *request), weight_fn()),
            subtotals <= i64::MAX,
            taxes <= i64::MAX,
            weights <= u64::MAX,
        decreases lines@.len() - i,
    {
        let line = &lines[i];
        let ghost sel = selected_lines(lines@.take(i as int), notes@, *request);
        proof {
            lemma_selected_step(lines@, i as int, notes@, *request);
            lemma_selected_prefix_sum(lines@, i + 1, notes@, *request, abs_subtotal_fn());
            lemma_selected_prefix_sum(lines@, i + 1, notes@, *request, abs_taxes_fn());
            lemma_selected_prefix_sum(lines@, i + 1, notes@, *request, weight_fn());
            lemma_sum_of_push(sel, *line, abs_subtotal_fn());
            lemma_sum_of_push(sel, *line, abs_taxes_fn());
            lemma_sum_of_push(sel, *line, weight_fn());
        }
        if line_selected(line, notes, request) {
            subtotals = subtotals + wide_abs(line.amount_subtotal);
            taxes = taxes + wide_abs(line.taxable_amount) + wide_abs(line.tax_amount);
            let w = weight_checked(line);
            if subtotals > 0x7FFF_FFFF_FFFF_FFFF || taxes > 0x7FFF_FFFF_FFFF_FFFF {
                return false;
            }
            match w {
                None => {
                    proof {
                        lemma_sum_of_nonneg(sel, weight_fn());
                    }
                    return false;
                },
                Some(x) => {
                    weights = weights + x as u128;
                    if weights > 0xFFFF_FFFF_FFFF_FFFF {
                        return false;
                    }
                },
            }
        }
        i = i + 1;
    }
    assert(lines@.take(i as int) =~= lines@);
    true
}

/// Whether every line the request selects has its amounts in range and
/// what remains of it after earlier credit notes is an `i64`.
fn lines_in_range(lines: &Vec<CreditLine>, notes: &Vec<IssuedCreditNote>, request: &Option<Vec<CreditLineItem>>) -> (b: bool)
    requires
        notes_ok(notes@),
    ensures
        b == lines_ok(selected_lines(lines@, notes@, *request), notes@),
{
    let mut i: usize = 0;
    proof {
        assert(lines@.take(0) =~= Seq::<CreditLine>::empty());
    }
    while i < lines.len()
        invariant
            i <= lines@.len(),
            notes_ok(notes@),
            lines_ok(selected_lines(lines@.take(i as int), notes@, *request), notes@),
        decreases lines@.len() - i,
    {
        let line = &lines[i];
        let ghost sel = selected_lines(lines@.take(i as int), notes@, *request);
        proof {
            lemma_selected_step(lines@, i as int, notes@, *request);
        }
        if line_selected(line, notes, request) {
            proof {
                lemma_selected_at(lines@, i as int, notes@, *request);
            }
            if !line_in_range(line) {
                return false;
            }
            let already = credited_amount(notes, &line.local_id);
            if (line.amount_subtotal as i128) - (already as i128) < -0x8000_0000_0000_0000 {
                return false;
            }
            proof {
                let s1 = sel.push(*line);
                assert forall|k: int| 0 <= k < s1.len() implies {
                    &&& line_amounts_ok(#[trigger] s1[k])
                    &&& s1[k].amount_subtotal - already_credited(notes@, s1[k].local_id@) >= i64::MIN
                } by {
                    if k < sel.len() {
                        assert(s1[k] == sel[k]);
                    }
                }
            }
        }
        i = i + 1;
    }
    assert(lines@.take(i as int) =~= lines@);
    true
}

/// Whether the refund share of a credit of at most `s` fits a `Decimal`
/// product: `applied × s ≤ total × 2^95`.
fn refund_in_range(applied: i64, s: i64, total: i64) -> (b: bool)
    requires
        applied > 0,
        s >= 0,
        total > 0,
    ensures
        b == (applied * s <= total * DECIMAL_PRODUCT_BOUND),
{
    let a: u128 = applied as u128;
    let c: u128 = s as u128;
    assert(a * c <= 0x8000_0000_0000_0000 * 0x8000_0000_0000_0000) by (nonlinear_arith)
        requires
            a <= 0x8000_0000_0000_0000,
            c <= 0x8000_0000_0000_0000,
    ;
    let x: u128 = a * c;
    let big: u128 = 0x8000_0000_0000_0000_0000_0000;
    let q: u128 = x / big;
    let r: u128 = x % big;
    let t: u128 = total as u128;
    proof {
        assert(x == q * big + r) by (nonlinear_arith)
            requires
                q == x / big,
                r == x % big,
                big > 0,
        ;
        assert(r < big);
    }
    let ok = q < t || (q == t && r == 0);
    proof {
        if ok {
            assert(x <= t * big) by (nonlinear_arith)
                requires
                    x == q * big + r,
                    0 <= r < big,
                    q < t || (q == t && r == 0),
            ;
        } else {
            assert(x > t * big) by (nonlinear_arith)
                requires
                    x == q * big + r,
                    0 <= r < big,
                    !(q < t || (q == t && r == 0)),
            ;
        }
    }
    ok
}

/// Decides [`plan_inputs_ok`]: whether a credit note can be planned for the
/// invoice and the request without leaving machine integers or `Decimal`
/// products.
pub fn plan_inputs_in_range(
    invoice: &InvoiceForCredit,
    notes: &Vec<IssuedCreditNote>,
    request: &Option<Vec<CreditLineItem>>,
    credit_type: CreditType,
) -> (b: bool)
    ensures
        b == plan_inputs_ok(*invoice, notes@, *request, credit_type),
{
    if !notes_in_range(notes) {
        return false;
    }
    if !lines_in_range(&invoice.line_items, notes, request) {
        return false;
    }
    if !sums_in_range(&invoice.line_items, notes, request) {
        return false;
    }
    match credit_type {
        CreditType::Refund => {
            if invoice.total > 0 && invoice.applied_credits > 0 {
                let mut s: i64 = 0;
                let mut i: usize = 0;
                let lines = &invoice.line_items;
                proof {
                    assert(lines@.take(0) =~= Seq::<CreditLine>::empty());
                }
                while i < lines.len()
                    invariant
                        i <= lines@.len(),
                        lines@ == invoice.line_items@,
                        notes_ok(notes@),
                        sum_of(selected_lines(lines@, notes@, *request), abs_taxes_fn()) <= i64::MAX,
                        s == sum_of(selected_lines(lines@.take(i as int), notes@, *request), abs_taxes_fn()),
                    decreases lines@.len() - i,
                {
                    let ghost sel = selected_lines(lines@.take(i as int), notes@, *request);
                    proof {
                        lemma_selected_step(lines@, i as int, notes@, *request);
                        lemma_selected_prefix_sum(lines@, i + 1, notes@, *request, abs_taxes_fn());
                        lemma_sum_of_push(sel, lines@[i as int], abs_taxes_fn());
                        lemma_sum_of_nonneg_taxes(sel);
                    }
                    if line_selected(&lines[i], notes, request) {
                        s = s + (wide_abs(lines[i].taxable_amount) + wide_abs(lines[i].tax_amount)) as i64;
                    }
                    i = i + 1;
                }
                assert(lines@.take(i as int) =~= lines@);
                proof {
                    lemma_sum_of_nonneg_taxes(selected_lines(lines@, notes@, *request));
                }
                refund_in_range(invoice.applied_credits, s, invoice.total)
            } else {
                true
            }
        },
        CreditType::CreditToBalance => true,
    }
}

proof fn lemma_sum_of_nonneg_taxes(lines: Seq<CreditLine>)
    ensures
        sum_of(lines, abs_taxes_fn()) >= 0,
{
    crate::credit_notes::lemma_sum_of_nonneg(lines, abs_taxes_fn());
}

} // verus!
