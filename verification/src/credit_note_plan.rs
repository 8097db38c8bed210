//! Planning a credit note for an invoice: which lines are credited and by how
//! much, given what earlier credit notes credited; the negated lines, their
//! totals and tax breakdown; and how the credit splits between the
//! customer's balance and a refund.
use vstd::prelude::*;
use crate::credit_notes::{
    CreditLine, CreditLineItem, CreditType, abs_int, sum_of, negated_amounts, negate_line, negatable,
    lemma_sum_of_step, lemma_sum_of_prefix, lemma_sum_of_push, lemma_sum_of_nonneg, prorate,
    decimal_prorated, DECIMAL_PRODUCT_BOUND,
};
use crate::errors::StoreError;
use crate::tax_breakdown::{
    TaxBreakdownItem, line_amounts_ok, weight_fn, is_tax_breakdown, compute_tax_breakdown,
    lemma_breakdown_fits_by_weight, lemma_weight_nonneg,
};
use crate::text::{int_text, int_to_text, zero_padded, zero_padded_text};
use crate::payments::InvoicePaymentStatus;
use crate::credit_notes::{Dec, same_value};
use vstd::arithmetic::power::pow;
use rust_decimal::Decimal;
use rust_decimal::prelude::ToPrimitive;

verus! {

/// Lifecycle state of a credit note.
#[derive(Debug, Clone, Copy, PartialEq, Eq, Structural)]
pub enum CreditNoteStatus {
    Draft,
    Finalized,
    Voided,
}

/// A line of an existing credit note, as far as crediting reads it.
#[derive(Debug)]
pub struct CreditedLine {
    pub local_id: String,
    /// The line's subtotal on the credit note (negative for a credit).
    pub amount_subtotal: i64,
}

/// A credit note already issued for the invoice.
#[derive(Debug)]
pub struct IssuedCreditNote {
    pub status: CreditNoteStatus,
    pub line_items: Vec<CreditedLine>,
}

/// The invoice being credited, as far as crediting reads it.
#[derive(Debug)]
pub struct InvoiceForCredit {
    pub line_items: Vec<CreditLine>,
    pub total: i64,
    /// Customer balance applied to the invoice when it was paid.
    pub applied_credits: i64,
}

/// What a new credit note holds: its lines, totals, tax breakdown, and the
/// amounts credited to the balance and refunded.
#[derive(Debug)]
pub struct CreditNotePlan {
    pub line_items: Vec<CreditLine>,
    pub subtotal: i64,
    pub tax_amount: i64,
    pub total: i64,
    pub tax_breakdown: Vec<TaxBreakdownItem>,
    pub credited_amount_cents: i64,
    pub refunded_amount_cents: i64,
}

/// Magnitudes credited for `id` by the lines.
pub open spec fn credited_in(lines: Seq<CreditedLine>, id: Seq<char>) -> int
    decreases lines.len(),
{
    if lines.len() == 0 {
        0
    } else {
        credited_in(lines.drop_last(), id) + if lines.last().local_id@ == id {
            abs_int(lines.last().amount_subtotal as int)
        } else {
            0
        }
    }
}

/// What the credit notes that are not voided credited for `id`.
pub open spec fn already_credited(notes: Seq<IssuedCreditNote>, id: Seq<char>) -> int
    decreases notes.len(),
{
    if notes.len() == 0 {
        0
    } else {
        already_credited(notes.drop_last(), id) + if notes.last().status is Voided {
            0
        } else {
            credited_in(notes.last().line_items@, id)
        }
    }
}

/// The lines of credit notes in force have amounts whose magnitude is an
/// `i64`, and what they credit for each id sums to an `i64`.
pub open spec fn notes_ok(notes: Seq<IssuedCreditNote>) -> bool {
    forall|i: int, j: int|
        #![trigger notes[i].line_items@[j]]
        0 <= i < notes.len() && !(notes[i].status is Voided) && 0 <= j < notes[i].line_items@.len() ==> {
            &&& notes[i].line_items@[j].amount_subtotal != i64::MIN
            &&& already_credited(notes, notes[i].line_items@[j].local_id@) <= i64::MAX
        }
}

pub(crate) proof fn lemma_credited_in_prefix(lines: Seq<CreditedLine>, j: int, id: Seq<char>)
    requires
        0 <= j <= lines.len(),
    ensures
        0 <= credited_in(lines.take(j), id) <= credited_in(lines, id),
    decreases lines.len(),
{
    if j < lines.len() {
        lemma_credited_in_prefix(lines.drop_last(), j, id);
        assert(lines.drop_last().take(j) =~= lines.take(j));
    } else {
        assert(lines.take(j) =~= lines);
        lemma_credited_in_nonneg(lines, id);
    }
}

pub(crate) proof fn lemma_credited_in_nonneg(lines: Seq<CreditedLine>, id: Seq<char>)
    ensures
        credited_in(lines, id) >= 0,
    decreases lines.len(),
{
    if lines.len() > 0 {
        lemma_credited_in_nonneg(lines.drop_last(), id);
    }
}

pub(crate) proof fn lemma_already_credited_prefix(notes: Seq<IssuedCreditNote>, i: int, id: Seq<char>)
    requires
        0 <= i <= notes.len(),
    ensures
        0 <= already_credited(notes.take(i), id) <= already_credited(notes, id),
    decreases notes.len(),
{
    if i < notes.len() {
        lemma_already_credited_prefix(notes.drop_last(), i, id);
        assert(notes.drop_last().take(i) =~= notes.take(i));
        lemma_credited_in_nonneg(notes.last().line_items@, id);
    } else {
        assert(notes.take(i) =~= notes);
        if notes.len() > 0 {
            lemma_already_credited_prefix(notes.drop_last(), i - 1, id);
            assert(notes.drop_last().take(i - 1) =~= notes.drop_last());
            lemma_credited_in_nonneg(notes.last().line_items@, id);
        }
    }
}

/// The magnitude of an amount.
fn abs_amount(x: i64) -> (r: i64)
    requires
        x != i64::MIN,
    ensures
        r == abs_int(x as int),
{
    if x < 0 {
        -x
    } else {
        x
    }
}

/// What the credit notes in force already credited for `id`.
pub fn credited_amount(notes: &Vec<IssuedCreditNote>, id: &String) -> (r: i64)
    requires
        notes_ok(notes@),
    ensures
        r == already_credited(notes@, id@),
{
    let mut total: i64 = 0;
    let mut i: usize = 0;
    while i < notes.len()
        invariant
            i <= notes@.len(),
            notes_ok(notes@),
            total == already_credited(notes@.take(i as int), id@),
        decreases notes@.len() - i,
    {
        let note = &notes[i];
        let ghost base = total as int;
        proof {
            assert(notes@.take(i + 1).drop_last() =~= notes@.take(i as int));
            assert(notes@.take(i + 1).last() == notes@[i as int]);
        }
        match note.status {
            CreditNoteStatus::Voided => {},
            _ => {
                let mut j: usize = 0;
                while j < note.line_items.len()
                    invariant
                        i < notes@.len(),
                        *note == notes@[i as int],
                        !(note.status is Voided),
                        j <= note.line_items@.len(),
                        notes_ok(notes@),
                        base == already_credited(notes@.take(i as int), id@),
                        total == base + credited_in(note.line_items@.take(j as int), id@),
                    decreases note.line_items@.len() - j,
                {
                    let line = &note.line_items[j];
                    proof {
                        assert(note.line_items@.take(j + 1).drop_last() =~= note.line_items@.take(j as int));
                        assert(note.line_items@.take(j + 1).last() == note.line_items@[j as int]);
                    }
                    if line.local_id == *id {
                        proof {
                            assert(notes@[i as int].line_items@[j as int] == *line);
                            lemma_credited_in_prefix(note.line_items@, j + 1, id@);
                            lemma_already_credited_prefix(notes@, i + 1, id@);
                            assert(notes@.take(i + 1).drop_last() =~= notes@.take(i as int));
                            assert(notes@.take(i + 1).last() == notes@[i as int]);
                            assert(already_credited(notes@.take(i + 1), id@)
                                == already_credited(notes@.take(i as int), id@) + credited_in(note.line_items@, id@));
                            assert(line.amount_subtotal != i64::MIN);
                            assert(already_credited(notes@, line.local_id@) <= i64::MAX);
                            assert(credited_in(note.line_items@.take(j + 1), id@)
                                == credited_in(note.line_items@.take(j as int), id@) + abs_int(line.amount_subtotal as int));
                        }
                        let m = abs_amount(line.amount_subtotal);
                        total = total + m;
                    }
                    j = j + 1;
                }
                assert(note.line_items@.take(j as int) =~= note.line_items@);
            },
        }
        i = i + 1;
    }
    assert(notes@.take(i as int) =~= notes@);
    total
}

/// Some requested item names the line `id`.
pub open spec fn requested(items: Seq<CreditLineItem>, id: Seq<char>) -> bool {
    exists|k: int| #![trigger items[k]] 0 <= k < items.len() && items[k].local_id@ == id
}

/// The amount requested for `id`, read as a map filled in order: the last
/// item naming it wins; `None` when it names no amount or no item names it.
pub open spec fn requested_amount(items: Seq<CreditLineItem>, id: Seq<char>) -> Option<i64>
    decreases items.len(),
{
    if items.len() == 0 {
        None
    } else if items.last().local_id@ == id {
        items.last().amount
    } else {
        requested_amount(items.drop_last(), id)
    }
}

/// Whether some item names `id`, and the amount requested for it.
fn lookup_request(items: &Vec<CreditLineItem>, id: &String) -> (r: (bool, Option<i64>))
    ensures
        r.0 == requested(items@, id@),
        r.1 == requested_amount(items@, id@),
{
    let mut i: usize = items.len();
    assert(items@.take(i as int) =~= items@);
    while i > 0
        invariant
            i <= items@.len(),
            requested_amount(items@, id@) == requested_amount(items@.take(i as int), id@),
            forall|k: int| i <= k < items@.len() ==> (#[trigger] items@[k]).local_id@ != id@,
        decreases i,
    {
        proof {
            assert(items@.take(i as int).drop_last() =~= items@.take(i - 1));
            assert(items@.take(i as int).last() == items@[i - 1]);
        }
        if items[i - 1].local_id == *id {
            return (true, items[i - 1].amount);
        }
        i = i - 1;
    }
    (false, None)
}

/// The line is credited: when no line is named, a line with something left
/// to credit; otherwise a line the request names.
pub open spec fn selects(request: Option<Vec<CreditLineItem>>, notes: Seq<IssuedCreditNote>, line: CreditLine) -> bool {
    match request {
        Some(items) => if items@.len() == 0 {
            line.amount_subtotal > already_credited(notes, line.local_id@)
        } else {
            requested(items@, line.local_id@)
        },
        None => line.amount_subtotal > already_credited(notes, line.local_id@),
    }
}

/// The amount the request asks for the line `id`.
pub open spec fn asked_amount(request: Option<Vec<CreditLineItem>>, id: Seq<char>) -> Option<i64> {
    match request {
        Some(items) => requested_amount(items@, id),
        None => None,
    }
}

/// The lines the request credits, in invoice order.
pub open spec fn selected_lines(lines: Seq<CreditLine>, notes: Seq<IssuedCreditNote>, request: Option<Vec<CreditLineItem>>) -> Seq<CreditLine>
    decreases lines.len(),
{
    if lines.len() == 0 {
        seq![]
    } else {
        selected_lines(lines.drop_last(), notes, request) + if selects(request, notes, lines.last()) {
            seq![lines.last()]
        } else {
            Seq::<CreditLine>::empty()
        }
    }
}

/// Text of the error for a negative requested amount.
pub open spec fn negative_amount_text(id: Seq<char>) -> Seq<char> {
    "Credit amount for line item '"@ + id + "' must be positive"@
}

/// Text of the error for a requested amount above what remains.
pub open spec fn excess_amount_text(amount: int, id: Seq<char>, remaining: int, original: int, already: int) -> Seq<char> {
    "Credit amount "@ + int_text(amount) + " for line item '"@ + id + "' exceeds remaining creditable amount "@
        + int_text(remaining) + " (original: "@ + int_text(original) + ", already credited: "@ + int_text(already) + ")"@
}

/// Text of the error for a line with nothing left to credit.
pub open spec fn fully_credited_text(id: Seq<char>) -> Seq<char> {
    "Line item '"@ + id + "' has already been fully credited"@
}

/// The amount to credit on a selected line, or the text of the error that
/// refuses it: a requested amount must be at least 0 and at most what
/// remains (subtotal minus what was already credited); without one, what
/// remains is credited, and must be positive.
pub open spec fn credit_check(line: CreditLine, notes: Seq<IssuedCreditNote>, request: Option<Vec<CreditLineItem>>) -> Result<int, Seq<char>> {
    let id = line.local_id@;
    let already = already_credited(notes, id);
    let remaining = line.amount_subtotal - already;
    match asked_amount(request, id) {
        Some(a) => if a < 0 {
            Err(negative_amount_text(id))
        } else if a > remaining {
            Err(excess_amount_text(a as int, id, remaining, line.amount_subtotal as int, already))
        } else {
            Ok(a as int)
        },
        None => if remaining <= 0 {
            Err(fully_credited_text(id))
        } else {
            Ok(remaining)
        },
    }
}

/// The amount credited on a line that passes its check.
pub open spec fn credit_amount(line: CreditLine, notes: Seq<IssuedCreditNote>, request: Option<Vec<CreditLineItem>>) -> int {
    match credit_check(line, notes, request) {
        Ok(c) => c,
        Err(_) => 0,
    }
}

/// The error of the first selected line that fails its check, if any.
pub open spec fn first_failure(sel: Seq<CreditLine>, notes: Seq<IssuedCreditNote>, request: Option<Vec<CreditLineItem>>) -> Option<Seq<char>>
    decreases sel.len(),
{
    if sel.len() == 0 {
        None
    } else {
        match first_failure(sel.drop_last(), notes, request) {
            Some(m) => Some(m),
            None => match credit_check(sel.last(), notes, request) {
                Err(m) => Some(m),
                Ok(_) => None,
            },
        }
    }
}

/// The part of `total` that a credit note credits: its magnitude, as
/// `unsigned_abs` then a cast back to `i64` gives it.
pub open spec fn credit_total(total: i64) -> int {
    if total == i64::MIN {
        i64::MIN as int
    } else {
        abs_int(total as int)
    }
}

/// How a credit of `total` splits into (credited to balance, refunded): all
/// to the balance for a balance credit; for a refund, the share of the
/// invoice's applied credits that the credit covers goes back to the
/// balance and the rest is refunded.
pub open spec fn credit_split(credit_type: CreditType, total: i64, invoice_total: i64, applied_credits: i64) -> (int, int) {
    let c = credit_total(total);
    match credit_type {
        CreditType::CreditToBalance => (c, 0),
        CreditType::Refund => if invoice_total > 0 && applied_credits > 0 {
            let back = decimal_prorated(applied_credits as int, c, invoice_total as int);
            (back, c - back)
        } else {
            (0, c)
        },
    }
}

/// Inputs on which the split is computed without overflow.
pub open spec fn split_in_range(credit_type: CreditType, total: i64, invoice_total: i64, applied_credits: i64) -> bool {
    (credit_type is Refund && invoice_total > 0 && applied_credits > 0) ==>
        applied_credits * abs_int(credit_total(total)) <= invoice_total * DECIMAL_PRODUCT_BOUND
}

/// Splits the credit of a credit note with total `total` between the
/// customer's balance and a refund (see [`credit_split`]).
pub fn split_credit(credit_type: CreditType, total: i64, invoice_total: i64, applied_credits: i64) -> (r: (i64, i64))
    requires
        split_in_range(credit_type, total, invoice_total, applied_credits),
    ensures
        (r.0 as int, r.1 as int) == credit_split(credit_type, total, invoice_total, applied_credits),
{
    let credit: i64 = if total == i64::MIN {
        i64::MIN
    } else if total < 0 {
        -total
    } else {
        total
    };
    match credit_type {
        CreditType::CreditToBalance => (credit, 0),
        CreditType::Refund => {
            if invoice_total > 0 && applied_credits > 0 {
                let back = prorate(applied_credits, credit, invoice_total);
                (back, credit - back)
            } else {
                (0, credit)
            }
        },
    }
}

/// The error text for a negative requested amount.
fn negative_amount_message(id: &String) -> (m: String)
    ensures
        m@ == negative_amount_text(id@),
{
    let mut m = "Credit amount for line item '".to_owned();
    m.append(id.as_str());
    m.append("' must be positive");
    m
}

/// The error text for a requested amount above what remains.
fn excess_amount_message(amount: i64, id: &String, remaining: i64, original: i64, already: i64) -> (m: String)
    ensures
        m@ == excess_amount_text(amount as int, id@, remaining as int, original as int, already as int),
{
    let mut m = "Credit amount ".to_owned();
    m.append(int_to_text(amount).as_str());
    m.append(" for line item '");
    m.append(id.as_str());
    m.append("' exceeds remaining creditable amount ");
    m.append(int_to_text(remaining).as_str());
    m.append(" (original: ");
    m.append(int_to_text(original).as_str());
    m.append(", already credited: ");
    m.append(int_to_text(already).as_str());
    m.append(")");
    m
}

/// The error text for a line with nothing left to credit.
fn fully_credited_message(id: &String) -> (m: String)
    ensures
        m@ == fully_credited_text(id@),
{
    let mut m = "Line item '".to_owned();
    m.append(id.as_str());
    m.append("' has already been fully credited");
    m
}

/// `r` carries the outcome `c` of a check: the amount, or an
/// `InvalidArgument` error with the check's text.
pub open spec fn check_outcome(c: Result<int, Seq<char>>, r: Result<i64, StoreError>) -> bool {
    match c {
        Ok(a) => r matches Ok(x) && x == a,
        Err(m) => r matches Err(StoreError::InvalidArgument(x)) && x@ == m,
    }
}

/// Checks the amount to credit on a selected line (see [`credit_check`]),
/// given what was already credited for it and what the request asks.
fn check_line(
    line: &CreditLine,
    notes: &Vec<IssuedCreditNote>,
    request: &Option<Vec<CreditLineItem>>,
    already: i64,
    asked: Option<i64>,
) -> (r: Result<i64, StoreError>)
    requires
        already == already_credited(notes@, line.local_id@),
        asked == asked_amount(*request, line.local_id@),
        line.amount_subtotal - already >= i64::MIN,
        already >= 0,
    ensures
        check_outcome(credit_check(*line, notes@, *request), r),
{
    let remaining = line.amount_subtotal - already;
    match asked {
        Some(a) => {
            if a < 0 {
                Err(StoreError::InvalidArgument(negative_amount_message(&line.local_id)))
            } else if a > remaining {
                Err(StoreError::InvalidArgument(excess_amount_message(a, &line.local_id, remaining, line.amount_subtotal, already)))
            } else {
                Ok(a)
            }
        },
        None => {
            if remaining <= 0 {
                Err(StoreError::InvalidArgument(fully_credited_message(&line.local_id)))
            } else {
                Ok(remaining)
            }
        },
    }
}

/// A line's subtotal, as a function value.
pub open spec fn subtotal_fn() -> spec_fn(CreditLine) -> int {
    |l: CreditLine| l.amount_subtotal as int
}

/// A line's tax, as a function value.
pub open spec fn tax_fn() -> spec_fn(CreditLine) -> int {
    |l: CreditLine| l.tax_amount as int
}

/// A line's total, as a function value.
pub open spec fn total_fn() -> spec_fn(CreditLine) -> int {
    |l: CreditLine| l.amount_total as int
}

/// The magnitude of a line's subtotal, as a function value.
pub open spec fn abs_subtotal_fn() -> spec_fn(CreditLine) -> int {
    |l: CreditLine| abs_int(l.amount_subtotal as int)
}

/// The magnitudes of a line's taxable amount and tax, summed, as a function
/// value.
pub open spec fn abs_taxes_fn() -> spec_fn(CreditLine) -> int {
    |l: CreditLine| abs_int(l.taxable_amount as int) + abs_int(l.tax_amount as int)
}

/// The lines' amounts are in range and what remains of each after earlier
/// credit notes is an `i64`.
pub open spec fn lines_ok(sel: Seq<CreditLine>, notes: Seq<IssuedCreditNote>) -> bool {
    forall|k: int| #![trigger sel[k]] 0 <= k < sel.len() ==> {
        &&& line_amounts_ok(sel[k])
        &&& sel[k].amount_subtotal - already_credited(notes, sel[k].local_id@) >= i64::MIN
    }
}

/// Whether the request selects the line (see [`selects`]).
pub(crate) fn line_selected(line: &CreditLine, notes: &Vec<IssuedCreditNote>, request: &Option<Vec<CreditLineItem>>) -> (b: bool)
    requires
        notes_ok(notes@),
    ensures
        b == selects(*request, notes@, *line),
{
    match request {
        Some(items) => if items.len() == 0 {
            line.amount_subtotal > credited_amount(notes, &line.local_id)
        } else {
            lookup_request(items, &line.local_id).0
        },
        None => line.amount_subtotal > credited_amount(notes, &line.local_id),
    }
}

/// Inputs on which planning stays within machine integers and `Decimal`
/// products: the amounts of the lines to credit and their sums fit, and so
/// does the refund share.
pub open spec fn plan_inputs_ok(
    invoice: InvoiceForCredit,
    notes: Seq<IssuedCreditNote>,
    request: Option<Vec<CreditLineItem>>,
    credit_type: CreditType,
) -> bool {
    let sel = selected_lines(invoice.line_items@, notes, request);
    &&& notes_ok(notes)
    &&& lines_ok(sel, notes)
    &&& sum_of(sel, abs_subtotal_fn()) <= i64::MAX
    &&& sum_of(sel, abs_taxes_fn()) <= i64::MAX
    &&& sum_of(sel, weight_fn()) <= u64::MAX
    &&& (credit_type is Refund && invoice.total > 0 && invoice.applied_credits > 0) ==>
        invoice.applied_credits * sum_of(sel, abs_taxes_fn()) <= invoice.total * DECIMAL_PRODUCT_BOUND
}

/// The lines selected from a prefix sum to at most what the whole selection
/// sums to, for `f` not negative.
pub(crate) proof fn lemma_selected_prefix_sum(
    lines: Seq<CreditLine>,
    i: int,
    notes: Seq<IssuedCreditNote>,
    request: Option<Vec<CreditLineItem>>,
    f: spec_fn(CreditLine) -> int,
)
    requires
        0 <= i <= lines.len(),
        forall|l: CreditLine| #[trigger] f(l) >= 0,
    ensures
        sum_of(selected_lines(lines.take(i), notes, request), f) <= sum_of(selected_lines(lines, notes, request), f),
{
    lemma_selected_split(lines, i, notes, request);
    let a = selected_lines(lines.take(i), notes, request);
    let b = selected_lines(lines.skip(i), notes, request);
    assert((a + b).take(a.len() as int) =~= a);
    lemma_sum_of_prefix(a + b, a.len() as int, f);
}

/// A selected line sits in the whole selection right after the lines
/// selected before it.
pub(crate) proof fn lemma_selected_at(lines: Seq<CreditLine>, i: int, notes: Seq<IssuedCreditNote>, request: Option<Vec<CreditLineItem>>)
    requires
        0 <= i < lines.len(),
        selects(request, notes, lines[i]),
    ensures
        selected_lines(lines.take(i), notes, request).len() < selected_lines(lines, notes, request).len(),
        selected_lines(lines, notes, request)[selected_lines(lines.take(i), notes, request).len() as int] == lines[i],
{
    lemma_selected_split(lines, i + 1, notes, request);
    lemma_selected_step(lines, i, notes, request);
}

/// The plan is what the selected lines give: each negated with its credited
/// amount, the sums of the negated lines, their tax breakdown, and the split
/// of the credit.
pub open spec fn plan_matches(
    sel: Seq<CreditLine>,
    notes: Seq<IssuedCreditNote>,
    request: Option<Vec<CreditLineItem>>,
    invoice: InvoiceForCredit,
    credit_type: CreditType,
    plan: CreditNotePlan,
) -> bool {
    &&& plan.line_items@.len() == sel.len()
    &&& forall|k: int| 0 <= k < sel.len() ==> negated_amounts(#[trigger] sel[k], Some(credit_amount(sel[k], notes, request) as i64), plan.line_items@[k])
    &&& plan.subtotal == sum_of(plan.line_items@, subtotal_fn())
    &&& plan.tax_amount == sum_of(plan.line_items@, tax_fn())
    &&& plan.total == sum_of(plan.line_items@, total_fn())
    &&& is_tax_breakdown(plan.line_items@, plan.tax_breakdown@)
    &&& (plan.credited_amount_cents as int, plan.refunded_amount_cents as int)
        == credit_split(credit_type, plan.total, invoice.total, invoice.applied_credits)
}

/// What planning answers: with no line to credit, an `InvalidArgument`
/// error "No line items to credit"; otherwise the error of the first
/// selected line that fails its check; otherwise the plan.
pub open spec fn plan_outcome(
    invoice: InvoiceForCredit,
    notes: Seq<IssuedCreditNote>,
    request: Option<Vec<CreditLineItem>>,
    credit_type: CreditType,
    r: Result<CreditNotePlan, StoreError>,
) -> bool {
    let sel = selected_lines(invoice.line_items@, notes, request);
    if sel.len() == 0 {
        r matches Err(StoreError::InvalidArgument(m)) && m@ == "No line items to credit"@
    } else {
        match first_failure(sel, notes, request) {
            Some(msg) => r matches Err(StoreError::InvalidArgument(m)) && m@ == msg,
            None => r matches Ok(plan) && plan_matches(sel, notes, request, invoice, credit_type, plan),
        }
    }
}

/// The lines selected from a prefix come first among those selected from
/// the whole.
pub(crate) proof fn lemma_selected_split(lines: Seq<CreditLine>, i: int, notes: Seq<IssuedCreditNote>, request: Option<Vec<CreditLineItem>>)
    requires
        0 <= i <= lines.len(),
    ensures
        selected_lines(lines, notes, request)
            == selected_lines(lines.take(i), notes, request) + selected_lines(lines.skip(i), notes, request),
    decreases lines.len(),
{
    if i == lines.len() {
        assert(lines.take(i) =~= lines);
        assert(lines.skip(i) =~= Seq::<CreditLine>::empty());
        assert(selected_lines(lines, notes, request) + Seq::<CreditLine>::empty() =~= selected_lines(lines, notes, request));
    } else {
        let d = lines.drop_last();
        lemma_selected_split(d, i, notes, request);
        assert(d.take(i) =~= lines.take(i));
        assert(lines.skip(i).drop_last() =~= d.skip(i));
        assert(lines.skip(i).last() == lines.last());
        let tail = if selects(request, notes, lines.last()) { seq![lines.last()] } else { Seq::<CreditLine>::empty() };
        assert(selected_lines(lines, notes, request) =~= selected_lines(lines.take(i), notes, request)
            + selected_lines(lines.skip(i), notes, request));
    }
}

/// Selection of one more line of a prefix.
pub(crate) proof fn lemma_selected_step(lines: Seq<CreditLine>, i: int, notes: Seq<IssuedCreditNote>, request: Option<Vec<CreditLineItem>>)
    requires
        0 <= i < lines.len(),
    ensures
        selected_lines(lines.take(i + 1), notes, request) == if selects(request, notes, lines[i]) {
            selected_lines(lines.take(i), notes, request).push(lines[i])
        } else {
            selected_lines(lines.take(i), notes, request)
        },
{
    assert(lines.take(i + 1).drop_last() =~= lines.take(i));
    assert(lines.take(i + 1).last() == lines[i]);
    let s = selected_lines(lines.take(i), notes, request);
    assert(s + seq![lines[i]] =~= s.push(lines[i]));
    assert(s + Seq::<CreditLine>::empty() =~= s);
}

/// A failure in a prefix is the first failure of the whole.
proof fn lemma_first_failure_prefix(a: Seq<CreditLine>, b: Seq<CreditLine>, notes: Seq<IssuedCreditNote>, request: Option<Vec<CreditLineItem>>)
    requires
        first_failure(a, notes, request) is Some,
    ensures
        first_failure(a + b, notes, request) == first_failure(a, notes, request),
    decreases b.len(),
{
    if b.len() == 0 {
        assert(a + b =~= a);
    } else {
        lemma_first_failure_prefix(a, b.drop_last(), notes, request);
        assert((a + b).drop_last() =~= a + b.drop_last());
    }
}

/// What one credited line adds to the running state of planning.
proof fn lemma_plan_step(line: CreditLine, neg: CreditLine, c: int)
    requires
        line_amounts_ok(line),
        0 <= c <= line.amount_subtotal,
        negated_amounts(line, Some(c as i64), neg),
        abs_int(neg.taxable_amount as int) <= abs_int(line.taxable_amount as int),
        abs_int(neg.tax_amount as int) <= abs_int(line.tax_amount as int),
        neg.amount_total == neg.taxable_amount + neg.tax_amount,
    ensures
        line_amounts_ok(neg),
        abs_int(neg.amount_subtotal as int) <= abs_int(line.amount_subtotal as int),
        (abs_taxes_fn())(neg) <= (abs_taxes_fn())(line),
        abs_int(neg.tax_amount as int) <= (abs_taxes_fn())(neg),
        abs_int(neg.amount_total as int) <= (abs_taxes_fn())(neg),
        (weight_fn())(neg) <= (weight_fn())(line),
{
    assert(neg.tax_details@ == line.tax_details@);
    let n = line.tax_details@.len();
    let a = abs_int(neg.taxable_amount as int);
    let b = abs_int(line.taxable_amount as int);
    assert(a * (n + 1) <= b * (n + 1)) by (nonlinear_arith)
        requires
            0 <= a <= b,
            n >= 0,
    ;
    assert forall|k: int| 0 <= k < neg.tax_details@.len() implies {
        &&& (#[trigger] neg.tax_details@[k]).tax_amount != i64::MIN
        &&& neg.tax_details@[k].tax_rate.wf()
    } by {
        assert(neg.tax_details@[k] == line.tax_details@[k]);
    }
}

/// Plans a credit note for `invoice`. The lines credited are, when the
/// request names no line (`None` or empty), every line with something left
/// to credit, and otherwise the lines it names. Each credited line is
/// checked (see [`credit_check`]) and negated with its amount (see
/// [`negate_line`]); the plan sums the negated lines, computes their tax
/// breakdown, and splits the credit between balance and refund.
pub fn plan_credit_note(
    invoice: &InvoiceForCredit,
    notes: &Vec<IssuedCreditNote>,
    request: &Option<Vec<CreditLineItem>>,
    credit_type: CreditType,
) -> (r: Result<CreditNotePlan, StoreError>)
    requires
        plan_inputs_ok(*invoice, notes@, *request, credit_type),
    ensures
        plan_outcome(*invoice, notes@, *request, credit_type, r),
{
    let lines = &invoice.line_items;
    let ghost all = lines@;
    let mut out: Vec<CreditLine> = Vec::new();
    let mut subtotal: i64 = 0;
    let mut tax_amount: i64 = 0;
    let mut total: i64 = 0;
    let mut i: usize = 0;
    proof {
        assert(all.take(0) =~= Seq::<CreditLine>::empty());
        lemma_sum_of_nonneg(all, abs_subtotal_fn());
        lemma_sum_of_nonneg(all, abs_taxes_fn());
    }
    while i < lines.len()
        invariant
            all == invoice.line_items@,
            lines == &invoice.line_items,
            i <= all.len(),
            plan_inputs_ok(*invoice, notes@, *request, credit_type),
            first_failure(selected_lines(all.take(i as int), notes@, *request), notes@, *request) is None,
            out@.len() == selected_lines(all.take(i as int), notes@, *request).len(),
            forall|k: int| 0 <= k < out@.len() ==> {
                &&& negated_amounts(
                    #[trigger] selected_lines(all.take(i as int), notes@, *request)[k],
                    Some(credit_amount(selected_lines(all.take(i as int), notes@, *request)[k], notes@, *request) as i64),
                    out@[k],
                )
            },
            forall|k: int| 0 <= k < out@.len() ==> line_amounts_ok(#[trigger] out@[k]),
            subtotal == sum_of(out@, subtotal_fn()),
            tax_amount == sum_of(out@, tax_fn()),
            total == sum_of(out@, total_fn()),
            abs_int(subtotal as int) <= sum_of(selected_lines(all.take(i as int), notes@, *request), abs_subtotal_fn()),
            abs_int(tax_amount as int) <= sum_of(out@, abs_taxes_fn()),
            abs_int(total as int) <= sum_of(out@, abs_taxes_fn()),
            sum_of(out@, abs_taxes_fn()) <= sum_of(selected_lines(all.take(i as int), notes@, *request), abs_taxes_fn()),
            sum_of(out@, weight_fn()) <= sum_of(selected_lines(all.take(i as int), notes@, *request), weight_fn()),
        decreases all.len() - i,
    {
        let line = &lines[i];
        let ghost sel = selected_lines(all.take(i as int), notes@, *request);
        proof {
            lemma_selected_step(all, i as int, notes@, *request);
            lemma_selected_prefix_sum(all, i + 1, notes@, *request, abs_subtotal_fn());
            lemma_selected_prefix_sum(all, i + 1, notes@, *request, abs_taxes_fn());
            lemma_sum_of_nonneg(sel, abs_taxes_fn());
            lemma_weight_nonneg(all[i as int]);
            lemma_sum_of_push(sel, all[i as int], abs_subtotal_fn());
            lemma_sum_of_push(sel, all[i as int], abs_taxes_fn());
            lemma_sum_of_push(sel, all[i as int], weight_fn());
            if selects(*request, notes@, all[i as int]) {
                lemma_selected_at(all, i as int, notes@, *request);
                assert(line_amounts_ok(all[i as int]));
            }
        }
        let already = credited_amount(notes, &line.local_id);
        proof {
            lemma_already_credited_prefix(notes@, 0, line.local_id@);
        }
        let (named, asked) = match request {
            Some(items) => lookup_request(items, &line.local_id),
            None => (false, None),
        };
        let chosen = match request {
            Some(items) => if items.len() == 0 {
                line.amount_subtotal > already
            } else {
                named
            },
            None => line.amount_subtotal > already,
        };
        if chosen {
            let checked = check_line(line, notes, request, already, asked);
            let c = match checked {
                Ok(c) => c,
                Err(e) => {
                    proof {
                        let sel1 = sel.push(*line);
                        assert(sel1.drop_last() =~= sel);
                        lemma_selected_split(all, i + 1, notes@, *request);
                        lemma_first_failure_prefix(sel1, selected_lines(all.skip(i + 1), notes@, *request), notes@, *request);
                    }
                    return Err(e);
                },
            };
            proof {
                lemma_sum_of_prefix(all, i + 1, abs_taxes_fn());
                assert(0 <= c <= line.amount_subtotal);
                assert(abs_int(line.taxable_amount as int) + abs_int(line.tax_amount as int) <= i64::MAX);
                assert(negatable(*line, Some(c)));
            }
            let neg = negate_line(line, Some(c));
            proof {
                lemma_plan_step(*line, neg, c as int);
                lemma_sum_of_push(out@, neg, subtotal_fn());
                lemma_sum_of_push(out@, neg, tax_fn());
                lemma_sum_of_push(out@, neg, total_fn());
                lemma_sum_of_push(out@, neg, abs_taxes_fn());
                lemma_sum_of_push(out@, neg, weight_fn());
                let sel1 = sel.push(*line);
                assert(sel1.drop_last() =~= sel);
            }
            subtotal = subtotal + neg.amount_subtotal;
            tax_amount = tax_amount + neg.tax_amount;
            total = total + neg.amount_total;
            out.push(neg);
        }
        i = i + 1;
    }
    proof {
        assert(all.take(i as int) =~= all);
    }
    if out.len() == 0 {
        return Err(StoreError::InvalidArgument("No line items to credit".to_owned()));
    }
    proof {
        lemma_breakdown_fits_by_weight(out@);
    }
    let tax_breakdown = compute_tax_breakdown(&out);
    proof {
        let s = sum_of(selected_lines(all, notes@, *request), abs_taxes_fn());
        if credit_type is Refund && invoice.total > 0 && invoice.applied_credits > 0 {
            let a = invoice.applied_credits as int;
            let t = abs_int(total as int);
            assert(a * t <= a * s) by (nonlinear_arith)
                requires
                    a > 0,
                    0 <= t <= s,
            ;
        }
    }
    let (credited, refunded) = split_credit(credit_type, total, invoice.total, invoice.applied_credits);
    Ok(CreditNotePlan {
        line_items: out,
        subtotal,
        tax_amount,
        total,
        tax_breakdown,
        credited_amount_cents: credited,
        refunded_amount_cents: refunded,
    })
}

/// Each selected line of a plan without failure passes its check.
proof fn lemma_no_failure_all_pass(sel: Seq<CreditLine>, notes: Seq<IssuedCreditNote>, request: Option<Vec<CreditLineItem>>, k: int)
    requires
        first_failure(sel, notes, request) is None,
        0 <= k < sel.len(),
    ensures
        credit_check(sel[k], notes, request) is Ok,
    decreases sel.len(),
{
    if k < sel.len() - 1 {
        lemma_no_failure_all_pass(sel.drop_last(), notes, request, k);
    }
}

/// A credit is split whole: what goes back to the balance and what is
/// refunded add up to the credit note's credit (the magnitude of its total),
/// and a balance credit refunds nothing.
pub proof fn law_credit_split_is_whole(credit_type: CreditType, total: i64, invoice_total: i64, applied_credits: i64)
    ensures
        credit_split(credit_type, total, invoice_total, applied_credits).0
            + credit_split(credit_type, total, invoice_total, applied_credits).1 == credit_total(total),
        credit_type is CreditToBalance ==> credit_split(credit_type, total, invoice_total, applied_credits).1 == 0,
{
}

/// A credit note never credits a line beyond what remains of it: every
/// credited amount is at least zero, and with what earlier credit notes in
/// force credited it stays within the line's subtotal.
pub proof fn law_credit_within_remaining(
    invoice: InvoiceForCredit,
    notes: Seq<IssuedCreditNote>,
    request: Option<Vec<CreditLineItem>>,
    credit_type: CreditType,
    r: Result<CreditNotePlan, StoreError>,
    k: int,
)
    requires
        plan_outcome(invoice, notes, request, credit_type, r),
        r is Ok,
        0 <= k < selected_lines(invoice.line_items@, notes, request).len(),
    ensures
        ({
            let line = selected_lines(invoice.line_items@, notes, request)[k];
            let c = credit_amount(line, notes, request);
            0 <= c && already_credited(notes, line.local_id@) + c <= line.amount_subtotal
        }),
{
    let sel = selected_lines(invoice.line_items@, notes, request);
    lemma_no_failure_all_pass(sel, notes, request, k);
}

/// The lines of a credit note as later credit notes read them back: their
/// ids and subtotals.
pub open spec fn recorded_lines(lines: Seq<CreditLine>) -> Seq<CreditedLine> {
    lines.map_values(|l: CreditLine| CreditedLine { local_id: l.local_id, amount_subtotal: l.amount_subtotal })
}

/// A selected line sits at some position of the selection.
proof fn lemma_selected_member(lines: Seq<CreditLine>, notes: Seq<IssuedCreditNote>, request: Option<Vec<CreditLineItem>>, i: int)
    requires
        0 <= i < lines.len(),
        selects(request, notes, lines[i]),
    ensures
        exists|k: int| 0 <= k < selected_lines(lines, notes, request).len()
            && #[trigger] selected_lines(lines, notes, request)[k] == lines[i],
    decreases lines.len(),
{
    let sel = selected_lines(lines, notes, request);
    let d = lines.drop_last();
    let prev = selected_lines(d, notes, request);
    if i < lines.len() - 1 {
        lemma_selected_member(d, notes, request, i);
        let k = choose|k: int| 0 <= k < prev.len() && #[trigger] prev[k] == d[i];
        assert(sel[k] == prev[k]);
    } else {
        assert(sel[prev.len() as int] == lines.last());
    }
}

/// No line selected gives an empty selection.
proof fn lemma_selected_none(lines: Seq<CreditLine>, notes: Seq<IssuedCreditNote>, request: Option<Vec<CreditLineItem>>)
    requires
        forall|i: int| 0 <= i < lines.len() ==> !selects(request, notes, #[trigger] lines[i]),
    ensures
        selected_lines(lines, notes, request).len() == 0,
    decreases lines.len(),
{
    if lines.len() > 0 {
        lemma_selected_none(lines.drop_last(), notes, request);
        assert(!selects(request, notes, lines[lines.len() - 1]));
    }
}

/// What a credited line contributes is part of what is credited for its id.
proof fn lemma_credited_in_member(lines: Seq<CreditedLine>, k: int, id: Seq<char>)
    requires
        0 <= k < lines.len(),
        lines[k].local_id@ == id,
    ensures
        credited_in(lines, id) >= abs_int(lines[k].amount_subtotal as int),
    decreases lines.len(),
{
    if k < lines.len() - 1 {
        lemma_credited_in_member(lines.drop_last(), k, id);
    } else {
        lemma_credited_in_nonneg(lines.drop_last(), id);
    }
}

/// Crediting everything that remains leaves nothing to credit: once a credit
/// note planned for all remaining amounts is recorded (and not voided), the
/// same request selects no line, and is answered "No line items to credit".
pub proof fn law_credit_all_leaves_nothing(
    invoice: InvoiceForCredit,
    notes: Seq<IssuedCreditNote>,
    credit_type: CreditType,
    r: Result<CreditNotePlan, StoreError>,
    n: IssuedCreditNote,
)
    requires
        plan_outcome(invoice, notes, None, credit_type, r),
        r matches Ok(plan) && n.line_items@ == recorded_lines(plan.line_items@),
        !(n.status is Voided),
    ensures
        selected_lines(invoice.line_items@, notes.push(n), None).len() == 0,
        forall|r2: Result<CreditNotePlan, StoreError>| #[trigger] plan_outcome(invoice, notes.push(n), None, credit_type, r2)
            ==> (r2 matches Err(StoreError::InvalidArgument(m)) && m@ == "No line items to credit"@),
{
    let lines = invoice.line_items@;
    let notes2 = notes.push(n);
    let sel = selected_lines(lines, notes, None);
    let plan = r->Ok_0;
    assert(sel.len() > 0);
    assert(first_failure(sel, notes, None) is None);
    assert forall|i: int| 0 <= i < lines.len() implies !selects(None, notes2, #[trigger] lines[i]) by {
        let l = lines[i];
        let id = l.local_id@;
        assert(notes2.drop_last() =~= notes);
        assert(already_credited(notes2, id) == already_credited(notes, id) + credited_in(n.line_items@, id));
        lemma_credited_in_nonneg(n.line_items@, id);
        if selects(None, notes, l) {
            lemma_selected_member(lines, notes, None, i);
            let k = choose|k: int| 0 <= k < sel.len() && #[trigger] sel[k] == l;
            lemma_no_failure_all_pass(sel, notes, None, k);
            lemma_already_credited_prefix(notes, 0, id);
            let c = credit_amount(l, notes, None);
            assert(c == l.amount_subtotal - already_credited(notes, id));
            assert(negated_amounts(sel[k], Some(c as i64), plan.line_items@[k]));
            assert(plan.line_items@[k].amount_subtotal == -c);
            assert(n.line_items@[k].local_id@ == id);
            assert(n.line_items@[k].amount_subtotal == -c);
            lemma_credited_in_member(n.line_items@, k, id);
        }
    }
    lemma_selected_none(lines, notes2, None);
}

/// The text of a finalized credit note's number: "CN-" and the number
/// zero-padded to six digits.
pub open spec fn credit_note_number_text(n: int) -> Seq<char> {
    "CN-"@ + zero_padded_text(n, 6)
}

/// A finalized credit note's number text.
fn format_credit_note_number(n: i64) -> (s: String)
    ensures
        s@ == credit_note_number_text(n as int),
{
    let mut s = "CN-".to_owned();
    s.append(zero_padded(n, 6).as_str());
    s
}

/// The number of a credit note: from the invoicing entity's next number
/// once it is finalized, "draft" before.
pub fn credit_note_number(next_number: Option<i64>) -> (s: String)
    ensures
        match next_number {
            Some(n) => s@ == credit_note_number_text(n as int),
            None => s@ == "draft"@,
        },
{
    match next_number {
        Some(n) => format_credit_note_number(n),
        None => "draft".to_owned(),
    }
}

/// `amount × rate` computed with `rust_decimal`, rounded half to even, as
/// an `i64` when it fits.
pub uninterp spec fn decimal_rate_product(amount: int, rate_mantissa: int, rate_scale: int) -> Option<i64>;

/// The converted amount: the rounded product, or 0 when it does not fit an
/// `i64`.
pub open spec fn decimal_converted(amount: int, rate_mantissa: int, rate_scale: int) -> int {
    match decimal_rate_product(amount, rate_mantissa, rate_scale) {
        Some(x) => x as int,
        None => 0,
    }
}

/// `(Decimal::from(amount) * rate).round().to_i64()`, the rate rebuilt with
/// `Decimal::from_i128_with_scale`. Trusted: the result is the named value,
/// and a rate of one gives `amount` back. The requirement keeps the rate a
/// valid decimal and the product within a `Decimal`, where `rust_decimal`
/// would panic.
#[verifier::external_body]
fn rate_product(amount: i64, rate: Dec) -> (r: Option<i64>)
    requires
        rate.wf(),
        abs_int(amount as int) * abs_int(rate.mantissa as int) <= DECIMAL_PRODUCT_BOUND * pow(10, rate.scale as nat),
    ensures
        r == decimal_rate_product(amount as int, rate.mantissa as int, rate.scale as int),
        same_value(rate, Dec { mantissa: 1, scale: 0 }) ==> r == Some(amount),
{
    let rate = Decimal::from_i128_with_scale(rate.mantissa, rate.scale);
    (Decimal::from(amount) * rate).round().to_i64()
}

/// `amount × rate` rounded half to even, 0 when it does not fit an `i64`.
fn convert_amount(amount: i64, rate: Dec) -> (r: i64)
    requires
        rate.wf(),
        abs_int(amount as int) * abs_int(rate.mantissa as int) <= DECIMAL_PRODUCT_BOUND * pow(10, rate.scale as nat),
    ensures
        r == decimal_converted(amount as int, rate.mantissa as int, rate.scale as int),
        same_value(rate, Dec { mantissa: 1, scale: 0 }) ==> r == amount,
{
    match rate_product(amount, rate) {
        Some(x) => x,
        None => 0,
    }
}

/// Text of the error for a missing exchange rate.
pub open spec fn missing_rate_text(from: Seq<char>, to: Seq<char>) -> Seq<char> {
    "No exchange rate available from "@ + from + " to "@ + to
}

/// The error text for a missing exchange rate.
fn missing_rate_message(from: &str, to: &str) -> (m: String)
    ensures
        m@ == missing_rate_text(from@, to@),
{
    let mut m = "No exchange rate available from ".to_owned();
    m.append(from);
    m.append(" to ");
    m.append(to);
    m
}

/// The rate can convert `amount` within a `Decimal`.
pub open spec fn rate_in_range(amount: i64, rate: Dec) -> bool {
    rate.wf() && abs_int(amount as int) * abs_int(rate.mantissa as int) <= DECIMAL_PRODUCT_BOUND * pow(10, rate.scale as nat)
}

/// Converts an amount in cents between currencies: unchanged in the same
/// currency; otherwise multiplied by the latest rate (see
/// [`decimal_converted`]), or an `InvalidArgument` error when there is none.
pub fn convert_to_customer_currency(amount_cents: i64, from_currency: &str, to_currency: &str, rate: Option<Dec>) -> (r: Result<i64, StoreError>)
    requires
        rate matches Some(q) ==> rate_in_range(amount_cents, q),
    ensures
        from_currency@ == to_currency@ ==> (r matches Ok(x) && x == amount_cents),
        from_currency@ != to_currency@ ==> match rate {
            Some(q) => r matches Ok(x) && x == decimal_converted(amount_cents as int, q.mantissa as int, q.scale as int),
            None => r matches Err(StoreError::InvalidArgument(m)) && m@ == missing_rate_text(from_currency@, to_currency@),
        },
{
    let from = from_currency.to_owned();
    let to = to_currency.to_owned();
    if from == to {
        return Ok(amount_cents);
    }
    match rate {
        Some(q) => Ok(convert_amount(amount_cents, q)),
        None => Err(StoreError::InvalidArgument(missing_rate_message(from_currency, to_currency))),
    }
}

/// Checks that a credit note can be created: the invoice must be
/// finalized, and a refund needs an invoice that is paid or partially paid.
pub fn validate_credit_note_request(invoice_finalized: bool, payment_status: InvoicePaymentStatus, credit_type: CreditType) -> (r: Result<(), StoreError>)
    ensures
        !invoice_finalized ==> (r matches Err(StoreError::InvalidArgument(m))
            && m@ == "Credit notes can only be created for finalized invoices"@),
        invoice_finalized && credit_type is Refund && payment_status is Unpaid ==> (r matches Err(StoreError::InvalidArgument(m))
            && m@ == "Refund-type credit notes can only be created for paid or partially paid invoices"@),
        invoice_finalized && !(credit_type is Refund && payment_status is Unpaid) ==> r is Ok,
{
    if !invoice_finalized {
        return Err(StoreError::InvalidArgument("Credit notes can only be created for finalized invoices".to_owned()));
    }
    match credit_type {
        CreditType::Refund => match payment_status {
            InvoicePaymentStatus::Paid | InvoicePaymentStatus::PartiallyPaid => Ok(()),
            InvoicePaymentStatus::Unpaid => Err(StoreError::InvalidArgument(
                "Refund-type credit notes can only be created for paid or partially paid invoices".to_owned(),
            )),
        },
        CreditType::CreditToBalance => Ok(()),
    }
}

/// The lines a public request names: none (credit everything remaining)
/// when it names no line.
pub fn requested_line_items(items: Vec<CreditLineItem>) -> (r: Option<Vec<CreditLineItem>>)
    ensures
        items@.len() == 0 ==> r is None,
        items@.len() > 0 ==> (r matches Some(v) && v@ == items@),
{
    if items.len() == 0 {
        None
    } else {
        Some(items)
    }
}

/// A change of state of an issued credit note.
#[derive(Debug, Clone, Copy)]
pub enum CreditNoteTransition {
    /// A draft gets its number and takes effect.
    Finalize,
    /// A finalized credit note is cancelled.
    Void,
}

/// Only a draft is finalized, only a finalized credit note is voided.
pub open spec fn transition_allowed(transition: CreditNoteTransition, status: CreditNoteStatus) -> bool {
    match transition {
        CreditNoteTransition::Finalize => status is Draft,
        CreditNoteTransition::Void => status is Finalized,
    }
}

/// The status a credit note has after a transition.
pub open spec fn status_after(transition: CreditNoteTransition) -> CreditNoteStatus {
    match transition {
        CreditNoteTransition::Finalize => CreditNoteStatus::Finalized,
        CreditNoteTransition::Void => CreditNoteStatus::Voided,
    }
}

/// The change of the customer's balance when a credit note crediting
/// `converted` (in the balance's currency) undergoes a transition.
pub open spec fn balance_change(transition: CreditNoteTransition, converted: int) -> int {
    match transition {
        CreditNoteTransition::Finalize => converted,
        CreditNoteTransition::Void => -converted,
    }
}

/// Checks that the credit note may undergo the transition: only a draft is
/// finalized, only a finalized credit note is voided.
pub fn check_transition(transition: CreditNoteTransition, status: CreditNoteStatus) -> (r: Result<(), StoreError>)
    ensures
        r is Ok <==> transition_allowed(transition, status),
        transition is Finalize ==> (if status is Draft { r is Ok } else {
            r matches Err(StoreError::InvalidArgument(m)) && m@ == "Only draft credit notes can be finalized"@
        }),
        transition is Void ==> (if status is Finalized { r is Ok } else {
            r matches Err(StoreError::InvalidArgument(m)) && m@ == "Only finalized credit notes can be voided"@
        }),
{
    match transition {
        CreditNoteTransition::Finalize => match status {
            CreditNoteStatus::Draft => Ok(()),
            _ => Err(StoreError::InvalidArgument("Only draft credit notes can be finalized".to_owned())),
        },
        CreditNoteTransition::Void => match status {
            CreditNoteStatus::Finalized => Ok(()),
            _ => Err(StoreError::InvalidArgument("Only finalized credit notes can be voided".to_owned())),
        },
    }
}

/// A credit note moves the customer's balance only when it credits some
/// amount to it.
pub fn credits_balance(credited_amount_cents: i64) -> (b: bool)
    ensures
        b == (credited_amount_cents > 0),
{
    credited_amount_cents > 0
}

/// The change of the customer's balance (in the balance's currency) when a
/// credit note crediting `converted` is finalized (added) or voided (taken
/// back).
pub fn balance_delta(transition: CreditNoteTransition, converted: i64) -> (d: i64)
    requires
        converted != i64::MIN,
    ensures
        d == balance_change(transition, converted as int),
{
    match transition {
        CreditNoteTransition::Finalize => converted,
        CreditNoteTransition::Void => -converted,
    }
}

/// Checks that deleting a draft removed a row.
pub fn check_draft_deleted(rows_affected: usize) -> (r: Result<(), StoreError>)
    ensures
        rows_affected == 0 ==> (r matches Err(StoreError::InvalidArgument(m))
            && m@ == "Credit note not found or is not a draft"@),
        rows_affected > 0 ==> r is Ok,
{
    if rows_affected == 0 {
        Err(StoreError::InvalidArgument("Credit note not found or is not a draft".to_owned()))
    } else {
        Ok(())
    }
}

/// Voiding undoes finalizing: a draft may be finalized and then voided, the
/// second transition takes the balance back to where it was before the
/// first (when both convert the credit to the same amount), and the note ends
/// voided; a credit note that is not finalized cannot be voided.
pub proof fn law_void_undoes_finalize(balance: int, converted: int, status: CreditNoteStatus)
    ensures
        transition_allowed(CreditNoteTransition::Finalize, CreditNoteStatus::Draft),
        transition_allowed(CreditNoteTransition::Void, status_after(CreditNoteTransition::Finalize)),
        balance + balance_change(CreditNoteTransition::Finalize, converted)
            + balance_change(CreditNoteTransition::Void, converted) == balance,
        status_after(CreditNoteTransition::Void) == CreditNoteStatus::Voided,
        !(status is Finalized) ==> !transition_allowed(CreditNoteTransition::Void, status),
{
}

} // verus!
