//! Credit notes: negated copies of invoice lines (full or partial), their tax
//! breakdown, and the plan of a credit note against what was already credited.
use vstd::prelude::*;
use vstd::arithmetic::power::pow;
use rust_decimal::prelude::ToPrimitive;
use rust_decimal::Decimal;
use crate::time::Date;

verus! {

/// Largest mantissa a `rust_decimal::Decimal` holds (2^96 - 1).
pub const DECIMAL_MAX_MANTISSA: i128 = 0xFFFF_FFFF_FFFF_FFFF_FFFF_FFFF;
/// Largest scale a `rust_decimal::Decimal` holds.
pub const DECIMAL_MAX_SCALE: u32 = 28;
/// Half the range of a `Decimal` (2^95): products of at most this magnitude
/// are computed without overflow.
pub const DECIMAL_PRODUCT_BOUND: u128 = 0x8000_0000_0000_0000_0000_0000;

/// A decimal number `mantissa × 10^-scale`, as `rust_decimal` stores one.
#[derive(Debug, Clone, Copy)]
pub struct Dec {
    pub mantissa: i128,
    pub scale: u32,
}

impl Dec {
    /// Within what a `rust_decimal::Decimal` can hold.
    pub open spec fn wf(self) -> bool {
        -DECIMAL_MAX_MANTISSA <= self.mantissa <= DECIMAL_MAX_MANTISSA && self.scale <= DECIMAL_MAX_SCALE
    }
}

/// `a` and `b` denote the same number.
pub open spec fn same_value(a: Dec, b: Dec) -> bool {
    a.mantissa * pow(10, b.scale as nat) == b.mantissa * pow(10, a.scale as nat)
}

/// The negation of a decimal (what `-d` gives: same scale, opposite sign).
pub open spec fn neg_dec(d: Dec) -> Dec {
    Dec { mantissa: (-d.mantissa) as i128, scale: d.scale }
}

/// `rust_decimal`'s equality, which compares values (so 1.0 equals 1.00).
/// Trusted: the result says whether the two numbers are equal.
#[verifier::external_body]
pub(crate) fn decimal_eq(a: Dec, b: Dec) -> (r: bool)
    requires
        a.wf(),
        b.wf(),
    ensures
        r == same_value(a, b),
{
    Decimal::from_i128_with_scale(a.mantissa, a.scale) == Decimal::from_i128_with_scale(b.mantissa, b.scale)
}

/// `amount × (part / whole)` computed with `rust_decimal` (the quotient to
/// 28 significant digits), rounded half to even, as an `i64` when it fits.
pub uninterp spec fn decimal_rounded_share(amount: int, part: int, whole: int) -> Option<i64>;

/// The prorated amount: the rounded share, or 0 when it does not fit an
/// `i64`.
pub open spec fn decimal_prorated(amount: int, part: int, whole: int) -> int {
    match decimal_rounded_share(amount, part, whole) {
        Some(x) => x as int,
        None => 0,
    }
}

/// `(Decimal::from(amount) * (Decimal::from(part) / Decimal::from(whole))).round().to_i64()`.
/// Trusted: the result is the named value; a whole share gives `amount`
/// exactly, a zero share gives 0, a share of at most one never grows the
/// magnitude (and fits unless `amount` is `i64::MIN`), and the result has
/// the sign of the share when `amount` is not negative. The requirement
/// rules out the division by zero and the product beyond the range of a
/// `Decimal` (2^96), on which `rust_decimal` panics.
#[verifier::external_body]
fn rounded_share(amount: i64, part: i64, whole: i64) -> (r: Option<i64>)
    requires
        whole != 0,
        abs_int(amount as int) * abs_int(part as int) <= abs_int(whole as int) * DECIMAL_PRODUCT_BOUND,
    ensures
        r == decimal_rounded_share(amount as int, part as int, whole as int),
        part == whole ==> r == Some(amount),
        part == 0 ==> r == Some(0i64),
        abs_int(part as int) <= abs_int(whole as int) && amount != i64::MIN ==> r is Some,
        abs_int(part as int) <= abs_int(whole as int) ==> (r matches Some(x) ==> abs_int(x as int) <= abs_int(amount as int)),
        amount >= 0 && whole > 0 && part >= 0 ==> (r matches Some(x) ==> x >= 0),
        amount >= 0 && whole > 0 && part <= 0 ==> (r matches Some(x) ==> x <= 0),
{
    let share = Decimal::from(part) / Decimal::from(whole);
    (Decimal::from(amount) * share).round().to_i64()
}

/// `amount × (part / whole)` rounded half to even, 0 when it does not fit an
/// `i64`.
pub(crate) fn prorate(amount: i64, part: i64, whole: i64) -> (r: i64)
    requires
        whole != 0,
        abs_int(amount as int) * abs_int(part as int) <= abs_int(whole as int) * DECIMAL_PRODUCT_BOUND,
    ensures
        r == decimal_prorated(amount as int, part as int, whole as int),
        part == whole ==> r == amount,
        part == 0 ==> r == 0,
        abs_int(part as int) <= abs_int(whole as int) ==> abs_int(r as int) <= abs_int(amount as int),
        amount >= 0 && whole > 0 && part >= 0 ==> r >= 0,
        amount >= 0 && whole > 0 && part <= 0 ==> r <= 0,
{
    match rounded_share(amount, part, whole) {
        Some(x) => x,
        None => 0,
    }
}

/// `-Decimal::from(cents) / Decimal::from(100)`: minus `cents` hundredths, as
/// a decimal. Trusted: the value is exactly `-cents / 100`; the scale
/// `rust_decimal` picks for it is left unsaid.
#[verifier::external_body]
pub(crate) fn negated_units(cents: i64) -> (r: Dec)
    ensures
        r.wf(),
        r.mantissa * 100 == -cents * pow(10, r.scale as nat),
{
    let d = -Decimal::from(cents) / Decimal::from(100);
    Dec { mantissa: d.mantissa(), scale: d.scale() }
}

/// Absolute value.
pub open spec fn abs_int(x: int) -> int {
    if x >= 0 { x } else { -x }
}

/// The sum of `f` over the lines.
pub open spec fn sum_of(lines: Seq<CreditLine>, f: spec_fn(CreditLine) -> int) -> int
    decreases lines.len(),
{
    if lines.len() == 0 {
        0
    } else {
        sum_of(lines.drop_last(), f) + f(lines.last())
    }
}

/// Summing one more line of a prefix.
pub proof fn lemma_sum_of_step(lines: Seq<CreditLine>, i: int, f: spec_fn(CreditLine) -> int)
    requires
        0 <= i < lines.len(),
    ensures
        sum_of(lines.take(i + 1), f) == sum_of(lines.take(i), f) + f(lines[i]),
{
    assert(lines.take(i + 1).drop_last() =~= lines.take(i));
}

/// Summing one more line.
pub proof fn lemma_sum_of_push(lines: Seq<CreditLine>, l: CreditLine, f: spec_fn(CreditLine) -> int)
    ensures
        sum_of(lines.push(l), f) == sum_of(lines, f) + f(l),
{
    assert(lines.push(l).drop_last() =~= lines);
}

/// A sum of values that are not negative is not negative.
pub proof fn lemma_sum_of_nonneg(lines: Seq<CreditLine>, f: spec_fn(CreditLine) -> int)
    requires
        forall|l: CreditLine| #[trigger] f(l) >= 0,
    ensures
        sum_of(lines, f) >= 0,
    decreases lines.len(),
{
    if lines.len() > 0 {
        lemma_sum_of_nonneg(lines.drop_last(), f);
    }
}

/// The sum over a prefix is at most the sum over the whole, for `f` not
/// negative.
pub proof fn lemma_sum_of_prefix(lines: Seq<CreditLine>, i: int, f: spec_fn(CreditLine) -> int)
    requires
        0 <= i <= lines.len(),
        forall|l: CreditLine| #[trigger] f(l) >= 0,
    ensures
        sum_of(lines.take(i), f) <= sum_of(lines, f),
    decreases lines.len(),
{
    if i < lines.len() {
        lemma_sum_of_prefix(lines.drop_last(), i, f);
        assert(lines.drop_last().take(i) =~= lines.take(i));
    } else {
        assert(lines.take(i) =~= lines);
    }
}

/// How the credit note amount is applied.
#[derive(Debug, Clone, Copy, PartialEq, Eq)]
pub enum CreditType {
    /// Added to the customer's balance for future invoices.
    CreditToBalance,
    /// Refunded to the customer.
    Refund,
}

/// A line of the invoice to credit, optionally with a partial amount.
#[derive(Debug)]
pub struct CreditLineItem {
    /// The `local_id` of the invoice line.
    pub local_id: String,
    /// The subtotal (excluding tax) to credit; `None` credits what remains.
    pub amount: Option<i64>,
}

/// One tax applied to a line.
#[derive(Debug)]
pub struct TaxDetail {
    pub tax_rate: Dec,
    pub tax_name: String,
    pub tax_amount: i64,
}

/// An invoice line as crediting reads it: the amounts it rewrites, and the
/// fields that pass through unchanged.
#[derive(Debug)]
pub struct CreditLine {
    pub local_id: String,
    pub name: String,
    pub start_date: Date,
    pub end_date: Date,
    pub is_prorated: bool,
    pub price_component_id: Option<u128>,
    pub sub_component_id: Option<u128>,
    pub sub_add_on_id: Option<u128>,
    pub product_id: Option<u128>,
    pub metric_id: Option<u128>,
    pub description: Option<String>,
    pub amount_subtotal: i64,
    pub taxable_amount: i64,
    pub tax_amount: i64,
    pub amount_total: i64,
    pub tax_rate: Dec,
    pub tax_details: Vec<TaxDetail>,
    pub quantity: Option<Dec>,
    pub unit_price: Option<Dec>,
}

/// The subtotal to credit for `local_id` in a list of `(local_id, amount)`
/// pairs read as a map filled in order: the last entry for the id wins, and
/// an entry without an amount means none.
pub open spec fn amount_for(amounts: Seq<(String, Option<i64>)>, local_id: Seq<char>) -> Option<i64>
    decreases amounts.len(),
{
    if amounts.len() == 0 {
        None
    } else if amounts.last().0@ == local_id {
        amounts.last().1
    } else {
        amount_for(amounts.drop_last(), local_id)
    }
}

/// `r` keeps the fields of `item` that crediting does not rewrite.
pub open spec fn keeps_line_fields(item: CreditLine, r: CreditLine) -> bool {
    &&& r.local_id == item.local_id
    &&& r.name == item.name
    &&& r.start_date == item.start_date
    &&& r.end_date == item.end_date
    &&& r.is_prorated == item.is_prorated
    &&& r.price_component_id == item.price_component_id
    &&& r.sub_component_id == item.sub_component_id
    &&& r.sub_add_on_id == item.sub_add_on_id
    &&& r.product_id == item.product_id
    &&& r.metric_id == item.metric_id
    &&& r.description == item.description
}

/// The negated line: its fields kept, its amounts negated (prorated for a
/// partial credit).
pub open spec fn negated_amounts(item: CreditLine, amount: Option<i64>, r: CreditLine) -> bool {
    &&& keeps_line_fields(item, r)
    &&& r.tax_rate == item.tax_rate
    &&& r.tax_details@ == item.tax_details@
    &&& match amount {
        Some(c) => if item.amount_subtotal == 0 {
            r.amount_subtotal == 0 && r.taxable_amount == 0 && r.tax_amount == 0 && r.amount_total == 0
                && r.quantity == item.quantity && r.unit_price == Some(Dec { mantissa: 0, scale: 0 })
        } else {
            let t = decimal_prorated(item.taxable_amount as int, c as int, item.amount_subtotal as int);
            let x = decimal_prorated(item.tax_amount as int, c as int, item.amount_subtotal as int);
            &&& r.amount_subtotal == -c
            &&& r.taxable_amount == -t
            &&& r.tax_amount == -x
            &&& r.amount_total == -(t + x)
            &&& r.quantity == Some(Dec { mantissa: 1, scale: 0 })
            &&& r.unit_price matches Some(p) && p.wf() && p.mantissa * 100 == -c * pow(10, p.scale as nat)
        },
        None => {
            &&& r.amount_subtotal == -item.amount_subtotal
            &&& r.taxable_amount == -item.taxable_amount
            &&& r.tax_amount == -item.tax_amount
            &&& r.amount_total == -(item.taxable_amount + item.tax_amount)
            &&& r.quantity == item.quantity
            &&& r.unit_price == (match item.unit_price { Some(p) => Some(neg_dec(p)), None => None })
        },
    }
}

/// Inputs on which negating a line is defined: negations and sums stay in
/// `i64`, and a partial amount is at most the line's subtotal in magnitude.
pub open spec fn negatable(item: CreditLine, amount: Option<i64>) -> bool {
    match amount {
        Some(c) => item.amount_subtotal == 0 || (c != i64::MIN
            && abs_int(c as int) <= abs_int(item.amount_subtotal as int)
            && abs_int(item.taxable_amount as int) + abs_int(item.tax_amount as int) <= i64::MAX),
        None => {
            &&& item.amount_subtotal != i64::MIN
            &&& item.taxable_amount != i64::MIN
            &&& item.tax_amount != i64::MIN
            &&& i64::MIN < item.taxable_amount + item.tax_amount <= i64::MAX
            &&& match item.unit_price {
                Some(p) => p.wf(),
                None => true,
            }
        },
    }
}

/// Copies a tax detail.
fn copy_tax_detail(d: &TaxDetail) -> (r: TaxDetail)
    ensures
        r == *d,
{
    TaxDetail { tax_rate: d.tax_rate, tax_name: d.tax_name.clone(), tax_amount: d.tax_amount }
}

/// Copies a list of tax details.
fn copy_tax_details(v: &Vec<TaxDetail>) -> (r: Vec<TaxDetail>)
    ensures
        r@ == v@,
{
    let mut out: Vec<TaxDetail> = Vec::new();
    let mut i: usize = 0;
    while i < v.len()
        invariant
            i <= v@.len(),
            out@ == v@.take(i as int),
        decreases v@.len() - i,
    {
        out.push(copy_tax_detail(&v[i]));
        assert(out@ =~= v@.take(i + 1));
        i = i + 1;
    }
    assert(v@.take(v@.len() as int) =~= v@);
    out
}

/// Copies an optional text.
fn copy_text(t: &Option<String>) -> (r: Option<String>)
    ensures
        r == *t,
{
    match t {
        Some(x) => Some(x.clone()),
        None => None,
    }
}

/// Looks up the subtotal to credit for `local_id`.
fn find_amount(amounts: &Vec<(String, Option<i64>)>, local_id: &String) -> (r: Option<i64>)
    ensures
        r == amount_for(amounts@, local_id@),
{
    let mut i: usize = amounts.len();
    assert(amounts@.take(i as int) =~= amounts@);
    while i > 0
        invariant
            i <= amounts@.len(),
            amount_for(amounts@, local_id@) == amount_for(amounts@.take(i as int), local_id@),
        decreases i,
    {
        proof {
            assert(amounts@.take(i as int).drop_last() =~= amounts@.take(i - 1));
            assert(amounts@.take(i as int).last() == amounts@[i - 1]);
        }
        if amounts[i - 1].0 == *local_id {
            return amounts[i - 1].1;
        }
        i = i - 1;
    }
    None
}

/// A share of at most one of any `i64` stays within a `Decimal` product.
proof fn lemma_product_in_range(amount: i64, part: i64, whole: i64)
    requires
        abs_int(part as int) <= abs_int(whole as int),
    ensures
        abs_int(amount as int) * abs_int(part as int) <= abs_int(whole as int) * DECIMAL_PRODUCT_BOUND,
{
    let a = abs_int(amount as int);
    let p = abs_int(part as int);
    let w = abs_int(whole as int);
    assert(a <= 0x8000_0000_0000_0000);
    assert(a * p <= w * DECIMAL_PRODUCT_BOUND) by (nonlinear_arith)
        requires
            0 <= a <= 0x8000_0000_0000_0000,
            0 <= p <= w,
            DECIMAL_PRODUCT_BOUND == 0x8000_0000_0000_0000_0000_0000,
    ;
}

/// The credit-note copy of one invoice line (see [`negated_amounts`]).
pub fn negate_line(item: &CreditLine, amount: Option<i64>) -> (r: CreditLine)
    requires
        negatable(*item, amount),
    ensures
        negated_amounts(*item, amount, r),
        amount is Some ==> abs_int(r.taxable_amount as int) <= abs_int(item.taxable_amount as int)
            && abs_int(r.tax_amount as int) <= abs_int(item.tax_amount as int)
            && r.amount_total == r.taxable_amount + r.tax_amount,
{
    match amount {
        Some(credit_subtotal) => {
            let original_subtotal = item.amount_subtotal;
            if original_subtotal == 0 {
                return CreditLine {
                    local_id: item.local_id.clone(),
                name: item.name.clone(),
                start_date: item.start_date,
                end_date: item.end_date,
                is_prorated: item.is_prorated,
                price_component_id: item.price_component_id,
                sub_component_id: item.sub_component_id,
                sub_add_on_id: item.sub_add_on_id,
                product_id: item.product_id,
                metric_id: item.metric_id,
                description: copy_text(&item.description),
                    amount_subtotal: 0,
                    taxable_amount: 0,
                    tax_amount: 0,
                    amount_total: 0,
                    tax_rate: item.tax_rate,
                    tax_details: copy_tax_details(&item.tax_details),
                    quantity: item.quantity,
                    unit_price: Some(Dec { mantissa: 0, scale: 0 }),
                };
            }
            proof {
                lemma_product_in_range(item.taxable_amount, credit_subtotal, original_subtotal);
                lemma_product_in_range(item.tax_amount, credit_subtotal, original_subtotal);
            }
            let prorated_taxable = prorate(item.taxable_amount, credit_subtotal, original_subtotal);
            let prorated_tax = prorate(item.tax_amount, credit_subtotal, original_subtotal);
            let credit_total = prorated_taxable + prorated_tax;
            let credited_unit_price = negated_units(credit_subtotal);
            CreditLine {
                local_id: item.local_id.clone(),
                name: item.name.clone(),
                start_date: item.start_date,
                end_date: item.end_date,
                is_prorated: item.is_prorated,
                price_component_id: item.price_component_id,
                sub_component_id: item.sub_component_id,
                sub_add_on_id: item.sub_add_on_id,
                product_id: item.product_id,
                metric_id: item.metric_id,
                description: copy_text(&item.description),
                amount_subtotal: -credit_subtotal,
                taxable_amount: -prorated_taxable,
                tax_amount: -prorated_tax,
                amount_total: -credit_total,
                tax_rate: item.tax_rate,
                tax_details: copy_tax_details(&item.tax_details),
                quantity: Some(Dec { mantissa: 1, scale: 0 }),
                unit_price: Some(credited_unit_price),
            }
        },
        None => {
            let unit_price = match item.unit_price {
                Some(p) => Some(Dec { mantissa: -p.mantissa, scale: p.scale }),
                None => None,
            };
            CreditLine {
                local_id: item.local_id.clone(),
                name: item.name.clone(),
                start_date: item.start_date,
                end_date: item.end_date,
                is_prorated: item.is_prorated,
                price_component_id: item.price_component_id,
                sub_component_id: item.sub_component_id,
                sub_add_on_id: item.sub_add_on_id,
                product_id: item.product_id,
                metric_id: item.metric_id,
                description: copy_text(&item.description),
                amount_subtotal: -item.amount_subtotal,
                taxable_amount: -item.taxable_amount,
                tax_amount: -item.tax_amount,
                amount_total: -(item.taxable_amount + item.tax_amount),
                tax_rate: item.tax_rate,
                tax_details: copy_tax_details(&item.tax_details),
                quantity: item.quantity,
                unit_price,
            }
        },
    }
}

/// Negates every line for a credit note. A line whose `local_id` maps to an
/// amount is credited partially: the amount becomes the (negated) subtotal,
/// taxable amount and tax are prorated by amount / subtotal, the total is
/// their sum, and the line becomes one unit priced at the credited amount
/// (a zero-subtotal line credits nothing). Any other line is credited in
/// full, its total recomputed as taxable amount plus tax.
pub fn negate_line_items(line_items: &Vec<CreditLine>, amounts: &Vec<(String, Option<i64>)>) -> (r: Vec<CreditLine>)
    requires
        forall|i: int| 0 <= i < line_items@.len() ==> negatable(#[trigger] line_items@[i], amount_for(amounts@, line_items@[i].local_id@)),
    ensures
        r@.len() == line_items@.len(),
        forall|i: int| 0 <= i < r@.len() ==> negated_amounts(#[trigger] line_items@[i], amount_for(amounts@, line_items@[i].local_id@), r@[i]),
{
    let mut out: Vec<CreditLine> = Vec::new();
    let mut i: usize = 0;
    while i < line_items.len()
        invariant
            i <= line_items@.len(),
            out@.len() == i,
            forall|k: int| 0 <= k < line_items@.len() ==> negatable(#[trigger] line_items@[k], amount_for(amounts@, line_items@[k].local_id@)),
            forall|k: int| 0 <= k < i ==> negated_amounts(#[trigger] line_items@[k], amount_for(amounts@, line_items@[k].local_id@), out@[k]),
        decreases line_items@.len() - i,
    {
        let item = &line_items[i];
        let amount = find_amount(amounts, &item.local_id);
        let line = negate_line(item, amount);
        out.push(line);
        i = i + 1;
    }
    out
}

} // verus!
