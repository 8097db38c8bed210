//! Checking a subscription checkout against what the customer confirmed,
//! and the draft invoice and pending charge it records.
use vstd::prelude::*;
use crate::errors::StoreError;
use crate::payments::{InvoiceStatus, PaymentStatus};
use crate::time::{Date, DateTime, MAX_DAYS, midnight};

verus! {

/// Checks that the subscription is charged in the currency the customer
/// confirmed.
pub fn check_checkout_currency(currency: &str, currency_confirmation: &str) -> (r: Result<(), StoreError>)
    ensures
        currency@ == currency_confirmation@ ==> r is Ok,
        currency@ != currency_confirmation@ ==> (r matches Err(StoreError::CheckoutError(m))
            && m@ == "Currency is different from the confirmation"@),
{
    let a = currency.to_owned();
    let b = currency_confirmation.to_owned();
    if a == b {
        Ok(())
    } else {
        Err(StoreError::CheckoutError("Currency is different from the confirmation".to_owned()))
    }
}

/// The confirmed total, read as an `i64` the way `as` reads it (wrapping
/// above `i64::MAX`).
pub open spec fn confirmed_amount(total_amount_confirmation: u64) -> int {
    if total_amount_confirmation <= i64::MAX {
        total_amount_confirmation as int
    } else {
        total_amount_confirmation - 0x1_0000_0000_0000_0000
    }
}

/// Checks that the amount due is the total the customer confirmed.
pub fn check_checkout_amount(amount_due: i64, total_amount_confirmation: u64) -> (r: Result<(), StoreError>)
    ensures
        amount_due == confirmed_amount(total_amount_confirmation) ==> r is Ok,
        amount_due != confirmed_amount(total_amount_confirmation) ==> (r matches Err(StoreError::CheckoutError(m))
            && m@ == "Total due amount is different from the confirmation"@),
{
    let confirmed: i64 = if total_amount_confirmation <= 0x7FFF_FFFF_FFFF_FFFF {
        total_amount_confirmation as i64
    } else {
        (total_amount_confirmation - 0x8000_0000_0000_0000) as i64 - 0x4000_0000_0000_0000 - 0x4000_0000_0000_0000
    };
    if amount_due == confirmed {
        Ok(())
    } else {
        Err(StoreError::CheckoutError("Total due amount is different from the confirmation".to_owned()))
    }
}

/// When the invoice of a checkout falls due: midnight, `net_terms` days
/// after the end of its first period.
pub fn checkout_due_date(period_end: Date, net_terms: u32) -> (t: DateTime)
    requires
        period_end.wf(),
        period_end.days + net_terms <= MAX_DAYS,
    ensures
        t.nanos == (period_end.days + net_terms) * crate::time::NANOS_PER_DAY,
{
    midnight(Date { days: period_end.days + net_terms as i64 })
}

/// The totals computed for a checkout's invoice, in minor units.
#[derive(Debug, Clone, Copy, PartialEq, Eq)]
pub struct CheckoutTotals {
    pub total: i64,
    pub amount_due: i64,
    pub subtotal: i64,
    pub subtotal_recurring: i64,
    pub tax_amount: i64,
}

/// The invoice a checkout records before the payment completes.
#[derive(Debug)]
pub struct CheckoutInvoice {
    pub invoice_number: String,
    pub status: InvoiceStatus,
    pub issued: bool,
    pub currency: String,
    pub plan_name: String,
    pub invoice_date: Date,
    pub due_at: DateTime,
    pub net_terms: u32,
    pub totals: CheckoutTotals,
    pub tax_rate: i32,
}

/// The payment a checkout records for the amount due.
#[derive(Debug)]
pub struct CheckoutCharge {
    pub amount: i64,
    pub currency: String,
    pub payment_method_id: u128,
    pub status: PaymentStatus,
    pub provider_transaction_id: Option<String>,
}

/// What a confirmed checkout records: its invoice and its charge.
#[derive(Debug)]
pub struct CheckoutRecords {
    pub invoice: CheckoutInvoice,
    pub charge: CheckoutCharge,
}

/// The records of a confirmed checkout: a draft invoice numbered "draft"
/// (cancelled if the payment does not complete), dated at the end of the
/// first period and due `net_terms` days later at midnight, not issued, with
/// the computed totals and no tax rate; and a pending charge of the amount
/// due in the subscription's currency on the chosen payment method, not yet
/// known to the provider.
pub fn checkout_records(
    currency: &str,
    plan_name: &str,
    period_end: Date,
    net_terms: u32,
    totals: CheckoutTotals,
    payment_method_id: u128,
) -> (d: CheckoutRecords)
    requires
        period_end.wf(),
        period_end.days + net_terms <= MAX_DAYS,
    ensures
        d.invoice.invoice_number@ == "draft"@,
        d.invoice.status == InvoiceStatus::Draft,
        !d.invoice.issued,
        d.invoice.currency@ == currency@,
        d.invoice.plan_name@ == plan_name@,
        d.invoice.invoice_date == period_end,
        d.invoice.due_at.nanos == (period_end.days + net_terms) * crate::time::NANOS_PER_DAY,
        d.invoice.net_terms == net_terms,
        d.invoice.totals == totals,
        d.invoice.tax_rate == 0,
        d.charge.amount == totals.amount_due,
        d.charge.currency@ == currency@,
        d.charge.payment_method_id == payment_method_id,
        d.charge.status == PaymentStatus::Pending,
        d.charge.provider_transaction_id is None,
{
    let invoice = CheckoutInvoice {
        invoice_number: "draft".to_owned(),
        status: InvoiceStatus::Draft,
        issued: false,
        currency: currency.to_owned(),
        plan_name: plan_name.to_owned(),
        invoice_date: period_end,
        due_at: checkout_due_date(period_end, net_terms),
        net_terms,
        totals,
        tax_rate: 0,
    };
    let charge = CheckoutCharge {
        amount: totals.amount_due,
        currency: currency.to_owned(),
        payment_method_id,
        status: PaymentStatus::Pending,
        provider_transaction_id: None,
    };
    CheckoutRecords { invoice, charge }
}

} // verus!
