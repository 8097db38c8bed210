//! Reporting amounts in USD with the historical rates from USD.
use vstd::prelude::*;
use crate::errors::StoreError;
use crate::historical_rates::{HistoricalRatesFromUsd, rate_for, find_rate};
use crate::credit_notes::{Dec, abs_int, DECIMAL_PRODUCT_BOUND};
use vstd::arithmetic::power::pow;
use rust_decimal::Decimal;

verus! {

/// Text of the error for a currency missing from the rates.
pub open spec fn missing_currency_rate_text(currency: Seq<char>) -> Seq<char> {
    "No rate found for currency: "@ + currency
}

/// The error text for a currency missing from the rates.
fn missing_currency_rate_message(currency: &str) -> (m: String)
    ensures
        m@ == missing_currency_rate_text(currency@),
{
    let mut m = "No rate found for currency: ".to_owned();
    m.append(currency);
    m
}

/// Looks up the rate from USD of `currency`, with the id of the rates it
/// comes from: a `ValueNotFound` error when there are no rates, or none for
/// the currency.
pub fn usd_rate_for<R: Copy>(currency: &str, rates: Option<HistoricalRatesFromUsd<R>>) -> (r: Result<(u128, R), StoreError>)
    ensures
        rates is None ==> (r matches Err(StoreError::ValueNotFound(m)) && m@ == "No historical rates found"@),
        rates matches Some(t) ==> match rate_for(t.rates@, currency@) {
            Some(x) => r matches Ok(p) && p == (t.id, x),
            None => r matches Err(StoreError::ValueNotFound(m)) && m@ == missing_currency_rate_text(currency@),
        },
{
    match rates {
        None => Err(StoreError::ValueNotFound("No historical rates found".to_owned())),
        Some(t) => match find_rate(&t.rates, currency) {
            Some(x) => Ok((t.id, x)),
            None => Err(StoreError::ValueNotFound(missing_currency_rate_message(currency))),
        },
    }
}

/// `Decimal::from(amount).checked_div(rate)` with `rust_decimal` (28
/// significant digits), as a mantissa and a scale: `None` on a zero rate or
/// a quotient beyond the range of a `Decimal`.
pub uninterp spec fn decimal_quotient(amount: int, rate_mantissa: int, rate_scale: int) -> Option<Dec>;

/// Divides an amount by a rate with `Decimal::checked_div`, which never
/// panics. Trusted: the result is the named value; a zero rate gives `None`;
/// a quotient of magnitude at most 2^95 is always computed, as a valid
/// decimal; a rate of one gives the amount back.
#[verifier::external_body]
fn checked_quotient(amount: i64, rate: Dec) -> (r: Option<Dec>)
    requires
        rate.wf(),
    ensures
        r == decimal_quotient(amount as int, rate.mantissa as int, rate.scale as int),
        rate.mantissa == 0 ==> r is None,
        rate.mantissa != 0 && abs_int(amount as int) * pow(10, rate.scale as nat) <= DECIMAL_PRODUCT_BOUND * abs_int(rate.mantissa as int) ==> r is Some,
        r matches Some(q) ==> q.wf(),
        r matches Some(q) ==> (rate.mantissa == 1 && rate.scale == 0 ==> q.mantissa == amount * pow(10, q.scale as nat)),
{
    let rate = Decimal::from_i128_with_scale(rate.mantissa, rate.scale);
    match Decimal::from(amount).checked_div(rate) {
        Some(q) => Some(Dec { mantissa: q.mantissa(), scale: q.scale() }),
        None => None,
    }
}

/// Converts an amount in cents of a currency to USD cents, dividing by the
/// currency's rate from USD (see [`decimal_quotient`]): `None` when the rate
/// is zero or the quotient leaves the range of a `Decimal`, which never
/// happens below 2^95.
pub fn amount_in_usd(amount_cents: i64, rate: Dec) -> (r: Option<Dec>)
    requires
        rate.wf(),
    ensures
        r == decimal_quotient(amount_cents as int, rate.mantissa as int, rate.scale as int),
        rate.mantissa == 0 ==> r is None,
        rate.mantissa != 0 && abs_int(amount_cents as int) * pow(10, rate.scale as nat) <= DECIMAL_PRODUCT_BOUND
            * abs_int(rate.mantissa as int) ==> r is Some,
{
    checked_quotient(amount_cents, rate)
}

} // verus!
