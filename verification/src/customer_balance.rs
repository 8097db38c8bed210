//! The customer balance ledger.
use vstd::prelude::*;
use crate::errors::StoreError;

verus! {

/// Entry point for changes of a customer's balance.
#[derive(Debug, Clone, Copy)]
pub struct CustomerBalance;

/// The ledger row recorded with a change of a customer's balance.
#[derive(Debug, Clone, Copy, PartialEq, Eq)]
pub struct BalanceLedgerEntry {
    /// The change, in cents (positive credits the customer).
    pub amount_cents: i32,
    /// The balance once the change is applied.
    pub balance_cents_after: i64,
    /// The invoice the change pays, if any.
    pub invoice_id: Option<u128>,
}

impl CustomerBalance {
    /// Applies a change of `cents` to a balance of `balance_cents`: the new
    /// balance and its ledger row, or `NegativeCustomerBalance` when the
    /// balance would drop below zero (the store keeps balances non-negative).
    pub fn update(balance_cents: i64, cents: i32, invoice_id: Option<u128>) -> (r: Result<BalanceLedgerEntry, StoreError>)
        requires
            balance_cents + cents <= i64::MAX,
            balance_cents + cents >= i64::MIN,
        ensures
            balance_cents + cents >= 0 ==> r == Ok::<BalanceLedgerEntry, StoreError>(BalanceLedgerEntry {
                amount_cents: cents,
                balance_cents_after: (balance_cents + cents) as i64,
                invoice_id,
            }),
            balance_cents + cents < 0 ==> r == Err::<BalanceLedgerEntry, StoreError>(StoreError::NegativeCustomerBalance),
    {
        let after = balance_cents + cents as i64;
        if after < 0 {
            Err(StoreError::NegativeCustomerBalance)
        } else {
            Ok(BalanceLedgerEntry { amount_cents: cents, balance_cents_after: after, invoice_id })
        }
    }
}

} // verus!
