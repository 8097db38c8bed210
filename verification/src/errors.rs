use vstd::prelude::*;

verus! {

/// Errors the store reports to its callers.
#[derive(Debug, PartialEq, Eq)]
pub enum StoreError {
    /// The caller passed a value the store refuses; the text says why.
    InvalidArgument(String),
    /// A value the operation depends on could not be found.
    ValueNotFound(String),
    /// The actor may not do this; the text says why.
    Forbidden(String),
    /// A checkout did not match what the customer confirmed; the text says
    /// which confirmation differs.
    CheckoutError(String),
    /// The payment provider reported something the store cannot handle.
    PaymentProviderError,
    /// A change of a customer's balance would leave it negative.
    NegativeCustomerBalance,
}

} // verus!
