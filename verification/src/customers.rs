use vstd::prelude::*;
use crate::errors::StoreError;
use crate::time::DateTime;

verus! {

/// True when `entry` is `Some(currency)`.
pub open spec fn entry_offers(entry: Option<String>, currency: Seq<char>) -> bool {
    match entry {
        Some(c) => c@ == currency,
        None => false,
    }
}

/// True when some entry of `available` is `Some(currency)`.
pub open spec fn currency_is_available(currency: Seq<char>, available: Seq<Option<String>>) -> bool {
    exists|i: int| 0 <= i < available.len() && #[trigger] entry_offers(available[i], currency)
}

/// The text of the error for a currency the tenant does not offer.
pub open spec fn currency_unavailable_text(currency: Seq<char>) -> Seq<char> {
    "Currency '"@ + currency + "' is not available for this tenant"@
}

/// The message of a refused currency.
fn currency_unavailable_message(currency: &str) -> (msg: String)
    ensures
        msg@ == currency_unavailable_text(currency@),
{
    let mut msg = "Currency '".to_owned();
    msg.append(currency);
    msg.append("' is not available for this tenant");
    msg
}

/// Checks that `currency` is one of the tenant's available currencies.
pub fn validate_customer_currency(currency: &str, available_currencies: &[Option<String>]) -> (res: Result<(), StoreError>)
    ensures
        res is Ok <==> currency_is_available(currency@, available_currencies@),
        res matches Err(e) ==> (e matches StoreError::InvalidArgument(m)
            && m@ == currency_unavailable_text(currency@)),
{
    let wanted = currency.to_owned();
    let mut i: usize = 0;
    while i < available_currencies.len()
        invariant
            i <= available_currencies@.len(),
            wanted@ == currency@,
            forall|j: int| 0 <= j < i ==> !entry_offers(#[trigger] available_currencies@[j], currency@),
        decreases available_currencies@.len() - i,
    {
        match &available_currencies[i] {
            Some(c) => {
                if *c == wanted {
                    assert(entry_offers(available_currencies@[i as int], currency@));
                    return Ok(());
                }
            },
            None => {},
        }
        i = i + 1;
    }
    Err(StoreError::InvalidArgument(currency_unavailable_message(currency)))
}

/// The external (VIES) validation recorded for a customer's VAT number: its
/// status, when it was last checked, and the stored check.
#[derive(Debug, PartialEq, Eq)]
pub struct VatValidation<S, V> {
    pub status: S,
    pub checked_at: Option<DateTime>,
    pub vies_check: Option<V>,
}

/// Both absent, or both present with the same text.
pub open spec fn same_vat_number(a: Option<String>, b: Option<String>) -> bool {
    match (a, b) {
        (Some(x), Some(y)) => x@ == y@,
        (None, None) => true,
        _ => false,
    }
}

/// The validation kept by an update of a customer from `old_number` to
/// `new_number`: a changed number starts over from `initial` (the status a
/// fresh number gets), never checked; an unchanged one keeps `prior`, so that
/// a definitive result is not checked again.
pub fn vat_validation_after_update<S, V>(
    old_number: &Option<String>,
    new_number: &Option<String>,
    prior: VatValidation<S, V>,
    initial: S,
) -> (v: VatValidation<S, V>)
    ensures
        same_vat_number(*old_number, *new_number) ==> v == prior,
        !same_vat_number(*old_number, *new_number) ==> v == (VatValidation::<S, V> {
            status: initial,
            checked_at: None,
            vies_check: None,
        }),
{
    let unchanged = match (old_number, new_number) {
        (Some(x), Some(y)) => *x == *y,
        (None, None) => true,
        _ => false,
    };
    if unchanged {
        prior
    } else {
        VatValidation { status: initial, checked_at: None, vies_check: None }
    }
}

/// Status of a subscription.
#[derive(Debug, Clone, Copy, PartialEq, Eq, Structural)]
pub enum SubscriptionStatus {
    PendingActivation,
    PendingCharge,
    TrialActive,
    Active,
    TrialExpired,
    Paused,
    Suspended,
    Cancelled,
    Completed,
    Superseded,
    Errored,
}

/// A subscription in one of these statuses keeps its customer from being
/// archived: active, trialing, trial expired, waiting for a charge, paused or
/// suspended.
pub open spec fn blocks_archiving(s: SubscriptionStatus) -> bool {
    s is Active || s is TrialActive || s is TrialExpired || s is PendingCharge || s is Paused || s is Suspended
}

/// Checks that a customer whose subscriptions have the statuses `statuses`
/// may be archived: refused while any of them still runs.
pub fn check_archivable(statuses: &Vec<SubscriptionStatus>) -> (r: Result<(), StoreError>)
    ensures
        (forall|i: int| 0 <= i < statuses@.len() ==> !blocks_archiving(#[trigger] statuses@[i])) ==> r is Ok,
        (exists|i: int| 0 <= i < statuses@.len() && blocks_archiving(#[trigger] statuses@[i])) ==> (r matches Err(StoreError::InvalidArgument(m))
            && m@ == "Cannot archive customer with active subscriptions. Cancel all active subscriptions before archiving."@),
{
    let mut i: usize = 0;
    while i < statuses.len()
        invariant
            i <= statuses@.len(),
            forall|j: int| 0 <= j < i ==> !blocks_archiving(#[trigger] statuses@[j]),
        decreases statuses@.len() - i,
    {
        let blocking = match statuses[i] {
            SubscriptionStatus::Active | SubscriptionStatus::TrialActive | SubscriptionStatus::TrialExpired
            | SubscriptionStatus::PendingCharge | SubscriptionStatus::Paused | SubscriptionStatus::Suspended => true,
            _ => false,
        };
        if blocking {
            return Err(StoreError::InvalidArgument(
                "Cannot archive customer with active subscriptions. Cancel all active subscriptions before archiving.".to_owned(),
            ));
        }
        i = i + 1;
    }
    Ok(())
}

} // verus!
