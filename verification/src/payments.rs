//! Payment-transaction bookkeeping decisions: which provider status updates a
//! transaction accepts, and how refunds, chargebacks and their reinstatement
//! move the recorded refunded amount. Each function decides; the caller writes.
use vstd::prelude::*;
use crate::errors::StoreError;
use crate::time::{micros_floor, truncate_to_micros, DateTime};

verus! {

/// Status of a payment transaction.
#[derive(Debug, Clone, Copy, PartialEq, Eq, Structural)]
pub enum PaymentStatus {
    Pending,
    Ready,
    Settled,
    Cancelled,
    Failed,
    Refunded,
}

/// The fields of a stored payment transaction that the decisions read.
#[derive(Debug)]
pub struct PaymentTransaction {
    pub id: u128,
    pub tenant_id: u128,
    pub invoice_id: Option<u128>,
    pub status: PaymentStatus,
    /// Amount charged, in minor units.
    pub amount: i64,
    /// Amount clawed back so far, in minor units.
    pub amount_refunded: i64,
    /// Time of the last applied reversal or reinstatement.
    pub refunded_at: Option<DateTime>,
    pub provider_transaction_id: Option<String>,
}

/// A provider's report on a charge.
#[derive(Debug)]
pub struct PaymentIntent {
    pub external_id: String,
    pub transaction_id: u128,
    pub tenant_id: u128,
    pub status: PaymentStatus,
    /// The charge needs a customer action (3DS/SCA) before it can complete.
    pub has_next_action: bool,
    pub last_payment_error: Option<String>,
    pub processed_at: Option<DateTime>,
}

/// What to do with the stored next-action of a transaction.
#[derive(Debug, Clone, Copy, PartialEq, Eq, Structural)]
pub enum NextActionPatch {
    /// Leave it as it is.
    Keep,
    /// Store the intent's action.
    Store,
    /// Remove the stored action.
    Clear,
}

/// The outcome of applying a provider status report to a transaction.
#[derive(Debug, Clone, Copy, PartialEq, Eq, Structural)]
pub enum ConsolidateDecision {
    /// Nothing to write: an out-of-order or duplicate report, or nothing new.
    Unchanged,
    /// Write the patch. With `status_changed`, the status, processing time and
    /// error come from the intent and a `payment_transaction_saved` event is
    /// emitted; with `backfill_external_id`, the provider id is stored.
    Update { status_changed: bool, backfill_external_id: bool, next_action: NextActionPatch },
}

/// Accepted status transitions: a pending or ready transaction takes any
/// report; a failed one only a later success; settled, cancelled and refunded
/// transactions take none (settled ones leave only through a reversal).
pub open spec fn transition_ok(current: PaymentStatus, incoming: PaymentStatus) -> bool {
    match current {
        PaymentStatus::Pending | PaymentStatus::Ready => true,
        PaymentStatus::Failed => incoming == PaymentStatus::Settled,
        _ => false,
    }
}

/// Whether a transaction in `current` accepts a report of `incoming`.
pub fn transition_allowed(current: PaymentStatus, incoming: PaymentStatus) -> (r: bool)
    ensures
        r == transition_ok(current, incoming),
{
    match current {
        PaymentStatus::Pending | PaymentStatus::Ready => true,
        PaymentStatus::Failed => incoming == PaymentStatus::Settled,
        _ => false,
    }
}

/// The decision on a provider report (see [`ConsolidateDecision`]).
pub open spec fn consolidate_outcome(tx: PaymentTransaction, intent: PaymentIntent) -> ConsolidateDecision {
    if !transition_ok(tx.status, intent.status) {
        ConsolidateDecision::Unchanged
    } else {
        let status_changed = tx.status != intent.status;
        let backfill = tx.provider_transaction_id is None && intent.external_id@.len() > 0;
        let next_action = if intent.has_next_action {
            NextActionPatch::Store
        } else if status_changed && intent.status != PaymentStatus::Pending {
            NextActionPatch::Clear
        } else {
            NextActionPatch::Keep
        };
        if !status_changed && !backfill && next_action == NextActionPatch::Keep {
            ConsolidateDecision::Unchanged
        } else {
            ConsolidateDecision::Update { status_changed, backfill_external_id: backfill, next_action }
        }
    }
}

/// Decides how a provider report updates a transaction: rejects out-of-order
/// transitions, backfills a missing provider id, sets or clears the pending
/// customer action, and skips writes that would change nothing.
pub fn consolidate_intent_and_transaction(tx: &PaymentTransaction, intent: &PaymentIntent) -> (d: ConsolidateDecision)
    ensures
        d == consolidate_outcome(*tx, *intent),
        tx.status is Failed && intent.status is Settled ==> (d matches ConsolidateDecision::Update { status_changed, .. }
            && status_changed),
        (tx.status is Pending || tx.status is Ready) && tx.status != intent.status ==> (d matches
            ConsolidateDecision::Update { status_changed, .. } && status_changed),
        (tx.status is Settled || tx.status is Cancelled || tx.status is Refunded) ==> d is Unchanged,
        tx.status is Failed && !(intent.status is Settled) ==> d is Unchanged,
{
    proof {
        crate::payment_laws::law_consolidate_applies_accepted_reports(*tx, *intent);
    }
    if !transition_allowed(tx.status, intent.status) {
        return ConsolidateDecision::Unchanged;
    }
    let status_changed = tx.status != intent.status;
    let backfill_external_id = tx.provider_transaction_id.is_none() && !intent.external_id.as_str().is_empty();
    let next_action = if intent.has_next_action {
        NextActionPatch::Store
    } else if status_changed && intent.status != PaymentStatus::Pending {
        NextActionPatch::Clear
    } else {
        NextActionPatch::Keep
    };
    if !status_changed && !backfill_external_id && next_action == NextActionPatch::Keep {
        return ConsolidateDecision::Unchanged;
    }
    ConsolidateDecision::Update { status_changed, backfill_external_id, next_action }
}

// ---------------------------------------------------------------------------
// Reversals
// ---------------------------------------------------------------------------

/// How much of a transaction a reversal event claws back.
#[derive(Debug, Clone, Copy, PartialEq, Eq)]
pub enum ReversalAmount {
    /// The provider's running refunded total; monotonic.
    Cumulative(i64),
    /// A delta on top of what is already refunded; guarded by the event time.
    Incremental(i64),
    /// The whole transaction.
    Full,
}

/// A settled payment being clawed back (refund, chargeback, lost dispute).
#[derive(Debug)]
pub struct TransactionReversal {
    pub external_transaction_id: String,
    pub amount: ReversalAmount,
    pub reason: String,
    pub reversed_at: DateTime,
}

/// The outcome of a reversal event.
#[derive(Debug, Clone, Copy, PartialEq, Eq)]
pub enum ReversalDecision {
    /// The charge never settled: record it as a failed charge processed at the
    /// given time (see [`reversal_failure_intent`]).
    FailCharge { processed_at: DateTime },
    /// Nothing to write: terminal status, duplicate, stale, or no change.
    Unchanged,
    /// Record the new refunded total and status, stamped with the event time,
    /// and reopen the invoice.
    Apply { new_status: PaymentStatus, new_amount_refunded: i64, refunded_at: DateTime },
}

/// `x` limited to `[lo, hi]`.
pub open spec fn clamp_spec(x: int, lo: int, hi: int) -> int {
    if x < lo { lo } else if x > hi { hi } else { x }
}

/// The event time is at or before the last recorded reversal or reinstatement.
pub open spec fn stale(refunded_at: Option<DateTime>, at: int) -> bool {
    match refunded_at {
        Some(r) => at <= r.nanos,
        None => false,
    }
}

/// The refunded total a reversal asks for, or `None` when the event is stale.
pub open spec fn reversal_target(tx: PaymentTransaction, amount: ReversalAmount, at: int) -> Option<int> {
    match amount {
        ReversalAmount::Cumulative(total) => {
            let c = clamp_spec(total as int, 0, tx.amount as int);
            Some(if c >= tx.amount_refunded { c } else { tx.amount_refunded as int })
        },
        ReversalAmount::Full => if stale(tx.refunded_at, at) { None } else { Some(tx.amount as int) },
        ReversalAmount::Incremental(delta) => if stale(tx.refunded_at, at) { None } else {
            let d = if delta >= 0 { delta as int } else { 0 };
            let s = tx.amount_refunded + d;
            Some(if s <= tx.amount { s } else { tx.amount as int })
        },
    }
}

/// The decision on a reversal (see [`ReversalDecision`]). Event times are
/// compared at microsecond precision.
pub open spec fn reversal_outcome(tx: PaymentTransaction, rev: TransactionReversal) -> ReversalDecision {
    let at = micros_floor(rev.reversed_at.nanos as int);
    match tx.status {
        PaymentStatus::Pending | PaymentStatus::Ready => ReversalDecision::FailCharge { processed_at: DateTime { nanos: at as i128 } },
        PaymentStatus::Settled => match reversal_target(tx, rev.amount, at) {
            None => ReversalDecision::Unchanged,
            Some(n) => {
                let st = if n >= tx.amount { PaymentStatus::Refunded } else { PaymentStatus::Settled };
                if n == tx.amount_refunded && st == tx.status {
                    ReversalDecision::Unchanged
                } else {
                    ReversalDecision::Apply { new_status: st, new_amount_refunded: n as i64, refunded_at: DateTime { nanos: at as i128 } }
                }
            },
        },
        _ => ReversalDecision::Unchanged,
    }
}

/// Inputs on which the reversal arithmetic is defined: clamping needs a
/// non-negative charge, and an incremental delta must not overflow.
pub open spec fn reversal_defined(tx: PaymentTransaction, rev: TransactionReversal) -> bool {
    tx.status == PaymentStatus::Settled ==> match rev.amount {
        ReversalAmount::Cumulative(_) => tx.amount >= 0,
        ReversalAmount::Full => true,
        ReversalAmount::Incremental(delta) =>
            !stale(tx.refunded_at, micros_floor(rev.reversed_at.nanos as int))
                ==> tx.amount_refunded + (if delta >= 0 { delta as int } else { 0 }) <= i64::MAX,
    }
}

/// Decides a post-settlement reversal: a not-yet-settled charge becomes a
/// failed charge; a settled one gets its refunded total raised (cumulative
/// totals never lower it, incremental and full reversals at or before the last
/// recorded reversal time are ignored as redeliveries) and turns `Refunded`
/// once the whole amount is clawed back; any other status is left alone.
pub fn reverse_transaction(tx: &PaymentTransaction, rev: &TransactionReversal) -> (d: ReversalDecision)
    requires
        rev.reversed_at.wf(),
        reversal_defined(*tx, *rev),
    ensures
        d == reversal_outcome(*tx, *rev),
{
    let at = truncate_to_micros(rev.reversed_at);
    match tx.status {
        PaymentStatus::Pending | PaymentStatus::Ready => {
            return ReversalDecision::FailCharge { processed_at: at };
        },
        PaymentStatus::Settled => {},
        _ => {
            return ReversalDecision::Unchanged;
        },
    }
    let is_stale = match tx.refunded_at {
        Some(r) => at.nanos <= r.nanos,
        None => false,
    };
    let new_amount_refunded: i64 = match rev.amount {
        ReversalAmount::Cumulative(total) => {
            let c = if total < 0 { 0 } else if total > tx.amount { tx.amount } else { total };
            if c >= tx.amount_refunded { c } else { tx.amount_refunded }
        },
        ReversalAmount::Full => {
            if is_stale {
                return ReversalDecision::Unchanged;
            }
            tx.amount
        },
        ReversalAmount::Incremental(delta) => {
            if is_stale {
                return ReversalDecision::Unchanged;
            }
            let d = if delta >= 0 { delta } else { 0 };
            let s = tx.amount_refunded + d;
            if s <= tx.amount { s } else { tx.amount }
        },
    };
    let new_status = if new_amount_refunded >= tx.amount { PaymentStatus::Refunded } else { PaymentStatus::Settled };
    if new_amount_refunded == tx.amount_refunded && new_status == tx.status {
        return ReversalDecision::Unchanged;
    }
    ReversalDecision::Apply { new_status, new_amount_refunded, refunded_at: at }
}

/// The failure report used when a reversal hits a charge that never settled:
/// status `Failed`, the reversal reason as error, processed at the (truncated)
/// reversal time, under the stored provider id or else the reversal's charge id.
pub fn reversal_failure_intent(tx: &PaymentTransaction, rev: &TransactionReversal, processed_at: DateTime) -> (i: PaymentIntent)
    ensures
        i.external_id@ == (match tx.provider_transaction_id { Some(p) => p@, None => rev.external_transaction_id@ }),
        i.transaction_id == tx.id,
        i.tenant_id == tx.tenant_id,
        i.status == PaymentStatus::Failed,
        !i.has_next_action,
        i.last_payment_error == Some(rev.reason),
        i.processed_at == Some(processed_at),
{
    let external_id = match &tx.provider_transaction_id {
        Some(p) => p.clone(),
        None => rev.external_transaction_id.clone(),
    };
    PaymentIntent {
        external_id,
        transaction_id: tx.id,
        tenant_id: tx.tenant_id,
        status: PaymentStatus::Failed,
        has_next_action: false,
        last_payment_error: Some(rev.reason.clone()),
        processed_at: Some(processed_at),
    }
}

// ---------------------------------------------------------------------------
// Reinstatements
// ---------------------------------------------------------------------------

/// Previously clawed-back funds returned to the merchant.
#[derive(Debug)]
pub struct TransactionReinstatement {
    pub external_transaction_id: String,
    /// `None` means everything that was clawed back.
    pub reinstated_amount_minor: Option<i64>,
    pub reason: String,
    pub reinstated_at: DateTime,
}

/// The outcome of a reinstatement event.
#[derive(Debug, Clone, Copy, PartialEq, Eq)]
pub enum ReinstatementDecision {
    /// Nothing to write: nothing was reversed, duplicate, stale, or nothing handed back.
    Unchanged,
    /// Record the lowered refunded total and status, stamped with the event
    /// time (kept as the reversal high-water mark), and re-close the invoice.
    Apply { new_status: PaymentStatus, new_amount_refunded: i64, refunded_at: DateTime, handed_back: i64 },
}

/// The decision on a reinstatement (see [`ReinstatementDecision`]).
pub open spec fn reinstatement_outcome(tx: PaymentTransaction, ev: TransactionReinstatement) -> ReinstatementDecision {
    let at = micros_floor(ev.reinstated_at.nanos as int);
    if !(tx.status == PaymentStatus::Settled || tx.status == PaymentStatus::Refunded) || tx.amount_refunded <= 0 {
        ReinstatementDecision::Unchanged
    } else if stale(tx.refunded_at, at) {
        ReinstatementDecision::Unchanged
    } else {
        let asked = match ev.reinstated_amount_minor { Some(a) => a as int, None => tx.amount as int };
        let back = clamp_spec(asked, 0, tx.amount_refunded as int);
        if back == 0 {
            ReinstatementDecision::Unchanged
        } else {
            let n = tx.amount_refunded - back;
            ReinstatementDecision::Apply {
                new_status: if n < tx.amount { PaymentStatus::Settled } else { tx.status },
                new_amount_refunded: n as i64,
                refunded_at: DateTime { nanos: at as i128 },
                handed_back: back as i64,
            }
        }
    }
}

/// Decides a reinstatement: only a transaction with something clawed back
/// takes it; events at or before the last recorded reversal time are ignored;
/// the handed-back amount is limited to what was clawed back; the transaction
/// is settled again once less than its full amount stays refunded.
pub fn reinstate_transaction(tx: &PaymentTransaction, ev: &TransactionReinstatement) -> (d: ReinstatementDecision)
    requires
        ev.reinstated_at.wf(),
    ensures
        d == reinstatement_outcome(*tx, *ev),
{
    let at = truncate_to_micros(ev.reinstated_at);
    let reversed = tx.status == PaymentStatus::Settled || tx.status == PaymentStatus::Refunded;
    if !reversed || tx.amount_refunded <= 0 {
        return ReinstatementDecision::Unchanged;
    }
    match tx.refunded_at {
        Some(r) => {
            if at.nanos <= r.nanos {
                return ReinstatementDecision::Unchanged;
            }
        },
        None => {},
    }
    let asked = match ev.reinstated_amount_minor {
        Some(a) => a,
        None => tx.amount,
    };
    let handed_back = if asked < 0 { 0 } else if asked > tx.amount_refunded { tx.amount_refunded } else { asked };
    if handed_back == 0 {
        return ReinstatementDecision::Unchanged;
    }
    let new_amount_refunded = tx.amount_refunded - handed_back;
    let new_status = if new_amount_refunded < tx.amount { PaymentStatus::Settled } else { tx.status };
    ReinstatementDecision::Apply { new_status, new_amount_refunded, refunded_at: at, handed_back }
}

// ---------------------------------------------------------------------------
// Invoice payment status
// ---------------------------------------------------------------------------

/// Payment status of an invoice.
#[derive(Debug, Clone, Copy, PartialEq, Eq, Structural)]
pub enum InvoicePaymentStatus {
    Unpaid,
    PartiallyPaid,
    Paid,
}

/// The payment status derived from the amount still due and the invoice total.
pub open spec fn payment_status_for(amount_due: i64, total: i64) -> InvoicePaymentStatus {
    if amount_due <= 0 {
        InvoicePaymentStatus::Paid
    } else if amount_due >= total {
        InvoicePaymentStatus::Unpaid
    } else {
        InvoicePaymentStatus::PartiallyPaid
    }
}

/// Paid when nothing is due, unpaid when the whole total is due, partially
/// paid in between.
pub fn invoice_payment_status(amount_due: i64, total: i64) -> (s: InvoicePaymentStatus)
    ensures
        s == payment_status_for(amount_due, total),
{
    if amount_due <= 0 {
        InvoicePaymentStatus::Paid
    } else if amount_due >= total {
        InvoicePaymentStatus::Unpaid
    } else {
        InvoicePaymentStatus::PartiallyPaid
    }
}

// ---------------------------------------------------------------------------
// After a successful payment
// ---------------------------------------------------------------------------

/// Lifecycle status of an invoice.
#[derive(Debug, Clone, Copy, PartialEq, Eq, Structural)]
pub enum InvoiceStatus {
    Draft,
    Finalized,
    Uncollectible,
    Void,
}

/// When a subscription starts to run.
#[derive(Debug, Clone, Copy, PartialEq, Eq, Structural)]
pub enum ActivationCondition {
    OnStart,
    OnCheckout,
    Manual,
}

/// The activation state of the subscription an invoice belongs to.
#[derive(Debug, Clone, Copy, PartialEq, Eq, Structural)]
pub struct SubscriptionActivation {
    pub activated: bool,
    pub condition: ActivationCondition,
}

/// What a successful payment on an invoice sets off.
#[derive(Debug, Clone, Copy, PartialEq, Eq, Structural)]
pub struct PaymentFollowUp {
    /// Number and finalize the invoice (before the payment is applied).
    pub finalize_invoice: bool,
    /// Activate the invoice's subscription.
    pub activate_subscription: bool,
}

/// An invoice that is neither finalized nor void is finalized when paid.
pub open spec fn needs_finalizing(status: InvoiceStatus) -> bool {
    status != InvoiceStatus::Finalized && status != InvoiceStatus::Void
}

/// The subscription is activated once the invoice is paid in full, if it
/// was never activated and waits for checkout.
pub open spec fn activation_due(amount_due_after: i64, subscription: Option<SubscriptionActivation>) -> bool {
    amount_due_after == 0 && match subscription {
        Some(s) => !s.activated && s.condition == ActivationCondition::OnCheckout,
        None => false,
    }
}

/// The follow-up of a successful payment on an invoice in `status`, whose
/// amount due is `amount_due_after` once the payment is applied, and which
/// belongs to `subscription` if any.
pub fn successful_payment_follow_up(
    status: InvoiceStatus,
    amount_due_after: i64,
    subscription: Option<SubscriptionActivation>,
) -> (f: PaymentFollowUp)
    ensures
        f.finalize_invoice == needs_finalizing(status),
        f.activate_subscription == activation_due(amount_due_after, subscription),
{
    let finalize_invoice = match status {
        InvoiceStatus::Finalized | InvoiceStatus::Void => false,
        _ => true,
    };
    let activate_subscription = if amount_due_after == 0 {
        match subscription {
            Some(s) => !s.activated && matches!(s.condition, ActivationCondition::OnCheckout),
            None => false,
        }
    } else {
        false
    };
    PaymentFollowUp { finalize_invoice, activate_subscription }
}

// ---------------------------------------------------------------------------
// Provider reports on a charge
// ---------------------------------------------------------------------------

/// Status of a charge as the card provider reports it.
#[derive(Debug, Clone, Copy, PartialEq, Eq, Structural)]
pub enum ProviderChargeStatus {
    Succeeded,
    Failed,
    Canceled,
    Pending,
    Processing,
    RequiresCustomerAction,
    RequiresPaymentMethod,
    RequiresConfirmation,
    RequiresCapture,
    Chargeable,
    Consumed,
}

/// What a provider report does to a stored transaction.
#[derive(Debug, Clone, Copy, PartialEq, Eq, Structural)]
pub enum ChargeUpdate {
    /// The transaction is no longer pending or ready: it is left as it is.
    AlreadyFinal,
    /// The report maps to the stored status: nothing is written.
    Unchanged,
    /// Store `status`, stamping the processing time when it settles, then
    /// run that status's follow-up (a settled charge pays its invoice).
    Apply { status: PaymentStatus, stamp_processed: bool },
}

/// The transaction status a provider report maps to; `None` for the
/// statuses the store does not handle.
pub open spec fn reported_status(r: ProviderChargeStatus) -> Option<PaymentStatus> {
    match r {
        ProviderChargeStatus::Succeeded => Some(PaymentStatus::Settled),
        ProviderChargeStatus::Failed => Some(PaymentStatus::Failed),
        ProviderChargeStatus::Canceled => Some(PaymentStatus::Cancelled),
        ProviderChargeStatus::Chargeable | ProviderChargeStatus::Consumed => None,
        _ => Some(PaymentStatus::Pending),
    }
}

/// Applies a provider report to a transaction in status `current`: only a
/// pending or ready transaction moves; a report the store does not handle is
/// a provider error; a report that maps to the stored status changes nothing.
pub fn charge_update(current: PaymentStatus, reported: ProviderChargeStatus) -> (r: Result<ChargeUpdate, StoreError>)
    ensures
        !(current is Pending || current is Ready) ==> r == Ok::<ChargeUpdate, StoreError>(ChargeUpdate::AlreadyFinal),
        (current is Pending || current is Ready) ==> match reported_status(reported) {
            None => r == Err::<ChargeUpdate, StoreError>(StoreError::PaymentProviderError),
            Some(s) => if s == current {
                r == Ok::<ChargeUpdate, StoreError>(ChargeUpdate::Unchanged)
            } else {
                r == Ok::<ChargeUpdate, StoreError>(ChargeUpdate::Apply { status: s, stamp_processed: s is Settled })
            },
        },
{
    match current {
        PaymentStatus::Pending | PaymentStatus::Ready => {},
        _ => {
            return Ok(ChargeUpdate::AlreadyFinal);
        },
    }
    let status = match reported {
        ProviderChargeStatus::Succeeded => PaymentStatus::Settled,
        ProviderChargeStatus::Failed => PaymentStatus::Failed,
        ProviderChargeStatus::Canceled => PaymentStatus::Cancelled,
        ProviderChargeStatus::Chargeable | ProviderChargeStatus::Consumed => {
            return Err(StoreError::PaymentProviderError);
        },
        _ => PaymentStatus::Pending,
    };
    if status == current {
        Ok(ChargeUpdate::Unchanged)
    } else {
        let stamp_processed = match status {
            PaymentStatus::Settled => true,
            _ => false,
        };
        Ok(ChargeUpdate::Apply { status, stamp_processed })
    }
}

} // verus!
