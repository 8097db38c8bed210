//! Properties of the payment-transaction decisions over sequences of events.
use vstd::prelude::*;
use crate::payments::{
    consolidate_outcome, reinstatement_outcome, reversal_defined, reversal_outcome,
    ConsolidateDecision, PaymentIntent, PaymentStatus, PaymentTransaction, ReinstatementDecision,
    ReversalDecision, TransactionReinstatement, TransactionReversal,
};
use crate::time::micros_floor;

verus! {

/// The transaction as stored after a reversal decision is written.
pub open spec fn after_reversal(tx: PaymentTransaction, d: ReversalDecision) -> PaymentTransaction {
    match d {
        ReversalDecision::Apply { new_status, new_amount_refunded, refunded_at } =>
            PaymentTransaction { status: new_status, amount_refunded: new_amount_refunded, refunded_at: Some(refunded_at), ..tx },
        _ => tx,
    }
}

/// The transaction as stored after a reinstatement decision is written.
pub open spec fn after_reinstatement(tx: PaymentTransaction, d: ReinstatementDecision) -> PaymentTransaction {
    match d {
        ReinstatementDecision::Apply { new_status, new_amount_refunded, refunded_at, .. } =>
            PaymentTransaction { status: new_status, amount_refunded: new_amount_refunded, refunded_at: Some(refunded_at), ..tx },
        _ => tx,
    }
}

/// The refunded amount lies between nothing and the whole charge.
pub open spec fn refunded_in_range(tx: PaymentTransaction) -> bool {
    0 <= tx.amount_refunded <= tx.amount
}

/// A settled, cancelled or refunded transaction takes no provider status
/// report: money that settled leaves only through a reversal.
pub proof fn law_terminal_statuses_ignore_reports(tx: PaymentTransaction, intent: PaymentIntent)
    requires
        tx.status == PaymentStatus::Settled || tx.status == PaymentStatus::Cancelled
            || tx.status == PaymentStatus::Refunded,
    ensures
        consolidate_outcome(tx, intent) == ConsolidateDecision::Unchanged,
{
}

/// A reversal never lowers the refunded amount nor takes it outside
/// `[0, amount]`, and a transaction is `Refunded` exactly when the whole
/// amount is clawed back.
pub proof fn law_reversal_keeps_refunded_in_range(tx: PaymentTransaction, rev: TransactionReversal)
    requires
        refunded_in_range(tx),
        reversal_defined(tx, rev),
    ensures
        refunded_in_range(after_reversal(tx, reversal_outcome(tx, rev))),
        after_reversal(tx, reversal_outcome(tx, rev)).amount_refunded >= tx.amount_refunded,
        reversal_outcome(tx, rev) matches ReversalDecision::Apply { new_status, new_amount_refunded, .. } ==>
            (new_status == PaymentStatus::Refunded <==> new_amount_refunded >= tx.amount),
{
}

/// The transaction as stored once a reversal event is handled: an applied
/// reversal records its refunded total, a reversal of a charge that never
/// settled records the charge as failed, and otherwise nothing changes.
pub open spec fn after_reversal_event(tx: PaymentTransaction, rev: TransactionReversal) -> PaymentTransaction {
    match reversal_outcome(tx, rev) {
        ReversalDecision::FailCharge { .. } => PaymentTransaction { status: PaymentStatus::Failed, ..tx },
        d => after_reversal(tx, d),
    }
}

/// Delivering the same reversal event twice has the effect of delivering it
/// once, whatever the reversal (cumulative, incremental or full) and whatever
/// the first delivery did: the second one writes nothing.
pub proof fn law_reversal_redelivery_is_noop(tx: PaymentTransaction, rev: TransactionReversal)
    ensures
        reversal_outcome(after_reversal_event(tx, rev), rev) == ReversalDecision::Unchanged,
{
}

/// Delivering the same reinstatement twice has the effect of delivering it
/// once: the second delivery changes nothing.
pub proof fn law_reinstatement_redelivery_is_noop(tx: PaymentTransaction, ev: TransactionReinstatement)
    ensures
        reinstatement_outcome(after_reinstatement(tx, reinstatement_outcome(tx, ev)), ev) == ReinstatementDecision::Unchanged,
{
}

/// A reinstatement never raises the refunded amount nor takes it below zero.
pub proof fn law_reinstatement_keeps_refunded_in_range(tx: PaymentTransaction, ev: TransactionReinstatement)
    requires
        refunded_in_range(tx),
    ensures
        refunded_in_range(after_reinstatement(tx, reinstatement_outcome(tx, ev))),
        after_reinstatement(tx, reinstatement_outcome(tx, ev)).amount_refunded <= tx.amount_refunded,
{
}

/// A full reversal followed by a later full reinstatement brings a settled,
/// never-reversed charge back to settled with nothing refunded.
pub proof fn law_full_reinstatement_undoes_full_reversal(tx: PaymentTransaction, rev: TransactionReversal, ev: TransactionReinstatement)
    requires
        tx.status == PaymentStatus::Settled,
        tx.amount > 0,
        tx.amount_refunded == 0,
        tx.refunded_at is None,
        rev.amount is Full,
        ev.reinstated_amount_minor is None,
        micros_floor(rev.reversed_at.nanos as int) < micros_floor(ev.reinstated_at.nanos as int),
        rev.reversed_at.wf(),
    ensures
        ({
            let t1 = after_reversal(tx, reversal_outcome(tx, rev));
            let t2 = after_reinstatement(t1, reinstatement_outcome(t1, ev));
            t2.status == PaymentStatus::Settled && t2.amount_refunded == 0
        }),
{
}

/// Once a reinstatement at time `t` is recorded, a full or incremental
/// reversal carrying a time at or before `t` (a redelivered earlier
/// chargeback) is ignored.
pub proof fn law_stale_reversal_after_reinstatement_is_ignored(tx: PaymentTransaction, ev: TransactionReinstatement, rev: TransactionReversal)
    requires
        reinstatement_outcome(tx, ev) is Apply,
        !(rev.amount is Cumulative),
        micros_floor(rev.reversed_at.nanos as int) <= micros_floor(ev.reinstated_at.nanos as int),
    ensures
        ({
            let t1 = after_reinstatement(tx, reinstatement_outcome(tx, ev));
            t1.status == PaymentStatus::Settled ==> reversal_outcome(t1, rev) == ReversalDecision::Unchanged
        }),
{
}

/// A provider report is applied whenever the transaction may still move to
/// it: a pending or ready transaction takes any new status, and a failed one
/// takes a later success (a capture that arrives after a stale failure wins).
/// The applied report changes the status, and clears a stored customer
/// action unless the report brings one or is itself pending. Settled,
/// cancelled and refunded transactions, and failed ones receiving anything
/// but a success, are left as they are. Otherwise nothing is written only
/// when the report brings nothing new: the same status, no action, and no
/// provider id to backfill.
pub proof fn law_consolidate_applies_accepted_reports(tx: PaymentTransaction, intent: PaymentIntent)
    ensures
        ({
            let accepted = tx.status is Pending || tx.status is Ready || (tx.status is Failed && intent.status is Settled);
            let d = consolidate_outcome(tx, intent);
            &&& accepted && tx.status != intent.status ==> (d matches ConsolidateDecision::Update {
                status_changed, next_action, ..
            } && status_changed
                && (intent.has_next_action ==> next_action is Store)
                && (!intent.has_next_action && !(intent.status is Pending) ==> next_action is Clear))
            &&& !accepted ==> d is Unchanged
            &&& d is Unchanged <==> (!accepted || (tx.status == intent.status && !intent.has_next_action
                && !(tx.provider_transaction_id is None && intent.external_id@.len() > 0)))
        }),
{
}

} // verus!
