use meteroid_store::payments::{
    successful_payment_follow_up, ActivationCondition, InvoiceStatus, PaymentFollowUp, SubscriptionActivation,
};

fn waiting_for_checkout() -> Option<SubscriptionActivation> {
    Some(SubscriptionActivation { activated: false, condition: ActivationCondition::OnCheckout })
}

#[test]
fn draft_invoice_paid_in_full_is_finalized_and_activates_checkout_subscription() {
    let f = successful_payment_follow_up(InvoiceStatus::Draft, 0, waiting_for_checkout());
    assert_eq!(f, PaymentFollowUp { finalize_invoice: true, activate_subscription: true });
}

#[test]
fn finalized_or_void_invoice_is_not_finalized_again() {
    assert!(!successful_payment_follow_up(InvoiceStatus::Finalized, 500, None).finalize_invoice);
    assert!(!successful_payment_follow_up(InvoiceStatus::Void, 500, None).finalize_invoice);
    assert!(successful_payment_follow_up(InvoiceStatus::Uncollectible, 500, None).finalize_invoice);
}

#[test]
fn partial_payment_activates_nothing() {
    let f = successful_payment_follow_up(InvoiceStatus::Finalized, 1, waiting_for_checkout());
    assert!(!f.activate_subscription);
}

#[test]
fn only_unactivated_checkout_subscriptions_are_activated() {
    let active = Some(SubscriptionActivation { activated: true, condition: ActivationCondition::OnCheckout });
    let on_start = Some(SubscriptionActivation { activated: false, condition: ActivationCondition::OnStart });
    let manual = Some(SubscriptionActivation { activated: false, condition: ActivationCondition::Manual });
    assert!(!successful_payment_follow_up(InvoiceStatus::Finalized, 0, active).activate_subscription);
    assert!(!successful_payment_follow_up(InvoiceStatus::Finalized, 0, on_start).activate_subscription);
    assert!(!successful_payment_follow_up(InvoiceStatus::Finalized, 0, manual).activate_subscription);
    assert!(!successful_payment_follow_up(InvoiceStatus::Finalized, 0, None).activate_subscription);
}

use meteroid_store::errors::StoreError;
use meteroid_store::payments::{charge_update, ChargeUpdate, PaymentStatus, ProviderChargeStatus};

#[test]
fn succeeded_charge_settles_a_pending_transaction() {
    assert_eq!(
        charge_update(PaymentStatus::Pending, ProviderChargeStatus::Succeeded),
        Ok(ChargeUpdate::Apply { status: PaymentStatus::Settled, stamp_processed: true })
    );
    assert_eq!(
        charge_update(PaymentStatus::Ready, ProviderChargeStatus::Failed),
        Ok(ChargeUpdate::Apply { status: PaymentStatus::Failed, stamp_processed: false })
    );
    assert_eq!(
        charge_update(PaymentStatus::Ready, ProviderChargeStatus::Canceled),
        Ok(ChargeUpdate::Apply { status: PaymentStatus::Cancelled, stamp_processed: false })
    );
}

#[test]
fn customer_action_keeps_a_transaction_pending() {
    assert_eq!(charge_update(PaymentStatus::Pending, ProviderChargeStatus::RequiresCustomerAction), Ok(ChargeUpdate::Unchanged));
    assert_eq!(
        charge_update(PaymentStatus::Ready, ProviderChargeStatus::Processing),
        Ok(ChargeUpdate::Apply { status: PaymentStatus::Pending, stamp_processed: false })
    );
}

#[test]
fn settled_transactions_ignore_reports_and_unknown_reports_fail() {
    assert_eq!(charge_update(PaymentStatus::Settled, ProviderChargeStatus::Failed), Ok(ChargeUpdate::AlreadyFinal));
    assert_eq!(charge_update(PaymentStatus::Pending, ProviderChargeStatus::Chargeable), Err(StoreError::PaymentProviderError));
    assert_eq!(charge_update(PaymentStatus::Refunded, ProviderChargeStatus::Consumed), Ok(ChargeUpdate::AlreadyFinal));
}
