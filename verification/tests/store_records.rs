use meteroid_store::customer_balance::{BalanceLedgerEntry, CustomerBalance};
use meteroid_store::customers::{check_archivable, SubscriptionStatus};
use meteroid_store::errors::StoreError;
use meteroid_store::plan_versions::{clear_draft_pointer, draft_copy, PlanVersionSettings, VersionPointers};

#[test]
fn balance_update_records_the_balance_after() {
    assert_eq!(
        CustomerBalance::update(1_000, -400, Some(9)),
        Ok(BalanceLedgerEntry { amount_cents: -400, balance_cents_after: 600, invoice_id: Some(9) })
    );
    assert_eq!(
        CustomerBalance::update(1_000, -1_000, None),
        Ok(BalanceLedgerEntry { amount_cents: -1_000, balance_cents_after: 0, invoice_id: None })
    );
}

#[test]
fn balance_may_not_go_negative() {
    assert_eq!(CustomerBalance::update(100, -101, None), Err(StoreError::NegativeCustomerBalance));
}

#[test]
fn running_subscriptions_block_archiving() {
    assert_eq!(check_archivable(&vec![]), Ok(()));
    assert_eq!(check_archivable(&vec![SubscriptionStatus::Cancelled, SubscriptionStatus::Completed]), Ok(()));
    for s in [
        SubscriptionStatus::Active,
        SubscriptionStatus::TrialActive,
        SubscriptionStatus::TrialExpired,
        SubscriptionStatus::PendingCharge,
        SubscriptionStatus::Paused,
        SubscriptionStatus::Suspended,
    ] {
        assert_eq!(
            check_archivable(&vec![SubscriptionStatus::Cancelled, s]),
            Err(StoreError::InvalidArgument(
                "Cannot archive customer with active subscriptions. Cancel all active subscriptions before archiving."
                    .to_string()
            ))
        );
    }
}

#[test]
fn draft_copy_takes_the_next_version_number() {
    let source = PlanVersionSettings {
        plan_id: 5,
        version: 3,
        trial_duration_days: Some(14),
        trialing_plan_id: None,
        trial_is_free: true,
        period_start_day: Some(1),
        net_terms: 30,
        currency: "EUR".to_string(),
        billing_cycles: None,
        uses_product_pricing: false,
    };
    let v = draft_copy(&source, 77, 9);
    assert_eq!((v.id, v.is_draft_version, v.created_by), (77, true, 9));
    assert_eq!(v.settings.version, 4);
    assert!(v.settings.uses_product_pricing);
    assert_eq!((v.settings.plan_id, v.settings.net_terms, v.settings.currency.as_str()), (5, 30, "EUR"));
    assert_eq!(v.settings.trial_duration_days, Some(14));
    assert_eq!(clear_draft_pointer(), VersionPointers { active_version_id: None, draft_version_id: Some(None) });
}
