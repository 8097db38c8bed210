use meteroid_store::activity::{
    actor_ids_of_type, capped_limit, fetch_n, flatten_recipients, into_page, user_display, ActivityCursor, ActorType,
    SentEmailAttachmentKind, ACTIVITY_MAX_LIMIT,
};
use meteroid_store::bi::{amount_in_usd, usd_rate_for};
use meteroid_store::credit_notes::Dec;
use meteroid_store::entitlement_resolution::{Entitlement, Feature, FeatureRef, FeatureStatus, RawResolvedEntitlement, ResolvedEntitlementValue};
use meteroid_store::entitlement_origins::{origin_ids, origin_name, plan_ids_to_load, with_origin_names, OriginKind, OriginNames};
use meteroid_store::batch_jobs::{job_final_status, plan_chunks, BatchJobStatus, ChunkPlan, JobChunkSummary};
use meteroid_store::catalog::{check_existing_price, check_existing_price_allowed, check_new_price_currency, check_tax_code, ExistingPrice};
use meteroid_store::invites::{
    check_accept, check_invite_link, check_invite_target, check_leave, check_not_member, check_not_self_invite, check_remove_member,
    check_resend, check_revoke, invite_expiry, normalized_email, InviteState, OrganizationUserRole,
};
use meteroid_store::checkout::{check_checkout_amount, check_checkout_currency, checkout_due_date};
use meteroid_store::customers::validate_customer_currency;
use meteroid_store::entitlement_chains::{
    add_on_ids_of_chain, plan_version_scope, quote_scope, scoped_entitlements, select_features, addon_scope, customer_chain, is_addon_multi_instance, load_multi_instance_addons, mode_for_entity, product_scope,
    quote_chain, selection_scope, subscription_chain, subscription_scope, unique_product_ids,
};
use meteroid_store::entitlement_values::{
    merge_additive, merge_permissive, prev_dominates_under_permissive, validate_value_matches_feature_type,
    EntitlementEntityId, EntitlementMode, EntitlementValue, FeatureType, OverageBehavior, ResetPeriod,
};
use meteroid_store::errors::StoreError;
use meteroid_store::historical_rates::{get_mapped_rates_for_currency, HistoricalRatesFromUsd};
use meteroid_store::mrr_movements::{mrr_delta, mrr_movements, mrr_subscription, records_mrr, InvoiceType, MrrMovementType, SubscriptionEventType};
use meteroid_store::mrr_chart::{
    mrr_series_by_plan, mrr_split_by_plan, total_mrr_series, CountAndValue, MrrBreakdown, PlanMrrRow, TotalMrrRow,
};
use meteroid_store::payments::{
    consolidate_intent_and_transaction, invoice_payment_status, reinstate_transaction, reverse_transaction,
    transition_allowed, ConsolidateDecision, InvoicePaymentStatus, NextActionPatch, PaymentIntent, PaymentStatus,
    PaymentTransaction, ReinstatementDecision, ReversalAmount, ReversalDecision, TransactionReinstatement,
    TransactionReversal,
};
use meteroid_store::plan_versions::{remap_component_prices, version_pointers, ComponentKey, ComponentPrice};
use meteroid_store::quotes::{check_quote_cancellable, check_quote_recipients, quote_send_action, QuoteSendAction, QuoteStatus};
use meteroid_store::time::{Date, DateTime};

const SEC: i128 = 1_000_000_000;

fn at(seconds: i128) -> DateTime {
    DateTime { nanos: 1_700_000_000 * SEC + seconds * SEC }
}

fn invalid(msg: &str) -> StoreError {
    StoreError::InvalidArgument(msg.to_string())
}

fn tx(status: PaymentStatus, amount: i64, refunded: i64, refunded_at: Option<DateTime>) -> PaymentTransaction {
    PaymentTransaction {
        id: 1,
        tenant_id: 2,
        invoice_id: Some(3),
        status,
        amount,
        amount_refunded: refunded,
        refunded_at,
        provider_transaction_id: Some("pi_1".to_string()),
    }
}

fn intent(status: PaymentStatus) -> PaymentIntent {
    PaymentIntent {
        external_id: "pi_1".to_string(),
        transaction_id: 1,
        tenant_id: 2,
        status,
        has_next_action: false,
        last_payment_error: None,
        processed_at: Some(at(0)),
    }
}

fn reversal(amount: ReversalAmount, when: DateTime) -> TransactionReversal {
    TransactionReversal { external_transaction_id: "ch_1".to_string(), amount, reason: "refund".to_string(), reversed_at: when }
}

fn reinstatement(amount: Option<i64>, when: DateTime) -> TransactionReinstatement {
    TransactionReinstatement { external_transaction_id: "ch_1".to_string(), reinstated_amount_minor: amount, reason: "won".to_string(), reinstated_at: when }
}

fn metered(limit: Option<u64>, enabled: bool, warning: Option<u8>) -> EntitlementValue {
    EntitlementValue::Metered {
        limit,
        reset_period: ResetPeriod::Never,
        overage_behavior: OverageBehavior::Allow,
        warning_threshold_pct: warning,
        enabled,
    }
}

fn limit_of(v: EntitlementValue) -> Option<u64> {
    match v {
        EntitlementValue::Metered { limit, .. } => limit,
        _ => panic!("metered"),
    }
}

fn breakdown(n: i64) -> MrrBreakdown {
    let cv = CountAndValue { count: n, value: n * 100 };
    MrrBreakdown { new_business: cv, expansion: cv, contraction: cv, churn: cv, reactivation: cv, net_new_mrr: n, total_net_mrr: n * 10 }
}

#[test]
fn status_transitions() {
    assert!(transition_allowed(PaymentStatus::Pending, PaymentStatus::Settled));
    assert!(transition_allowed(PaymentStatus::Ready, PaymentStatus::Failed));
    assert!(transition_allowed(PaymentStatus::Failed, PaymentStatus::Settled));
    assert!(!transition_allowed(PaymentStatus::Failed, PaymentStatus::Pending));
    assert!(!transition_allowed(PaymentStatus::Settled, PaymentStatus::Failed));
    assert!(!transition_allowed(PaymentStatus::Refunded, PaymentStatus::Settled));
}

#[test]
fn terminal_statuses_ignore_reports() {
    for s in [PaymentStatus::Settled, PaymentStatus::Cancelled, PaymentStatus::Refunded] {
        assert_eq!(consolidate_intent_and_transaction(&tx(s, 1000, 0, None), &intent(PaymentStatus::Failed)), ConsolidateDecision::Unchanged);
    }
}

#[test]
fn pending_transaction_takes_settlement() {
    let d = consolidate_intent_and_transaction(&tx(PaymentStatus::Pending, 1000, 0, None), &intent(PaymentStatus::Settled));
    assert!(matches!(d, ConsolidateDecision::Update { status_changed: true, .. }));
    let same = consolidate_intent_and_transaction(&tx(PaymentStatus::Pending, 1000, 0, None), &intent(PaymentStatus::Pending));
    assert!(matches!(same, ConsolidateDecision::Update { status_changed: false, .. } | ConsolidateDecision::Unchanged));
    let _ = NextActionPatch::Keep;
}

#[test]
fn full_reversal_refunds_settled_charge_and_redelivery_is_noop() {
    let t = tx(PaymentStatus::Settled, 1000, 0, None);
    let d = reverse_transaction(&t, &reversal(ReversalAmount::Full, at(10)));
    assert_eq!(d, ReversalDecision::Apply { new_status: PaymentStatus::Refunded, new_amount_refunded: 1000, refunded_at: at(10) });
    let after = tx(PaymentStatus::Refunded, 1000, 1000, Some(at(10)));
    assert_eq!(reverse_transaction(&after, &reversal(ReversalAmount::Full, at(10))), ReversalDecision::Unchanged);
}

#[test]
fn cumulative_reversal_never_lowers_refunded_amount() {
    let t = tx(PaymentStatus::Settled, 1000, 400, Some(at(5)));
    assert_eq!(reverse_transaction(&t, &reversal(ReversalAmount::Cumulative(300), at(20))), ReversalDecision::Unchanged);
    assert_eq!(
        reverse_transaction(&t, &reversal(ReversalAmount::Cumulative(600), at(1))),
        ReversalDecision::Apply { new_status: PaymentStatus::Settled, new_amount_refunded: 600, refunded_at: at(1) }
    );
    assert_eq!(
        reverse_transaction(&t, &reversal(ReversalAmount::Cumulative(5000), at(20))),
        ReversalDecision::Apply { new_status: PaymentStatus::Refunded, new_amount_refunded: 1000, refunded_at: at(20) }
    );
}

#[test]
fn incremental_reversal_is_guarded_by_time() {
    let t = tx(PaymentStatus::Settled, 1000, 400, Some(at(5)));
    assert_eq!(reverse_transaction(&t, &reversal(ReversalAmount::Incremental(100), at(5))), ReversalDecision::Unchanged);
    assert_eq!(
        reverse_transaction(&t, &reversal(ReversalAmount::Incremental(100), at(6))),
        ReversalDecision::Apply { new_status: PaymentStatus::Settled, new_amount_refunded: 500, refunded_at: at(6) }
    );
}

#[test]
fn reversal_of_unsettled_charge_fails_it() {
    let t = tx(PaymentStatus::Pending, 1000, 0, None);
    let when = DateTime { nanos: at(3).nanos + 1_234 };
    assert_eq!(reverse_transaction(&t, &reversal(ReversalAmount::Full, when)), ReversalDecision::FailCharge { processed_at: DateTime { nanos: at(3).nanos + 1_000 } });
}

#[test]
fn full_reinstatement_undoes_full_reversal() {
    let refunded = tx(PaymentStatus::Refunded, 1000, 1000, Some(at(10)));
    let d = reinstate_transaction(&refunded, &reinstatement(None, at(20)));
    assert_eq!(
        d,
        ReinstatementDecision::Apply { new_status: PaymentStatus::Settled, new_amount_refunded: 0, refunded_at: at(20), handed_back: 1000 }
    );
    let again = tx(PaymentStatus::Settled, 1000, 0, Some(at(20)));
    assert_eq!(reinstate_transaction(&again, &reinstatement(None, at(20))), ReinstatementDecision::Unchanged);
    assert_eq!(reverse_transaction(&again, &reversal(ReversalAmount::Full, at(10))), ReversalDecision::Unchanged);
}

#[test]
fn partial_reinstatement_is_clamped() {
    let t = tx(PaymentStatus::Settled, 1000, 300, Some(at(1)));
    assert_eq!(
        reinstate_transaction(&t, &reinstatement(Some(500), at(2))),
        ReinstatementDecision::Apply { new_status: PaymentStatus::Settled, new_amount_refunded: 0, refunded_at: at(2), handed_back: 300 }
    );
    assert_eq!(reinstate_transaction(&t, &reinstatement(Some(0), at(2))), ReinstatementDecision::Unchanged);
}

#[test]
fn invoice_payment_statuses() {
    assert_eq!(invoice_payment_status(0, 1000), InvoicePaymentStatus::Paid);
    assert_eq!(invoice_payment_status(-5, 1000), InvoicePaymentStatus::Paid);
    assert_eq!(invoice_payment_status(1000, 1000), InvoicePaymentStatus::Unpaid);
    assert_eq!(invoice_payment_status(400, 1000), InvoicePaymentStatus::PartiallyPaid);
}

#[test]
fn activity_limits_and_pages() {
    assert_eq!(capped_limit(0), 1);
    assert_eq!(capped_limit(5000), ACTIVITY_MAX_LIMIT);
    assert_eq!(capped_limit(20), 20);
    assert_eq!(fetch_n(20), 21);
    let c = |s: i128, id: u128| ActivityCursor { occurred_at: at(s), id };
    let rows = vec![(c(3, 1), "a"), (c(2, 2), "b"), (c(1, 3), "c")];
    let page = into_page(rows, 2);
    assert_eq!(page.items, vec!["a", "b"]);
    assert_eq!(page.next_cursor, Some(c(2, 2)));
    let last = into_page(vec![(c(1, 1), "x")], 2);
    assert_eq!(last.items, vec!["x"]);
    assert_eq!(last.next_cursor, None);
}

#[test]
fn user_display_names() {
    let email = "jane@example.com".to_string();
    assert_eq!(user_display(&Some("Jane".to_string()), &Some("Doe".to_string()), &email), "Jane Doe");
    assert_eq!(user_display(&Some("Jane".to_string()), &None, &email), "Jane");
    assert_eq!(user_display(&None, &Some(" Doe ".to_string()), &email), "Doe");
    assert_eq!(user_display(&None, &None, &email), "jane@example.com");
    assert_eq!(user_display(&Some("  ".to_string()), &Some("".to_string()), &email), "jane@example.com");
}

#[test]
fn user_display_names_trim_unicode_white_space() {
    let email = "jane@example.com".to_string();
    let first = Some("\u{3000}\tJané".to_string());
    let last = Some("Dœ\u{a0}\n\u{2029}".to_string());
    assert_eq!(user_display(&first, &last, &email), "Jané Dœ");
    assert_eq!(user_display(&Some("\u{85}\u{2000}".to_string()), &None, &email), "jane@example.com");
    // a zero-width space is not white space, so it stays
    assert_eq!(user_display(&Some("\u{200b}".to_string()), &None, &email), "\u{200b}");
}

#[test]
fn actor_ids_are_distinct_per_type() {
    let actors = [(ActorType::User, 1), (ActorType::ApiToken, 9), (ActorType::User, 2), (ActorType::User, 1)];
    assert_eq!(actor_ids_of_type(&actors, ActorType::User), vec![1, 2]);
    assert_eq!(actor_ids_of_type(&actors, ActorType::ApiToken), vec![9]);
}

#[test]
fn sent_email_records() {
    assert_eq!(SentEmailAttachmentKind::InvoicePdf.stored_name(), "invoice_pdf");
    assert_eq!(SentEmailAttachmentKind::CreditNotePdf.stored_name(), "credit_note_pdf");
    assert_eq!(flatten_recipients(vec![Some("a@x".to_string()), None, Some("b@x".to_string())]), vec!["a@x", "b@x"]);
}

#[test]
fn batch_job_final_status() {
    let s = |total, active, failed, items| JobChunkSummary { total_chunks: total, active_chunks: active, failed_chunks: failed, total_failed: items };
    assert_eq!(job_final_status(&s(4, 1, 0, 0)), None);
    assert_eq!(job_final_status(&s(4, 0, 4, 0)), Some(BatchJobStatus::Failed));
    assert_eq!(job_final_status(&s(4, 0, 1, 0)), Some(BatchJobStatus::CompletedWithErrors));
    assert_eq!(job_final_status(&s(4, 0, 0, 3)), Some(BatchJobStatus::CompletedWithErrors));
    assert_eq!(job_final_status(&s(4, 0, 0, 0)), Some(BatchJobStatus::Completed));
    assert_eq!(
        plan_chunks(&[(0, 100), (100, 50)], 3),
        vec![
            ChunkPlan { chunk_index: 0, item_offset: 0, item_count: 100, max_retries: 3 },
            ChunkPlan { chunk_index: 1, item_offset: 100, item_count: 50, max_retries: 3 },
        ]
    );
}

#[test]
fn historical_rate_pairs() {
    let rates = HistoricalRatesFromUsd {
        id: 7,
        date: Date { days: 20000 },
        updated_at: at(0),
        rates: vec![("EUR".to_string(), 90u32), ("GBP".to_string(), 80u32)],
    };
    let p = get_mapped_rates_for_currency("EUR", "GBP", Some(rates)).unwrap();
    assert_eq!((p.from_rate, p.to_rate, p.id), (90, 80, 7));
    assert_eq!(p.from_currency, "EUR");
    let none = HistoricalRatesFromUsd { id: 7, date: Date { days: 1 }, updated_at: at(0), rates: vec![("EUR".to_string(), 90u32)] };
    assert!(get_mapped_rates_for_currency("EUR", "JPY", Some(none)).is_none());
    assert!(get_mapped_rates_for_currency::<u32>("EUR", "GBP", None).is_none());
}

#[test]
fn customer_currency_validation() {
    let available = vec![Some("EUR".to_string()), None, Some("USD".to_string())];
    assert_eq!(validate_customer_currency("USD", &available), Ok(()));
    assert_eq!(validate_customer_currency("GBP", &available), Err(invalid("Currency 'GBP' is not available for this tenant")));
}

#[test]
fn permissive_merge_examples() {
    assert_eq!(limit_of(merge_permissive(metered(Some(100), true, None), metered(Some(300), true, None))), Some(300));
    assert_eq!(limit_of(merge_permissive(metered(Some(100), true, None), metered(None, true, None))), None);
    let a = metered(Some(100), true, Some(80));
    let b = metered(Some(300), false, Some(50));
    assert_eq!(limit_of(merge_permissive(a, b)), limit_of(merge_permissive(b, a)));
    assert_eq!(merge_permissive(a, a), a);
    assert!(matches!(merge_permissive(EntitlementValue::Boolean { enabled: false }, EntitlementValue::Boolean { enabled: true }), EntitlementValue::Boolean { enabled: true }));
    assert!(prev_dominates_under_permissive(&metered(None, true, None), &metered(Some(5), true, None)));
}

#[test]
fn additive_merge_examples() {
    let a = metered(Some(100), false, Some(80));
    let b = metered(Some(250), true, None);
    assert_eq!(limit_of(merge_additive(a, b)), Some(350));
    assert_eq!(limit_of(merge_additive(b, a)), Some(350));
    assert!(matches!(merge_additive(a, b), EntitlementValue::Metered { enabled: true, warning_threshold_pct: Some(80), .. }));
    assert_eq!(limit_of(merge_additive(a, metered(None, true, None))), None);
}

#[test]
fn feature_type_validation() {
    assert!(validate_value_matches_feature_type(&EntitlementValue::Boolean { enabled: true }, &FeatureType::Boolean).is_ok());
    assert!(validate_value_matches_feature_type(&metered(Some(1), true, None), &FeatureType::Boolean).is_err());
    assert!(validate_value_matches_feature_type(&metered(Some(1), true, None), &FeatureType::Metered { metric_id: 4 }).is_ok());
}

#[test]
fn chains_and_scopes() {
    assert_eq!(
        subscription_chain(1, 2, &[3], 4),
        vec![EntitlementEntityId::Plan(1), EntitlementEntityId::PlanVersion(2), EntitlementEntityId::AddOn(3), EntitlementEntityId::Subscription(4)]
    );
    assert_eq!(quote_chain(1, 2, &[], 5), vec![EntitlementEntityId::Plan(1), EntitlementEntityId::PlanVersion(2), EntitlementEntityId::Quote(5)]);
    assert_eq!(
        customer_chain(&[1, 2], &[3], &[4], &[5]),
        vec![
            EntitlementEntityId::Plan(1),
            EntitlementEntityId::Plan(2),
            EntitlementEntityId::PlanVersion(3),
            EntitlementEntityId::AddOn(4),
            EntitlementEntityId::Subscription(5),
        ]
    );
    assert_eq!(unique_product_ids(&[1, 2, 1], &[2, 3], &[4]), vec![1, 2, 3, 4]);
    let p = product_scope(9);
    assert!(p.chain.is_empty() && p.product_ids == vec![9] && !p.include_globals);
    let a = addon_scope(8, 9);
    assert_eq!(a.chain, vec![EntitlementEntityId::AddOn(8)]);
    let s = subscription_scope(1, 2, 3, &[4], &[10, 11], &[11, 12]);
    assert_eq!(s.product_ids, vec![10, 11, 12]);
    assert!(s.include_globals);
    let sel = selection_scope(1, 2, &[4], &[10], &[10], &[13]);
    assert_eq!(sel.product_ids, vec![10, 13]);
}

#[test]
fn add_on_modes() {
    assert!(is_addon_multi_instance(None));
    assert!(!is_addon_multi_instance(Some(1)));
    assert!(is_addon_multi_instance(Some(3)));
    assert_eq!(load_multi_instance_addons(&[(1, Some(5)), (2, Some(1)), (3, None)]), vec![1, 3]);
    assert_eq!(mode_for_entity(&EntitlementEntityId::AddOn(1), true), EntitlementMode::Stack);
    assert_eq!(mode_for_entity(&EntitlementEntityId::Plan(1), true), EntitlementMode::Override);
}

#[test]
fn quote_transitions() {
    assert_eq!(quote_send_action(QuoteStatus::Draft), Ok(QuoteSendAction::Publish));
    assert_eq!(quote_send_action(QuoteStatus::Pending), Ok(QuoteSendAction::Resend));
    assert_eq!(quote_send_action(QuoteStatus::Accepted), Err(invalid("Cannot send an already accepted quote")));
    assert_eq!(quote_send_action(QuoteStatus::Expired), Err(invalid("Cannot send an expired quote")));
    assert_eq!(check_quote_cancellable(QuoteStatus::Pending), Ok(()));
    assert_eq!(check_quote_cancellable(QuoteStatus::Cancelled), Err(invalid("Quote is already cancelled")));
    assert_eq!(check_quote_cancellable(QuoteStatus::Declined), Err(invalid("Cannot cancel a declined quote")));
    assert_eq!(check_quote_recipients(0), Err(invalid("Quote has no recipients configured")));
    assert_eq!(check_quote_recipients(2), Ok(()));
}

#[test]
fn checkout_confirmations() {
    assert_eq!(check_checkout_currency("EUR", "EUR"), Ok(()));
    assert_eq!(
        check_checkout_currency("EUR", "USD"),
        Err(StoreError::CheckoutError("Currency is different from the confirmation".to_string()))
    );
    assert_eq!(check_checkout_amount(1500, 1500), Ok(()));
    assert_eq!(
        check_checkout_amount(1500, 1499),
        Err(StoreError::CheckoutError("Total due amount is different from the confirmation".to_string()))
    );
    assert_eq!(check_checkout_amount(-1, u64::MAX), Ok(()));
    assert_eq!(checkout_due_date(Date { days: 20000 }, 30), DateTime { nanos: 20030 * 86_400 * SEC });
}

#[test]
fn plan_version_copies() {
    let p = version_pointers(true, 5);
    assert_eq!((p.active_version_id, p.draft_version_id), (None, Some(Some(5))));
    let q = version_pointers(false, 6);
    assert_eq!((q.active_version_id, q.draft_version_id), (Some(Some(6)), None));
    let key = |id: u128, name: &str, product: Option<u128>| ComponentKey { id, name: name.to_string(), product_id: product };
    let src = vec![key(1, "Seats", Some(10)), key(2, "Usage", None), key(3, "Gone", None)];
    let dst = vec![key(11, "Seats", Some(10)), key(12, "Usage", None), key(13, "Usage", None)];
    let links = vec![
        ComponentPrice { plan_component_id: 1, price_id: 100 },
        ComponentPrice { plan_component_id: 2, price_id: 200 },
        ComponentPrice { plan_component_id: 3, price_id: 300 },
        ComponentPrice { plan_component_id: 4, price_id: 400 },
    ];
    assert_eq!(
        remap_component_prices(&src, &dst, &links),
        vec![ComponentPrice { plan_component_id: 11, price_id: 100 }, ComponentPrice { plan_component_id: 13, price_id: 200 }]
    );
}

#[test]
fn mrr_series() {
    let row = |date: &str, id: u128, name: &str, n: i64| PlanMrrRow {
        date: date.to_string(),
        plan_id: id,
        plan_key: format!("key-{id}"),
        plan_name: name.to_string(),
        data: breakdown(n),
    };
    let rows = vec![row("2025-01-01", 1, "Pro", 1), row("2025-01-01", 2, "Basic", 2), row("2025-01-02", 1, "Pro", 3)];
    let series = mrr_series_by_plan(&rows);
    assert_eq!(series.len(), 2);
    let pro = series.iter().find(|s| s.name == "Pro").unwrap();
    assert_eq!(pro.code, "mrr_breakdown_plan_key-1");
    assert_eq!(pro.plan.as_ref().map(|p| p.id), Some(1));
    assert_eq!(pro.data.iter().map(|p| p.x.as_str()).collect::<Vec<_>>(), vec!["2025-01-01", "2025-01-02"]);
    assert_eq!(pro.data[1].data, breakdown(3));
    let basic = series.iter().find(|s| s.name == "Basic").unwrap();
    assert_eq!(basic.data.len(), 1);
    let total = total_mrr_series(&vec![TotalMrrRow { period: "2025-01-01".to_string(), data: breakdown(4) }]);
    assert_eq!((total.name.as_str(), total.code.as_str()), ("Total MRR", "total_mrr"));
    assert!(total.plan.is_none());
    assert_eq!(total.data[0].data, breakdown(4));
    assert!(mrr_split_by_plan(&Some(vec![1])));
    assert!(!mrr_split_by_plan(&Some(vec![])));
    assert!(!mrr_split_by_plan(&None));
}

#[test]
fn more_scopes_and_filters() {
    let pv = plan_version_scope(1, 2, vec![7, 8]);
    assert_eq!(pv.chain, vec![EntitlementEntityId::Plan(1), EntitlementEntityId::PlanVersion(2)]);
    assert_eq!(pv.product_ids, vec![7, 8]);
    assert!(pv.include_globals);
    let q = quote_scope(1, 2, 9, &[3], &[7], &[7, 8]);
    assert_eq!(q.chain.last(), Some(&EntitlementEntityId::Quote(9)));
    assert_eq!(q.product_ids, vec![7, 8]);
    assert_eq!(
        add_on_ids_of_chain(&[EntitlementEntityId::Plan(1), EntitlementEntityId::AddOn(4), EntitlementEntityId::AddOn(5)]),
        vec![4, 5]
    );
    let e = |id: u128, fid: u128| Entitlement {
        id,
        feature_id: fid,
        entity: EntitlementEntityId::Plan(1),
        mode: EntitlementMode::Stack,
        value: EntitlementValue::Boolean { enabled: true },
        created_at: 0,
    };
    let kept = scoped_entitlements(vec![e(1, 10), e(2, 11), e(3, 12)], &vec![10, 12], None);
    assert_eq!(kept.iter().map(|x| x.id).collect::<Vec<_>>(), vec![1, 3]);
    let only = scoped_entitlements(vec![e(1, 10), e(2, 11), e(3, 12)], &vec![10, 12], Some(12));
    assert_eq!(only.iter().map(|x| x.id).collect::<Vec<_>>(), vec![3]);
    let f = |id: u128| Feature { id, name: format!("f{id}"), product: None, feature_type: FeatureType::Boolean, status: FeatureStatus::Active };
    assert_eq!(select_features(vec![f(1), f(2)], Some(2)).len(), 1);
    assert_eq!(select_features(vec![f(1), f(2)], None).len(), 2);
}

#[test]
fn usd_conversion() {
    let table = |rates: Vec<(&str, u8)>| HistoricalRatesFromUsd {
        id: 5,
        date: Date { days: 1 },
        updated_at: at(0),
        rates: rates.into_iter().map(|(c, r)| (c.to_string(), r)).collect(),
    };
    assert_eq!(usd_rate_for("EUR", Some(table(vec![("EUR", 9)]))), Ok((5, 9)));
    assert_eq!(usd_rate_for::<u8>("EUR", None), Err(StoreError::ValueNotFound("No historical rates found".to_string())));
    assert_eq!(
        usd_rate_for("JPY", Some(table(vec![("EUR", 9)]))),
        Err(StoreError::ValueNotFound("No rate found for currency: JPY".to_string()))
    );
    let q = amount_in_usd(1000, Dec { mantissa: 8, scale: 1 }).unwrap();
    assert_eq!(q.mantissa as f64 / 10f64.powi(q.scale as i32), 1250.0);
    let one = amount_in_usd(1234, Dec { mantissa: 1, scale: 0 }).unwrap();
    assert_eq!(one.mantissa as f64 / 10f64.powi(one.scale as i32), 1234.0);
    assert!(amount_in_usd(1234, Dec { mantissa: 0, scale: 0 }).is_none());
    // a quotient beyond the range of a Decimal is reported, not computed
    assert!(amount_in_usd(i64::MAX, Dec { mantissa: 1, scale: 28 }).is_none());
}

#[test]
fn origin_names() {
    use_origin_names();
}

fn use_origin_names() {
    let origins = [
        EntitlementEntityId::Plan(1),
        EntitlementEntityId::PlanVersion(20),
        EntitlementEntityId::Plan(1),
        EntitlementEntityId::AddOn(30),
        EntitlementEntityId::Subscription(40),
    ];
    assert_eq!(origin_ids(&origins, OriginKind::Plan), vec![1]);
    assert_eq!(origin_ids(&origins, OriginKind::PlanVersion), vec![20]);
    assert_eq!(origin_ids(&origins, OriginKind::Feature), Vec::<u128>::new());
    let versions = vec![(20u128, 2u128, 3i32)];
    assert_eq!(plan_ids_to_load(&[1], &versions), vec![1, 2]);
    let names = OriginNames {
        plans: vec![(1, "Starter".to_string()), (2, "Pro".to_string()), (1, "Starter 2".to_string())],
        plan_versions: versions,
        add_ons: vec![(30, "Seats pack".to_string())],
        features: vec![],
    };
    assert_eq!(origin_name(&EntitlementEntityId::Plan(1), &names), Some("Starter 2".to_string()));
    assert_eq!(origin_name(&EntitlementEntityId::PlanVersion(20), &names), Some("Pro v3".to_string()));
    assert_eq!(origin_name(&EntitlementEntityId::AddOn(30), &names), Some("Seats pack".to_string()));
    assert_eq!(origin_name(&EntitlementEntityId::Feature(9), &names), None);
    assert_eq!(origin_name(&EntitlementEntityId::Quote(9), &names), None);
    let raw = vec![RawResolvedEntitlement {
        feature: FeatureRef { id: 5, name: "api".to_string(), product: None },
        value: ResolvedEntitlementValue::Boolean { enabled: true },
        origin_entity: EntitlementEntityId::PlanVersion(20),
    }];
    let named = with_origin_names(&raw, &names);
    assert_eq!(named[0].origin.name.as_deref(), Some("Pro v3"));
    assert_eq!(named[0].feature.name, "api");
}

#[test]
fn mrr_movements_from_events() {
    use_mrr_movements();
}

fn use_mrr_movements() {
    let events = [
        (SubscriptionEventType::Created, Some(1000)),
        (SubscriptionEventType::Updated, Some(0)),
        (SubscriptionEventType::Switch, Some(-300)),
        (SubscriptionEventType::Updated, Some(200)),
        (SubscriptionEventType::Cancelled, None),
        (SubscriptionEventType::Cancelled, Some(-900)),
    ];
    let ms = mrr_movements(&events, true);
    assert_eq!(
        ms.iter().map(|m| (m.movement_type, m.description, m.net_mrr_change)).collect::<Vec<_>>(),
        vec![
            (MrrMovementType::NewBusiness, "Subscription created", 1000),
            (MrrMovementType::Contraction, "Switched plan", -300),
            (MrrMovementType::Expansion, "Subscription updated", 200),
            (MrrMovementType::Churn, "Subscription cancelled", -900),
        ]
    );
    assert_eq!(mrr_delta(&ms), 0);
    assert!(mrr_movements(&events, false).is_empty());
    assert!(records_mrr(InvoiceType::Recurring));
    assert!(records_mrr(InvoiceType::Adjustment));
    assert!(!records_mrr(InvoiceType::Other));
    assert_eq!(mrr_subscription(Some(4)), Ok(4));
    assert_eq!(mrr_subscription(None), Err(StoreError::ValueNotFound("subscription_id is null".to_string())));
}

#[test]
fn catalog_checks() {
    assert_eq!(
        check_tax_code("   "),
        Err(invalid("tax code is required and is used as the accounting reference"))
    );
    assert_eq!(check_tax_code(" VAT20 "), Ok(()));
    assert_eq!(check_existing_price_allowed(true), Err(invalid("Cannot use existing price with a new product")));
    assert_eq!(check_existing_price_allowed(false), Ok(()));
    let price = |product: u128, currency: &str, archived: bool| ExistingPrice {
        price_key: "pr-1".to_string(),
        product_id: product,
        product_key: format!("p-{product}"),
        currency: currency.to_string(),
        archived,
    };
    assert_eq!(
        check_existing_price(&price(2, "EUR", false), 1, "p-1", "EUR"),
        Err(invalid("Price pr-1 belongs to product p-2, not p-1"))
    );
    assert_eq!(
        check_existing_price(&price(1, "USD", true), 1, "p-1", "EUR"),
        Err(invalid("Price pr-1 currency 'USD' does not match plan version currency 'EUR'"))
    );
    assert_eq!(check_existing_price(&price(1, "EUR", true), 1, "p-1", "EUR"), Err(invalid("Price pr-1 is archived")));
    assert_eq!(check_existing_price(&price(1, "EUR", false), 1, "p-1", "EUR"), Ok(()));
    assert_eq!(
        check_new_price_currency("USD", "EUR"),
        Err(invalid("Price currency 'USD' does not match plan version currency 'EUR'"))
    );
    assert_eq!(check_new_price_currency("EUR", "EUR"), Ok(()));
}

#[test]
fn invitation_lifecycle() {
    let invite = InviteState { organization_id: 1, accepted: false, revoked: false, expires_at: at(100) };
    assert_eq!(normalized_email("Jane@Example.COM"), "jane@example.com");
    assert_eq!(check_not_self_invite("Jane@x.io", "jane@X.io"), Err(invalid("You cannot invite yourself")));
    assert_eq!(check_not_self_invite("jane@x.io", "joe@x.io"), Ok(()));
    assert_eq!(check_invite_target(true, true), Err(invalid("User is already a member")));
    assert_eq!(check_invite_target(false, true), Err(invalid("An active invite already exists for this email")));
    assert_eq!(check_invite_target(false, false), Ok(()));
    assert_eq!(invite_expiry(at(0), 7), DateTime { nanos: at(0).nanos + 7 * 86_400 * SEC });
    assert_eq!(check_resend(&invite, 2, at(0)), Err(StoreError::Forbidden("Invite does not belong to this organization".to_string())));
    assert_eq!(check_resend(&invite, 1, at(101)), Err(invalid("Invite is expired. Revoke it and create a new one.")));
    assert_eq!(check_resend(&invite, 1, at(100)), Ok(()));
    assert_eq!(check_invite_link(&invite, at(50)), Ok(()));
    assert_eq!(check_accept(&invite, at(50), "Jane@x.io", "jane@x.io"), Ok(()));
    assert_eq!(
        check_accept(&invite, at(50), "jane@x.io", "joe@x.io"),
        Err(StoreError::Forbidden("This invite is not valid for your account".to_string()))
    );
    let accepted = InviteState { accepted: true, ..invite };
    assert_eq!(check_accept(&accepted, at(50), "jane@x.io", "jane@x.io"), Err(invalid("This invite has already been used")));
    assert_eq!(check_revoke(&accepted, 1), Err(invalid("Invite already accepted")));
    assert_eq!(check_resend(&accepted, 1, at(0)), Err(invalid("Invite already accepted")));
    let revoked = InviteState { revoked: true, ..invite };
    assert_eq!(check_accept(&revoked, at(50), "jane@x.io", "jane@x.io"), Err(invalid("Invalid or expired invite link")));
    assert_eq!(check_revoke(&revoked, 1), Err(invalid("Invite already revoked")));
    assert_eq!(check_resend(&revoked, 1, at(0)), Err(invalid("Invite is revoked")));
    assert_eq!(check_invite_link(&revoked, at(0)), Err(invalid("Invalid or expired invite link")));
    assert_eq!(check_not_member(true), Err(invalid("You are already a member of this organization")));
    assert_eq!(check_not_member(false), Ok(()));
    assert_eq!(
        check_leave(OrganizationUserRole::Admin, 1),
        Err(invalid("Last admin cannot leave the organization. Transfer the admin role first."))
    );
    assert_eq!(check_leave(OrganizationUserRole::Admin, 2), Ok(()));
    assert_eq!(check_leave(OrganizationUserRole::Member, 0), Ok(()));
    assert_eq!(check_remove_member(OrganizationUserRole::Member, 1, 2), Err(StoreError::Forbidden("Only admins can remove members".to_string())));
    assert_eq!(check_remove_member(OrganizationUserRole::Admin, 1, 1), Err(invalid("Cannot remove yourself. Use LeaveOrganization instead.")));
    assert_eq!(check_remove_member(OrganizationUserRole::Admin, 1, 2), Ok(()));
}

fn stored_after(t: &PaymentTransaction, d: ReversalDecision) -> PaymentTransaction {
    match d {
        ReversalDecision::Apply { new_status, new_amount_refunded, refunded_at } => PaymentTransaction {
            status: new_status,
            amount_refunded: new_amount_refunded,
            refunded_at: Some(refunded_at),
            provider_transaction_id: t.provider_transaction_id.clone(),
            ..*t
        },
        ReversalDecision::FailCharge { .. } => PaymentTransaction {
            status: PaymentStatus::Failed,
            provider_transaction_id: t.provider_transaction_id.clone(),
            ..*t
        },
        ReversalDecision::Unchanged => PaymentTransaction { provider_transaction_id: t.provider_transaction_id.clone(), ..*t },
    }
}

#[test]
fn every_kind_of_reversal_is_a_noop_when_redelivered() {
    let when = DateTime { nanos: 5_000_000_000 };
    let starts = [
        tx(PaymentStatus::Settled, 1000, 0, None),
        tx(PaymentStatus::Settled, 1000, 300, Some(DateTime { nanos: 1_000 })),
        tx(PaymentStatus::Pending, 1000, 0, None),
        tx(PaymentStatus::Refunded, 1000, 1000, None),
    ];
    for start in starts.iter() {
        for amount in [ReversalAmount::Cumulative(400), ReversalAmount::Incremental(250), ReversalAmount::Full, ReversalAmount::Cumulative(100)] {
            let rev = reversal(amount, when);
            let first = reverse_transaction(start, &rev);
            let stored = stored_after(start, first);
            assert_eq!(reverse_transaction(&stored, &rev), ReversalDecision::Unchanged);
        }
    }
}

#[test]
fn unicode_white_space_is_trimmed() {
    assert_eq!(
        check_tax_code("\u{a0}\u{3000}\t\u{2009}"),
        Err(invalid("tax code is required and is used as the accounting reference"))
    );
    let email = "jane@example.com".to_string();
    assert_eq!(user_display(&Some("\u{3000}Jane\u{a0}".to_string()), &None, &email), "Jane");
    // a zero-width space is not white space
    assert_eq!(check_tax_code("\u{200b}"), Ok(()));
}
