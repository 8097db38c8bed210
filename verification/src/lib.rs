//! Billing-store domain logic: entitlement resolution, usage windows, payment
//! reversal bookkeeping, credit-note construction and a few helpers, each with
//! its contract proved by Verus.
use vstd::prelude::*;

pub mod errors;
pub mod time;
pub mod payments;
pub mod payment_laws;
pub mod payment_methods;
pub mod customers;
pub mod entitlement_values;
pub mod entitlement_resolution;
pub mod entitlement_laws;
pub mod entitlement_priority;
pub mod entitlement_chains;
pub mod entitlement_origins;
pub mod usage_periods;
pub mod usage_period_laws;
pub mod activity;
pub mod historical_rates;
pub mod batch_jobs;
pub mod credit_notes;
pub mod tax_breakdown;
pub mod credit_note_plan;
pub mod credit_note_guard;
pub mod customer_balance;
pub mod plan_versions;
pub mod quotes;
pub mod quote_details;
pub mod checkout;
pub mod mrr_chart;
pub mod mrr_movements;
pub mod bi;
pub mod catalog;
pub mod invites;
pub mod api_tokens;
pub mod text;

verus! {
}
