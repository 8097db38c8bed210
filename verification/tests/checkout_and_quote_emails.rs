use meteroid_store::checkout::{checkout_records, CheckoutTotals};
use meteroid_store::payments::{InvoiceStatus, PaymentStatus};
use meteroid_store::quotes::{quote_portal_url, quote_ready_emails};
use meteroid_store::time::Date;

fn totals() -> CheckoutTotals {
    CheckoutTotals { total: 12_000, amount_due: 11_500, subtotal: 10_000, subtotal_recurring: 10_000, tax_amount: 2_000 }
}

#[test]
fn checkout_records_a_draft_invoice_and_a_pending_charge_for_the_amount_due() {
    // 2024-02-01 is day 19754 since 1970-01-01
    let r = checkout_records("EUR", "Pro", Date { days: 19_754 }, 30, totals(), 77);
    assert_eq!(r.invoice.invoice_number, "draft");
    assert_eq!(r.invoice.status, InvoiceStatus::Draft);
    assert!(!r.invoice.issued);
    assert_eq!(r.invoice.currency, "EUR");
    assert_eq!(r.invoice.plan_name, "Pro");
    assert_eq!(r.invoice.invoice_date, Date { days: 19_754 });
    assert_eq!(r.invoice.due_at.nanos, (19_754 + 30) * 86_400_000_000_000);
    assert_eq!(r.invoice.net_terms, 30);
    assert_eq!(r.invoice.totals, totals());
    assert_eq!(r.invoice.tax_rate, 0);
    assert_eq!(r.charge.amount, 11_500);
    assert_eq!(r.charge.currency, "EUR");
    assert_eq!(r.charge.payment_method_id, 77);
    assert_eq!(r.charge.status, PaymentStatus::Pending);
    assert!(r.charge.provider_transaction_id.is_none());
}

#[test]
fn checkout_with_no_net_terms_falls_due_at_the_period_end() {
    let r = checkout_records("USD", "Basic", Date { days: 100 }, 0, totals(), 1);
    assert_eq!(r.invoice.due_at.nanos, 100 * 86_400_000_000_000);
}

#[test]
fn quote_portal_url_carries_the_token() {
    assert_eq!(quote_portal_url("https://app.example.com", "tok123"), "https://app.example.com/portal/quote?token=tok123");
}

#[test]
fn quote_ready_emails_one_per_recipient_with_its_own_link() {
    let recipients = vec!["a@example.com".to_string(), "b@example.com".to_string()];
    let tokens = vec!["ta".to_string(), "tb".to_string()];
    let msg = Some("Please review".to_string());
    let emails = quote_ready_emails(
        &recipients,
        &tokens,
        "https://p.example",
        "Q-0001",
        "Acme SAS",
        "EUR",
        Some(Date { days: 20_000 }),
        &msg,
    );
    assert_eq!(emails.len(), 2);
    assert_eq!(emails[0].recipient_email, "a@example.com");
    assert_eq!(emails[0].portal_url, "https://p.example/portal/quote?token=ta");
    assert_eq!(emails[1].recipient_email, "b@example.com");
    assert_eq!(emails[1].portal_url, "https://p.example/portal/quote?token=tb");
    for e in &emails {
        assert_eq!(e.quote_number, "Q-0001");
        assert_eq!(e.company_name, "Acme SAS");
        assert_eq!(e.currency, "EUR");
        assert_eq!(e.expires_on, Some(Date { days: 20_000 }));
        assert_eq!(e.custom_message.as_deref(), Some("Please review"));
    }
}

#[test]
fn quote_ready_emails_without_recipients_is_empty() {
    let emails = quote_ready_emails(&vec![], &vec![], "u", "Q", "C", "EUR", None, &None);
    assert!(emails.is_empty());
}
