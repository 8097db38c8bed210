use meteroid_store::credit_note_plan::{
    balance_delta, check_draft_deleted, check_transition, convert_to_customer_currency, credit_note_number,
    credited_amount, credits_balance, plan_credit_note, requested_line_items, split_credit,
    validate_credit_note_request, CreditNoteStatus, CreditNoteTransition, CreditedLine, InvoiceForCredit,
    IssuedCreditNote,
};
use meteroid_store::credit_note_guard::plan_inputs_in_range;
use meteroid_store::credit_notes::{
    negate_line, negate_line_items, CreditLine, CreditLineItem, CreditType, Dec, TaxDetail,
};
use meteroid_store::errors::StoreError;
use meteroid_store::time::Date;
use meteroid_store::payments::InvoicePaymentStatus;
use meteroid_store::tax_breakdown::{compute_tax_breakdown, TaxBreakdownItem};

fn dec(mantissa: i128, scale: u32) -> Dec {
    Dec { mantissa, scale }
}

fn value_of(d: Dec) -> f64 {
    d.mantissa as f64 / 10f64.powi(d.scale as i32)
}

fn detail(rate: Dec, name: &str, amount: i64) -> TaxDetail {
    TaxDetail { tax_rate: rate, tax_name: name.to_string(), tax_amount: amount }
}

fn line(id: &str, subtotal: i64, taxable: i64, tax: i64, rate: Dec, details: Vec<TaxDetail>) -> CreditLine {
    CreditLine {
        local_id: id.to_string(),
        name: format!("line {}", id),
        start_date: Date { days: 20_000 },
        end_date: Date { days: 20_030 },
        is_prorated: false,
        price_component_id: Some(7),
        sub_component_id: None,
        sub_add_on_id: None,
        product_id: Some(70),
        metric_id: None,
        description: Some("seats".to_string()),
        amount_subtotal: subtotal,
        taxable_amount: taxable,
        tax_amount: tax,
        amount_total: taxable + tax,
        tax_rate: rate,
        tax_details: details,
        quantity: Some(dec(2, 0)),
        unit_price: Some(dec(500, 2)),
    }
}

fn invoice() -> InvoiceForCredit {
    InvoiceForCredit {
        line_items: vec![
            line("A", 1000, 1000, 200, dec(20, 2), vec![detail(dec(20, 2), "VAT", 200)]),
            line("B", 500, 500, 100, dec(20, 2), vec![]),
        ],
        total: 1800,
        applied_credits: 600,
    }
}

fn issued(status: CreditNoteStatus, lines: &[(&str, i64)]) -> IssuedCreditNote {
    IssuedCreditNote {
        status,
        line_items: lines.iter().map(|(id, a)| CreditedLine { local_id: id.to_string(), amount_subtotal: *a }).collect(),
    }
}

fn ask(id: &str, amount: Option<i64>) -> CreditLineItem {
    CreditLineItem { local_id: id.to_string(), amount }
}

fn invalid(msg: &str) -> StoreError {
    StoreError::InvalidArgument(msg.to_string())
}

fn group<'a>(items: &'a [TaxBreakdownItem], rate: Dec, name: &str) -> &'a TaxBreakdownItem {
    items
        .iter()
        .find(|i| same_rate(i.tax_rate, rate) && i.name == name)
        .expect("tax group")
}

/// Two decimals of the same value (1.0 and 1.00 alike).
fn same_rate(a: Dec, b: Dec) -> bool {
    let s = a.scale.max(b.scale);
    a.mantissa * 10i128.pow(s - a.scale) == b.mantissa * 10i128.pow(s - b.scale)
}

#[test]
fn partial_negation_prorates_by_share_and_rounds_half_even() {
    // 200 x 1/3 = 66.67 rounds to 67
    let third = negate_line(&line("T", 3, 200, 0, dec(0, 0), vec![]), Some(1));
    assert_eq!(third.taxable_amount, -67);
    // 5 x 1/2 = 2.5 rounds to 2, 15 x 1/2 = 7.5 rounds to 8
    let half = negate_line(&line("H", 2, 5, 15, dec(0, 0), vec![]), Some(1));
    assert_eq!(half.taxable_amount, -2);
    assert_eq!(half.tax_amount, -8);
    // the whole share keeps the amounts, a zero share clears them
    let whole = negate_line(&line("W", 40, 777, 777, dec(0, 0), vec![]), Some(40));
    assert_eq!((whole.taxable_amount, whole.tax_amount), (-777, -777));
    let none = negate_line(&line("N", 40, 777, 777, dec(0, 0), vec![]), Some(0));
    assert_eq!((none.taxable_amount, none.tax_amount), (0, 0));
}

#[test]
fn tax_groups_compare_rates_by_value() {
    let a = line("A", 100, 100, 20, dec(20, 2), vec![detail(dec(20, 2), "VAT", 20)]);
    let b = line("B", 100, 100, 20, dec(200, 3), vec![detail(dec(200, 3), "VAT", 20)]);
    let c = line("C", 100, 100, 21, dec(21, 2), vec![detail(dec(21, 2), "VAT", 21)]);
    let items = compute_tax_breakdown(&vec![a, b, c]);
    assert_eq!(items.len(), 2);
    assert_eq!(group(&items, dec(20, 2), "VAT").tax_amount, 40);
    assert_eq!(group(&items, dec(21, 2), "VAT").tax_amount, 21);
}

#[test]
fn full_line_negation_keeps_quantity_and_negates_price() {
    let item = line("A", 1000, 900, 180, dec(20, 2), vec![]);
    let r = negate_line(&item, None);
    assert_eq!(r.amount_subtotal, -1000);
    assert_eq!(r.taxable_amount, -900);
    assert_eq!(r.tax_amount, -180);
    assert_eq!(r.amount_total, -1080);
    assert_eq!(r.quantity.map(|q| (q.mantissa, q.scale)), Some((2, 0)));
    assert_eq!(r.unit_price.map(|p| (p.mantissa, p.scale)), Some((-500, 2)));
}

#[test]
fn partial_line_negation_prorates_taxes() {
    let item = line("A", 1000, 1000, 200, dec(20, 2), vec![detail(dec(20, 2), "VAT", 200)]);
    let r = negate_line(&item, Some(250));
    assert_eq!(r.amount_subtotal, -250);
    assert_eq!(r.taxable_amount, -250);
    assert_eq!(r.tax_amount, -50);
    assert_eq!(r.amount_total, -300);
    assert_eq!(r.quantity.map(|q| (q.mantissa, q.scale)), Some((1, 0)));
    assert_eq!(value_of(r.unit_price.unwrap()), -2.5);
    assert_eq!(r.tax_details.len(), 1);
    assert_eq!(r.tax_details[0].tax_amount, 200);
}

#[test]
fn partial_credit_of_zero_subtotal_line_is_zero() {
    let item = line("Z", 0, 0, 0, dec(0, 0), vec![]);
    let r = negate_line(&item, Some(0));
    assert_eq!((r.amount_subtotal, r.taxable_amount, r.tax_amount, r.amount_total), (0, 0, 0, 0));
    assert_eq!(r.unit_price.map(|p| p.mantissa), Some(0));
}

#[test]
fn negate_line_items_uses_last_amount_for_an_id() {
    let items = vec![line("A", 1000, 1000, 200, dec(20, 2), vec![]), line("B", 500, 500, 100, dec(20, 2), vec![])];
    let amounts = vec![("A".to_string(), Some(100)), ("A".to_string(), Some(400)), ("B".to_string(), None)];
    let r = negate_line_items(&items, &amounts);
    assert_eq!(r[0].amount_subtotal, -400);
    assert_eq!(r[0].tax_amount, -80);
    assert_eq!(r[1].amount_subtotal, -500);
    assert_eq!(r[1].amount_total, -600);
}

#[test]
fn tax_breakdown_groups_by_rate_value_and_name() {
    let lines = vec![
        line("A", -1000, -1000, -200, dec(20, 2), vec![detail(dec(20, 2), "VAT", -200)]),
        line("B", -500, -500, -100, dec(20, 2), vec![detail(dec(200, 3), "VAT", -100)]),
        line("C", -300, -300, -30, dec(10, 2), vec![]),
        line("D", 0, 0, 0, dec(5, 2), vec![]),
    ];
    let r = compute_tax_breakdown(&lines);
    assert_eq!(r.len(), 2);
    let vat = group(&r, dec(2, 1), "VAT");
    assert_eq!((vat.tax_amount, vat.taxable_amount), (300, 1500));
    let tax = group(&r, dec(1, 1), "Tax");
    assert_eq!((tax.tax_amount, tax.taxable_amount), (30, 300));
}

#[test]
fn tax_breakdown_counts_a_line_base_once_per_rate() {
    let lines = vec![line(
        "E",
        -100,
        -100,
        -10,
        dec(10, 2),
        vec![detail(dec(5, 2), "GST", -5), detail(dec(50, 3), "PST", -5), detail(dec(1, 1), "X", -10)],
    )];
    let r = compute_tax_breakdown(&lines);
    assert_eq!(r.len(), 3);
    let gst = group(&r, dec(5, 2), "GST");
    let pst = group(&r, dec(5, 2), "PST");
    let x = group(&r, dec(10, 2), "X");
    assert_eq!((gst.tax_amount, gst.taxable_amount), (5, 100));
    assert_eq!((pst.tax_amount, pst.taxable_amount), (5, 100));
    assert_eq!((x.tax_amount, x.taxable_amount), (10, 100));
}

#[test]
fn tax_breakdown_shares_the_base_of_a_rate_across_names() {
    let lines = vec![
        line("A", -1000, -1000, -200, dec(20, 2), vec![detail(dec(20, 2), "VAT", -200)]),
        line("B", -500, -500, -100, dec(20, 2), vec![]),
    ];
    let r = compute_tax_breakdown(&lines);
    assert_eq!(r.len(), 2);
    assert_eq!(group(&r, dec(20, 2), "VAT").taxable_amount, 1500);
    assert_eq!(group(&r, dec(20, 2), "Tax").taxable_amount, 1500);
}

#[test]
fn tax_breakdown_of_no_lines_is_empty() {
    assert!(compute_tax_breakdown(&vec![]).is_empty());
}

#[test]
fn credited_amount_skips_voided_notes() {
    let notes = vec![
        issued(CreditNoteStatus::Finalized, &[("A", -300), ("B", -50)]),
        issued(CreditNoteStatus::Voided, &[("A", -700)]),
        issued(CreditNoteStatus::Draft, &[("A", -100)]),
    ];
    assert_eq!(credited_amount(&notes, &"A".to_string()), 400);
    assert_eq!(credited_amount(&notes, &"B".to_string()), 50);
    assert_eq!(credited_amount(&notes, &"C".to_string()), 0);
}

#[test]
fn plan_credits_everything_remaining_by_default() {
    let plan = plan_credit_note(&invoice(), &vec![], &None, CreditType::CreditToBalance).unwrap();
    assert_eq!(plan.line_items.len(), 2);
    assert_eq!(plan.line_items[0].amount_subtotal, -1000);
    assert_eq!(plan.line_items[0].amount_total, -1200);
    assert_eq!(plan.line_items[0].quantity.map(|q| q.mantissa), Some(1));
    assert_eq!(value_of(plan.line_items[0].unit_price.unwrap()), -10.0);
    assert_eq!(plan.line_items[1].amount_total, -600);
    assert_eq!((plan.subtotal, plan.tax_amount, plan.total), (-1500, -300, -1800));
    assert_eq!((plan.credited_amount_cents, plan.refunded_amount_cents), (1800, 0));
    assert_eq!(plan.tax_breakdown.len(), 2);
    assert_eq!(group(&plan.tax_breakdown, dec(20, 2), "VAT").tax_amount, 200);
    assert_eq!(group(&plan.tax_breakdown, dec(20, 2), "Tax").tax_amount, 100);
}

#[test]
fn plan_empty_request_credits_everything_remaining() {
    let plan = plan_credit_note(&invoice(), &vec![], &Some(vec![]), CreditType::CreditToBalance).unwrap();
    assert_eq!(plan.total, -1800);
}

#[test]
fn plan_refund_restores_applied_credits_share() {
    let plan = plan_credit_note(&invoice(), &vec![], &None, CreditType::Refund).unwrap();
    assert_eq!((plan.credited_amount_cents, plan.refunded_amount_cents), (600, 1200));
    let half = plan_credit_note(&invoice(), &vec![], &Some(vec![ask("A", Some(750))]), CreditType::Refund).unwrap();
    assert_eq!(half.total, -900);
    assert_eq!((half.credited_amount_cents, half.refunded_amount_cents), (300, 600));
}

#[test]
fn plan_credits_the_rest_after_earlier_notes() {
    let notes = vec![
        issued(CreditNoteStatus::Finalized, &[("A", -400)]),
        issued(CreditNoteStatus::Voided, &[("A", -600), ("B", -500)]),
    ];
    let plan = plan_credit_note(&invoice(), &notes, &None, CreditType::CreditToBalance).unwrap();
    assert_eq!(plan.line_items.len(), 2);
    assert_eq!(plan.line_items[0].amount_subtotal, -600);
    assert_eq!(plan.line_items[0].tax_amount, -120);
    assert_eq!(plan.line_items[1].amount_subtotal, -500);
}

#[test]
fn plan_skips_fully_credited_lines_when_crediting_all() {
    let notes = vec![issued(CreditNoteStatus::Finalized, &[("A", -1000)])];
    let plan = plan_credit_note(&invoice(), &notes, &None, CreditType::CreditToBalance).unwrap();
    assert_eq!(plan.line_items.len(), 1);
    assert_eq!(plan.line_items[0].local_id, "B");
}

#[test]
fn plan_with_nothing_left_has_no_lines() {
    let notes = vec![issued(CreditNoteStatus::Finalized, &[("A", -1000), ("B", -500)])];
    let r = plan_credit_note(&invoice(), &notes, &None, CreditType::CreditToBalance);
    assert_eq!(r.unwrap_err(), invalid("No line items to credit"));
}

#[test]
fn plan_of_unknown_line_has_no_lines() {
    let r = plan_credit_note(&invoice(), &vec![], &Some(vec![ask("Z", Some(1))]), CreditType::CreditToBalance);
    assert_eq!(r.unwrap_err(), invalid("No line items to credit"));
}

#[test]
fn plan_refuses_negative_amount() {
    let r = plan_credit_note(&invoice(), &vec![], &Some(vec![ask("A", Some(-5))]), CreditType::CreditToBalance);
    assert_eq!(r.unwrap_err(), invalid("Credit amount for line item 'A' must be positive"));
}

#[test]
fn plan_refuses_amount_above_remaining() {
    let notes = vec![issued(CreditNoteStatus::Finalized, &[("A", -300)])];
    let r = plan_credit_note(&invoice(), &notes, &Some(vec![ask("A", Some(2000))]), CreditType::CreditToBalance);
    assert_eq!(
        r.unwrap_err(),
        invalid("Credit amount 2000 for line item 'A' exceeds remaining creditable amount 700 (original: 1000, already credited: 300)")
    );
}

#[test]
fn plan_refuses_named_line_already_fully_credited() {
    let notes = vec![issued(CreditNoteStatus::Finalized, &[("B", -500)])];
    let r = plan_credit_note(&invoice(), &notes, &Some(vec![ask("B", None)]), CreditType::CreditToBalance);
    assert_eq!(r.unwrap_err(), invalid("Line item 'B' has already been fully credited"));
}

#[test]
fn plan_reports_the_first_failing_line() {
    let r = plan_credit_note(
        &invoice(),
        &vec![],
        &Some(vec![ask("B", Some(-1)), ask("A", Some(5000))]),
        CreditType::CreditToBalance,
    );
    assert_eq!(
        r.unwrap_err(),
        invalid("Credit amount 5000 for line item 'A' exceeds remaining creditable amount 1000 (original: 1000, already credited: 0)")
    );
}

#[test]
fn plan_uses_the_last_request_for_a_line() {
    let plan = plan_credit_note(
        &invoice(),
        &vec![],
        &Some(vec![ask("A", Some(900)), ask("A", Some(100))]),
        CreditType::CreditToBalance,
    )
    .unwrap();
    assert_eq!(plan.line_items.len(), 1);
    assert_eq!(plan.line_items[0].amount_subtotal, -100);
    assert_eq!(plan.total, -120);
}

#[test]
fn law_credit_within_remaining_on_values() {
    let notes = vec![issued(CreditNoteStatus::Finalized, &[("A", -250)])];
    let plan = plan_credit_note(&invoice(), &notes, &Some(vec![ask("A", None)]), CreditType::CreditToBalance).unwrap();
    let credited = -plan.line_items[0].amount_subtotal;
    assert!(credited >= 0);
    assert_eq!(credited + 250, 1000);
}

#[test]
fn split_credit_cases() {
    assert_eq!(split_credit(CreditType::CreditToBalance, -1800, 1800, 600), (1800, 0));
    assert_eq!(split_credit(CreditType::Refund, -1800, 1800, 0), (0, 1800));
    assert_eq!(split_credit(CreditType::Refund, -1800, 0, 600), (0, 1800));
    assert_eq!(split_credit(CreditType::Refund, -1000, 3000, 1000), (333, 667));
    assert_eq!(split_credit(CreditType::Refund, 450, 900, 300), (150, 300));
}

#[test]
fn law_credit_split_is_whole_on_values() {
    for (t, total, inv, applied) in [
        (CreditType::Refund, -1234, 5000, 777),
        (CreditType::Refund, -1, 3, 2),
        (CreditType::CreditToBalance, -99, 100, 50),
    ] {
        let (c, r) = split_credit(t, total, inv, applied);
        assert_eq!(c + r, total.abs());
    }
}

#[test]
fn credit_note_numbers() {
    assert_eq!(credit_note_number(Some(42)), "CN-000042");
    assert_eq!(credit_note_number(Some(1234567)), "CN-1234567");
    assert_eq!(credit_note_number(Some(-5)), "CN--00005");
    assert_eq!(credit_note_number(None), "draft");
    assert_eq!(credit_note_number(Some(0)), "CN-000000");
    assert_eq!(credit_note_number(Some(i64::MIN)), format!("CN-{:06}", i64::MIN));
    assert_eq!(credit_note_number(Some(i64::MAX)), format!("CN-{:06}", i64::MAX));
}

#[test]
fn currency_conversion() {
    assert_eq!(convert_to_customer_currency(1000, "EUR", "EUR", None), Ok(1000));
    assert_eq!(
        convert_to_customer_currency(1000, "EUR", "USD", None),
        Err(invalid("No exchange rate available from EUR to USD"))
    );
    assert_eq!(convert_to_customer_currency(1000, "EUR", "USD", Some(dec(15, 1))), Ok(1500));
    assert_eq!(convert_to_customer_currency(333, "EUR", "USD", Some(dec(15, 1))), Ok(500));
    assert_eq!(convert_to_customer_currency(1000, "EUR", "USD", Some(dec(100, 2))), Ok(1000));
}

#[test]
fn credit_note_request_validation() {
    assert_eq!(
        validate_credit_note_request(false, InvoicePaymentStatus::Paid, CreditType::Refund),
        Err(invalid("Credit notes can only be created for finalized invoices"))
    );
    assert_eq!(
        validate_credit_note_request(true, InvoicePaymentStatus::Unpaid, CreditType::Refund),
        Err(invalid("Refund-type credit notes can only be created for paid or partially paid invoices"))
    );
    assert_eq!(validate_credit_note_request(true, InvoicePaymentStatus::PartiallyPaid, CreditType::Refund), Ok(()));
    assert_eq!(validate_credit_note_request(true, InvoicePaymentStatus::Unpaid, CreditType::CreditToBalance), Ok(()));
}

#[test]
fn requested_line_items_of_empty_request_is_none() {
    assert!(requested_line_items(vec![]).is_none());
    assert_eq!(requested_line_items(vec![ask("A", None)]).map(|v| v.len()), Some(1));
}

#[test]
fn transitions_and_balance() {
    assert_eq!(check_transition(CreditNoteTransition::Finalize, CreditNoteStatus::Draft), Ok(()));
    assert_eq!(
        check_transition(CreditNoteTransition::Finalize, CreditNoteStatus::Finalized),
        Err(invalid("Only draft credit notes can be finalized"))
    );
    assert_eq!(check_transition(CreditNoteTransition::Void, CreditNoteStatus::Finalized), Ok(()));
    assert_eq!(
        check_transition(CreditNoteTransition::Void, CreditNoteStatus::Draft),
        Err(invalid("Only finalized credit notes can be voided"))
    );
    assert!(credits_balance(1));
    assert!(!credits_balance(0));
    assert_eq!(balance_delta(CreditNoteTransition::Finalize, 700), 700);
    assert_eq!(balance_delta(CreditNoteTransition::Void, 700), -700);
    assert_eq!(check_draft_deleted(0), Err(invalid("Credit note not found or is not a draft")));
    assert_eq!(check_draft_deleted(1), Ok(()));
}

#[test]
fn law_credit_all_leaves_nothing_on_values() {
    let inv = invoice();
    let notes = vec![issued(CreditNoteStatus::Finalized, &[("A", -300)])];
    let plan = plan_credit_note(&inv, &notes, &None, CreditType::CreditToBalance).unwrap();
    let recorded = IssuedCreditNote {
        status: CreditNoteStatus::Draft,
        line_items: plan
            .line_items
            .iter()
            .map(|l| CreditedLine { local_id: l.local_id.clone(), amount_subtotal: l.amount_subtotal })
            .collect(),
    };
    let mut after = notes;
    after.push(recorded);
    let again = plan_credit_note(&inv, &after, &None, CreditType::CreditToBalance);
    assert_eq!(again.unwrap_err(), invalid("No line items to credit"));
}

#[test]
fn voiding_the_credit_note_makes_the_lines_creditable_again() {
    let inv = invoice();
    let notes = vec![issued(CreditNoteStatus::Voided, &[("A", -1000), ("B", -500)])];
    let plan = plan_credit_note(&inv, &notes, &None, CreditType::CreditToBalance).unwrap();
    assert_eq!(plan.total, -1800);
}

#[test]
fn plan_input_guard() {
    assert!(plan_inputs_in_range(&invoice(), &vec![], &None, CreditType::Refund));
    let notes = vec![issued(CreditNoteStatus::Finalized, &[("A", i64::MIN)])];
    assert!(!plan_inputs_in_range(&invoice(), &notes, &None, CreditType::CreditToBalance));
    let voided = vec![issued(CreditNoteStatus::Voided, &[("A", i64::MIN)])];
    assert!(plan_inputs_in_range(&invoice(), &voided, &None, CreditType::CreditToBalance));
    let huge = vec![issued(CreditNoteStatus::Finalized, &[("A", i64::MAX), ("A", 1)])];
    assert!(!plan_inputs_in_range(&invoice(), &huge, &None, CreditType::CreditToBalance));
    let mut dup = invoice();
    dup.line_items.push(line("A", 1, 1, 0, dec(0, 0), vec![]));
    assert!(plan_inputs_in_range(&dup, &vec![], &None, CreditType::CreditToBalance));
    let plan = plan_credit_note(&dup, &vec![], &None, CreditType::CreditToBalance).unwrap();
    assert_eq!(plan.line_items.len(), 3);
    assert_eq!(plan.line_items[2].amount_subtotal, -1);
    let mut big = invoice();
    big.line_items.push(line("C", i64::MAX, 1, 0, dec(0, 0), vec![]));
    assert!(!plan_inputs_in_range(&big, &vec![], &None, CreditType::CreditToBalance));
    // Only the lines to credit count: crediting line A alone stays in range.
    let only_a = Some(vec![ask("A", None)]);
    assert!(plan_inputs_in_range(&big, &vec![], &only_a, CreditType::CreditToBalance));
    let plan = plan_credit_note(&big, &vec![], &only_a, CreditType::CreditToBalance).unwrap();
    assert_eq!(plan.subtotal, -1000);
    let mut tight = InvoiceForCredit { total: 1, applied_credits: 1 << 62, ..invoice() };
    tight.line_items.push(line("T", 1 << 40, 1 << 40, 0, dec(0, 0), vec![]));
    assert!(!plan_inputs_in_range(&tight, &vec![], &None, CreditType::Refund));
    assert!(plan_inputs_in_range(&tight, &vec![], &None, CreditType::CreditToBalance));
}

#[test]
fn tax_breakdown_keeps_every_tax() {
    let lines = vec![
        line("A", 100, 100, -20, dec(20, 2), vec![detail(dec(20, 2), "VAT", -20), detail(dec(5, 2), "Eco", 3)]),
        line("B", 100, 100, 20, dec(200, 3), vec![detail(dec(200, 3), "VAT", 20)]),
        line("C", 300, 300, 30, dec(10, 2), vec![]),
    ];
    let items = compute_tax_breakdown(&lines);
    let total: u64 = items.iter().map(|i| i.tax_amount).sum();
    assert_eq!(total, 20 + 3 + 20 + 30);
    assert_eq!(items.len(), 3);
}

#[test]
fn negation_keeps_the_line_fields() {
    let item = line("K", 1000, 1000, 200, dec(20, 2), vec![detail(dec(20, 2), "VAT", 200)]);
    for amount in [None, Some(250)] {
        let r = negate_line(&item, amount);
        assert_eq!(r.local_id, item.local_id);
        assert_eq!(r.name, "line K");
        assert_eq!((r.start_date, r.end_date), (item.start_date, item.end_date));
        assert_eq!((r.price_component_id, r.product_id, r.metric_id), (Some(7), Some(70), None));
        assert_eq!(r.description, Some("seats".to_string()));
        assert_eq!(r.tax_details.len(), 1);
        assert_eq!((r.tax_details[0].tax_name.as_str(), r.tax_details[0].tax_amount), ("VAT", 200));
    }
}

#[test]
fn negating_every_line_keeps_the_tax_breakdown() {
    let lines = vec![
        line("A", 100, 100, 20, dec(20, 2), vec![detail(dec(20, 2), "VAT", 20), detail(dec(5, 2), "Eco", 5)]),
        line("B", 300, 300, 30, dec(10, 2), vec![]),
    ];
    let negated: Vec<CreditLine> = lines.iter().map(|l| negate_line(l, None)).collect();
    let mut a: Vec<(i128, u32, String, u64, u64)> = compute_tax_breakdown(&lines)
        .into_iter()
        .map(|i| (i.tax_rate.mantissa, i.tax_rate.scale, i.name, i.tax_amount, i.taxable_amount))
        .collect();
    let mut b: Vec<(i128, u32, String, u64, u64)> = compute_tax_breakdown(&negated)
        .into_iter()
        .map(|i| (i.tax_rate.mantissa, i.tax_rate.scale, i.name, i.tax_amount, i.taxable_amount))
        .collect();
    a.sort();
    b.sort();
    assert_eq!(a, b);
}

#[test]
fn credit_note_numbers_are_zero_padded_to_six() {
    assert_eq!(credit_note_number(Some(42)), "CN-000042");
    assert_eq!(credit_note_number(Some(0)), "CN-000000");
    assert_eq!(credit_note_number(Some(1_234_567)), "CN-1234567");
    assert_eq!(credit_note_number(Some(-5)), format!("CN-{:06}", -5));
    assert_eq!(credit_note_number(Some(i64::MIN)), format!("CN-{:06}", i64::MIN));
    assert_eq!(credit_note_number(None), "draft");
}

#[test]
fn voiding_undoes_finalizing() {
    let balance: i64 = 700;
    assert_eq!(check_transition(CreditNoteTransition::Finalize, CreditNoteStatus::Draft), Ok(()));
    let after_finalize = balance + balance_delta(CreditNoteTransition::Finalize, 1800);
    assert_eq!(check_transition(CreditNoteTransition::Void, CreditNoteStatus::Finalized), Ok(()));
    let after_void = after_finalize + balance_delta(CreditNoteTransition::Void, 1800);
    assert_eq!(after_void, balance);
    assert!(check_transition(CreditNoteTransition::Void, CreditNoteStatus::Draft).is_err());
    assert!(check_transition(CreditNoteTransition::Void, CreditNoteStatus::Voided).is_err());
}

#[test]
fn tax_groups_keep_the_first_form_of_a_rate() {
    let a = line("A", 100, 100, 20, dec(200, 3), vec![detail(dec(200, 3), "VAT", 20)]);
    let b = line("B", 100, 100, 20, dec(20, 2), vec![detail(dec(20, 2), "VAT", 20)]);
    let items = compute_tax_breakdown(&vec![a, b]);
    assert_eq!(items.len(), 1);
    assert_eq!((items[0].tax_rate.mantissa, items[0].tax_rate.scale), (200, 3));
}
