use meteroid_store::customers::{vat_validation_after_update, VatValidation};
use meteroid_store::time::DateTime;

fn checked() -> VatValidation<&'static str, String> {
    VatValidation { status: "valid", checked_at: Some(DateTime { nanos: 1_000 }), vies_check: Some("ok".to_string()) }
}

#[test]
fn unchanged_vat_number_keeps_prior_validation() {
    let v = vat_validation_after_update(&Some("FR123".to_string()), &Some("FR123".to_string()), checked(), "pending");
    assert_eq!(v, checked());
    let none = vat_validation_after_update(&None, &None, checked(), "pending");
    assert_eq!(none, checked());
}

#[test]
fn changed_vat_number_starts_over() {
    let fresh = VatValidation { status: "pending", checked_at: None, vies_check: None::<String> };
    assert_eq!(vat_validation_after_update(&Some("FR123".to_string()), &Some("FR124".to_string()), checked(), "pending"), fresh);
    assert_eq!(vat_validation_after_update(&None, &Some("FR124".to_string()), checked(), "pending"), fresh);
    assert_eq!(vat_validation_after_update(&Some("FR123".to_string()), &None, checked(), "not_applicable").status, "not_applicable");
}
