use meteroid_store::payment_methods::{
    online_choice, payment_method_lookup, pick_payment_method, provider_ids, MethodLookup, MethodToggle,
    OnlineChoice, OnlineMethodsConfig, PaymentMethodType, PaymentMethodsConfig, ResolvedPaymentMethod,
    StoredPaymentMethod,
};

const CARD_PROVIDER: u128 = 10;
const DD_PROVIDER: u128 = 20;

fn all_enabled() -> OnlineChoice {
    online_choice(None, Some(CARD_PROVIDER), Some(DD_PROVIDER))
}

fn method(id: u128, connector_id: u128, method_type: PaymentMethodType) -> StoredPaymentMethod {
    StoredPaymentMethod { id, connector_id, method_type }
}

#[test]
fn card_is_preferred_over_an_earlier_direct_debit() {
    let methods = vec![
        method(1, DD_PROVIDER, PaymentMethodType::DirectDebitSepa),
        method(2, CARD_PROVIDER, PaymentMethodType::Card),
        method(3, CARD_PROVIDER, PaymentMethodType::Card),
    ];
    assert_eq!(pick_payment_method(&all_enabled(), &methods), ResolvedPaymentMethod::CustomerPaymentMethod(2));
}

#[test]
fn first_direct_debit_is_used_without_a_card() {
    let methods = vec![
        method(1, 99, PaymentMethodType::Card),
        method(2, DD_PROVIDER, PaymentMethodType::DirectDebitAch),
        method(3, DD_PROVIDER, PaymentMethodType::DirectDebitBacs),
    ];
    assert_eq!(pick_payment_method(&all_enabled(), &methods), ResolvedPaymentMethod::CustomerPaymentMethod(2));
}

#[test]
fn disabled_cards_are_skipped() {
    let config = OnlineMethodsConfig { card: Some(MethodToggle { enabled: false }), direct_debit: None };
    let choice = online_choice(Some(config), Some(CARD_PROVIDER), Some(DD_PROVIDER));
    let methods = vec![method(1, CARD_PROVIDER, PaymentMethodType::Card)];
    assert_eq!(pick_payment_method(&choice, &methods), ResolvedPaymentMethod::NotConfigured);
    assert_eq!(provider_ids(&choice), vec![DD_PROVIDER]);
}

#[test]
fn a_shared_provider_is_listed_once() {
    let choice = online_choice(None, Some(CARD_PROVIDER), Some(CARD_PROVIDER));
    assert_eq!(provider_ids(&choice), vec![CARD_PROVIDER]);
    assert_eq!(provider_ids(&all_enabled()), vec![CARD_PROVIDER, DD_PROVIDER]);
}

#[test]
fn configuration_decides_external_and_bank_transfer() {
    assert_eq!(
        payment_method_lookup(Some(PaymentMethodsConfig::External), Some(5), Some(CARD_PROVIDER), None),
        MethodLookup::Decided(ResolvedPaymentMethod::NotConfigured)
    );
    assert_eq!(
        payment_method_lookup(Some(PaymentMethodsConfig::BankTransfer { account_id: Some(7) }), Some(5), None, None),
        MethodLookup::Decided(ResolvedPaymentMethod::BankTransfer(7))
    );
    assert_eq!(
        payment_method_lookup(Some(PaymentMethodsConfig::BankTransfer { account_id: None }), Some(5), None, None),
        MethodLookup::Decided(ResolvedPaymentMethod::BankTransfer(5))
    );
    assert_eq!(
        payment_method_lookup(Some(PaymentMethodsConfig::BankTransfer { account_id: None }), None, None, None),
        MethodLookup::Decided(ResolvedPaymentMethod::NotConfigured)
    );
}

#[test]
fn online_configuration_looks_up_saved_methods() {
    assert_eq!(
        payment_method_lookup(None, None, Some(CARD_PROVIDER), Some(DD_PROVIDER)),
        MethodLookup::LookUpOnline(all_enabled())
    );
    assert_eq!(
        payment_method_lookup(Some(PaymentMethodsConfig::Online { config: None }), None, None, None),
        MethodLookup::Decided(ResolvedPaymentMethod::NotConfigured)
    );
}
