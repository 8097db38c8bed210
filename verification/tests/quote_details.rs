use meteroid_store::quote_details::{apply_created_prices, assembly_order, catalog_keys, AddOnPricing, QuoteLineKeys};

fn priced(price: u128, product: Option<u128>) -> QuoteLineKeys {
    QuoteLineKeys { price_id: Some(price), product_id: product }
}

fn legacy() -> QuoteLineKeys {
    QuoteLineKeys { price_id: None, product_id: None }
}

#[test]
fn legacy_lines_come_before_priced_lines() {
    let lines = vec![priced(1, Some(10)), legacy(), priced(2, None), legacy()];
    assert_eq!(assembly_order(&lines), vec![1, 3, 0, 2]);
    assert_eq!(assembly_order(&vec![]), Vec::<usize>::new());
}

#[test]
fn catalog_keys_chain_components_then_add_ons() {
    let components = vec![priced(1, Some(10)), legacy(), priced(2, None)];
    let add_ons = vec![QuoteLineKeys { price_id: None, product_id: Some(99) }, priced(3, Some(30))];
    let (prices, products) = catalog_keys(&components, &add_ons);
    assert_eq!(prices, vec![1, 2, 3]);
    assert_eq!(products, vec![10, 30]);
}

#[test]
fn created_prices_replace_legacy_fees() {
    let lines = vec![
        AddOnPricing { price_id: None, legacy_fee: Some("fee-a".to_string()) },
        AddOnPricing { price_id: Some(5), legacy_fee: None },
        AddOnPricing { price_id: None, legacy_fee: Some("fee-c".to_string()) },
    ];
    let r = apply_created_prices(lines, &vec![(2, 70), (0, 71), (2, 72)]);
    assert_eq!(r[0], AddOnPricing { price_id: Some(71), legacy_fee: None });
    assert_eq!(r[1], AddOnPricing { price_id: Some(5), legacy_fee: None });
    assert_eq!(r[2], AddOnPricing { price_id: Some(72), legacy_fee: None });
}
