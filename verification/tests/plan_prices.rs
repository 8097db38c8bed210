use meteroid_store::plan_versions::{attach_prices, legacy_component_ids, ComponentKey, ComponentPrice};

fn comp(id: u128, product_id: Option<u128>) -> ComponentKey {
    ComponentKey { id, name: format!("c{}", id), product_id }
}

fn link(plan_component_id: u128, price_id: u128) -> ComponentPrice {
    ComponentPrice { plan_component_id, price_id }
}

#[test]
fn prices_attach_to_their_components_in_link_order() {
    let components = vec![comp(1, Some(100)), comp(2, None), comp(3, None)];
    let links = vec![link(1, 11), link(3, 31), link(1, 12), link(1, 13)];
    // price 13 was not found
    let found = vec![11, 12, 31];
    let r = attach_prices(&components, &links, &found);
    assert_eq!(r, vec![vec![11, 12], vec![], vec![31]]);
}

#[test]
fn components_without_prices_or_product_read_legacy_fees() {
    let components = vec![comp(1, Some(100)), comp(2, None), comp(3, None), comp(4, Some(400))];
    let links = vec![link(3, 31), link(2, 99)];
    let found = vec![31];
    assert_eq!(legacy_component_ids(&components, &links, &found), vec![2]);
}

#[test]
fn a_repeated_component_id_gets_no_second_copy() {
    let components = vec![comp(1, None), comp(1, None)];
    let links = vec![link(1, 11)];
    let r = attach_prices(&components, &links, &vec![11]);
    assert_eq!(r, vec![vec![11], vec![]]);
}

use meteroid_store::catalog::check_new_prices_currency;
use meteroid_store::errors::StoreError;

#[test]
fn new_prices_must_share_the_plan_currency() {
    assert_eq!(check_new_prices_currency(&vec!["EUR".to_string(), "EUR".to_string()], "EUR"), Ok(()));
    assert_eq!(check_new_prices_currency(&vec![], "EUR"), Ok(()));
    assert_eq!(
        check_new_prices_currency(&vec!["EUR".to_string(), "USD".to_string(), "GBP".to_string()], "EUR"),
        Err(StoreError::InvalidArgument("Price currency 'USD' does not match plan version currency 'EUR'".to_string()))
    );
}
