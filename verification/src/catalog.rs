//! Checks on catalog input: custom tax codes, and the prices attached to a
//! price component.
use vstd::prelude::*;
use crate::errors::StoreError;
use crate::activity::{trimmed, trim_whitespace};

verus! {

/// Checks that a custom tax has a tax code (it is the accounting reference):
/// a code that is empty once trimmed is refused.
pub fn check_tax_code(tax_code: &str) -> (r: Result<(), StoreError>)
    ensures
        trimmed(tax_code@).len() == 0 ==> (r matches Err(StoreError::InvalidArgument(m))
            && m@ == "tax code is required and is used as the accounting reference"@),
        trimmed(tax_code@).len() > 0 ==> r is Ok,
{
    let t = trim_whitespace(tax_code);
    if t.as_str().is_empty() {
        Err(StoreError::InvalidArgument("tax code is required and is used as the accounting reference".to_owned()))
    } else {
        Ok(())
    }
}

/// Checks that an existing price is not attached to a product created with
/// the component.
pub fn check_existing_price_allowed(product_is_new: bool) -> (r: Result<(), StoreError>)
    ensures
        product_is_new ==> (r matches Err(StoreError::InvalidArgument(m)) && m@ == "Cannot use existing price with a new product"@),
        !product_is_new ==> r is Ok,
{
    if product_is_new {
        Err(StoreError::InvalidArgument("Cannot use existing price with a new product".to_owned()))
    } else {
        Ok(())
    }
}

/// An existing price as the check reads it; the `*_key` fields are the ids
/// as text.
#[derive(Debug)]
pub struct ExistingPrice {
    pub price_key: String,
    pub product_id: u128,
    pub product_key: String,
    pub currency: String,
    pub archived: bool,
}

/// Text of the error for a price of another product.
pub open spec fn foreign_price_text(price: Seq<char>, price_product: Seq<char>, product: Seq<char>) -> Seq<char> {
    "Price "@ + price + " belongs to product "@ + price_product + ", not "@ + product
}

/// Text of the error for an existing price in another currency.
pub open spec fn price_currency_text(price: Seq<char>, currency: Seq<char>, plan_currency: Seq<char>) -> Seq<char> {
    "Price "@ + price + " currency '"@ + currency + "' does not match plan version currency '"@ + plan_currency + "'"@
}

/// Text of the error for an archived price.
pub open spec fn archived_price_text(price: Seq<char>) -> Seq<char> {
    "Price "@ + price + " is archived"@
}

/// Text of the error for a new price in another currency.
pub open spec fn new_price_currency_text(currency: Seq<char>, plan_currency: Seq<char>) -> Seq<char> {
    "Price currency '"@ + currency + "' does not match plan version currency '"@ + plan_currency + "'"@
}

/// The error text for a price of another product.
fn foreign_price_message(price: &str, price_product: &str, product: &str) -> (m: String)
    ensures
        m@ == foreign_price_text(price@, price_product@, product@),
{
    let mut m = "Price ".to_owned();
    m.append(price);
    m.append(" belongs to product ");
    m.append(price_product);
    m.append(", not ");
    m.append(product);
    m
}

/// The error text for an existing price in another currency.
fn price_currency_message(price: &str, currency: &str, plan_currency: &str) -> (m: String)
    ensures
        m@ == price_currency_text(price@, currency@, plan_currency@),
{
    let mut m = "Price ".to_owned();
    m.append(price);
    m.append(" currency '");
    m.append(currency);
    m.append("' does not match plan version currency '");
    m.append(plan_currency);
    m.append("'");
    m
}

/// The error text for an archived price.
fn archived_price_message(price: &str) -> (m: String)
    ensures
        m@ == archived_price_text(price@),
{
    let mut m = "Price ".to_owned();
    m.append(price);
    m.append(" is archived");
    m
}

/// The error text for a new price in another currency.
fn new_price_currency_message(currency: &str, plan_currency: &str) -> (m: String)
    ensures
        m@ == new_price_currency_text(currency@, plan_currency@),
{
    let mut m = "Price currency '".to_owned();
    m.append(currency);
    m.append("' does not match plan version currency '");
    m.append(plan_currency);
    m.append("'");
    m
}

/// Checks an existing price against the component's product and the plan
/// version's currency, in this order: it must belong to the product, be in
/// the plan version's currency, and not be archived.
pub fn check_existing_price(price: &ExistingPrice, product_id: u128, product_key: &str, plan_currency: &str) -> (r: Result<(), StoreError>)
    ensures
        price.product_id != product_id ==> (r matches Err(StoreError::InvalidArgument(m))
            && m@ == foreign_price_text(price.price_key@, price.product_key@, product_key@)),
        price.product_id == product_id && price.currency@ != plan_currency@ ==> (r matches Err(StoreError::InvalidArgument(m))
            && m@ == price_currency_text(price.price_key@, price.currency@, plan_currency@)),
        price.product_id == product_id && price.currency@ == plan_currency@ && price.archived ==> (r matches Err(StoreError::InvalidArgument(m))
            && m@ == archived_price_text(price.price_key@)),
        price.product_id == product_id && price.currency@ == plan_currency@ && !price.archived ==> r is Ok,
{
    if price.product_id != product_id {
        return Err(StoreError::InvalidArgument(foreign_price_message(price.price_key.as_str(), price.product_key.as_str(), product_key)));
    }
    let plan = plan_currency.to_owned();
    if price.currency != plan {
        return Err(StoreError::InvalidArgument(price_currency_message(price.price_key.as_str(), price.currency.as_str(), plan_currency)));
    }
    if price.archived {
        return Err(StoreError::InvalidArgument(archived_price_message(price.price_key.as_str())));
    }
    Ok(())
}

/// Checks that a new price is in the plan version's currency.
pub fn check_new_price_currency(currency: &str, plan_currency: &str) -> (r: Result<(), StoreError>)
    ensures
        currency@ == plan_currency@ ==> r is Ok,
        currency@ != plan_currency@ ==> (r matches Err(StoreError::InvalidArgument(m))
            && m@ == new_price_currency_text(currency@, plan_currency@)),
{
    let a = currency.to_owned();
    let b = plan_currency.to_owned();
    if a == b {
        Ok(())
    } else {
        Err(StoreError::InvalidArgument(new_price_currency_message(currency, plan_currency)))
    }
}

/// Checks every new price of a component against the plan version's
/// currency; the first price in another currency is reported.
pub fn check_new_prices_currency(currencies: &Vec<String>, plan_currency: &str) -> (r: Result<(), StoreError>)
    ensures
        (forall|i: int| 0 <= i < currencies@.len() ==> (#[trigger] currencies@[i])@ == plan_currency@) ==> r is Ok,
        forall|i: int| 0 <= i < currencies@.len() && (#[trigger] currencies@[i])@ != plan_currency@
            && (forall|j: int| 0 <= j < i ==> currencies@[j]@ == plan_currency@) ==> (r matches Err(StoreError::InvalidArgument(m))
                && m@ == new_price_currency_text(currencies@[i]@, plan_currency@)),
{
    let mut i: usize = 0;
    while i < currencies.len()
        invariant
            i <= currencies@.len(),
            forall|j: int| 0 <= j < i ==> (#[trigger] currencies@[j])@ == plan_currency@,
        decreases currencies@.len() - i,
    {
        let checked = check_new_price_currency(currencies[i].as_str(), plan_currency);
        if checked.is_err() {
            return checked;
        }
        i = i + 1;
    }
    Ok(())
}

} // verus!
