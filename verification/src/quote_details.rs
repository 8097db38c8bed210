//! Assembling a quote's priced lines: which stored lines are read from their
//! legacy fee and which from the catalog, in what order, with which catalog
//! keys; and which new add-on lines take a freshly created price.
use vstd::prelude::*;

verus! {

/// The catalog keys stored with a quote line (component or add-on).
#[derive(Debug, Clone, Copy, PartialEq, Eq, Structural)]
pub struct QuoteLineKeys {
    pub price_id: Option<u128>,
    pub product_id: Option<u128>,
}

/// The indices below `n` of the lines with a price (`priced`) or without one.
pub open spec fn indices_upto(s: Seq<QuoteLineKeys>, n: int, priced: bool) -> Seq<usize>
    decreases n,
{
    if n <= 0 {
        Seq::empty()
    } else if (s[n - 1].price_id is Some) == priced {
        indices_upto(s, n - 1, priced).push((n - 1) as usize)
    } else {
        indices_upto(s, n - 1, priced)
    }
}

/// The order in which a quote's lines are assembled: the lines without a
/// price (read from their legacy fee) in stored order, then the priced lines
/// (resolved from the catalog) in stored order.
pub open spec fn assembly_order_of(s: Seq<QuoteLineKeys>) -> Seq<usize> {
    indices_upto(s, s.len() as int, false) + indices_upto(s, s.len() as int, true)
}

/// The stored lines' indices in assembly order.
pub fn assembly_order(lines: &Vec<QuoteLineKeys>) -> (order: Vec<usize>)
    ensures
        order@ == assembly_order_of(lines@),
{
    let mut legacy: Vec<usize> = Vec::new();
    let mut priced: Vec<usize> = Vec::new();
    let mut i: usize = 0;
    while i < lines.len()
        invariant
            i <= lines@.len(),
            legacy@ == indices_upto(lines@, i as int, false),
            priced@ == indices_upto(lines@, i as int, true),
        decreases lines@.len() - i,
    {
        if lines[i].price_id.is_some() {
            priced.push(i);
        } else {
            legacy.push(i);
        }
        i = i + 1;
    }
    let mut k: usize = 0;
    let ghost front = legacy@;
    while k < priced.len()
        invariant
            k <= priced@.len(),
            priced@ == indices_upto(lines@, lines@.len() as int, true),
            legacy@ == front + priced@.take(k as int),
        decreases priced@.len() - k,
    {
        legacy.push(priced[k]);
        k = k + 1;
        proof {
            assert(priced@.take(k as int) =~= priced@.take(k as int - 1).push(priced@[k as int - 1]));
        }
    }
    proof {
        assert(priced@.take(priced@.len() as int) =~= priced@);
    }
    legacy
}

/// The price ids of the priced lines, in order.
pub open spec fn price_keys(s: Seq<QuoteLineKeys>) -> Seq<u128>
    decreases s.len(),
{
    if s.len() == 0 {
        Seq::empty()
    } else {
        match s.last().price_id {
            Some(p) => price_keys(s.drop_last()).push(p),
            None => price_keys(s.drop_last()),
        }
    }
}

/// The product ids stored with the priced lines, in order.
pub open spec fn product_keys(s: Seq<QuoteLineKeys>) -> Seq<u128>
    decreases s.len(),
{
    if s.len() == 0 {
        Seq::empty()
    } else {
        match (s.last().price_id, s.last().product_id) {
            (Some(_), Some(p)) => product_keys(s.drop_last()).push(p),
            _ => product_keys(s.drop_last()),
        }
    }
}

/// Appends the catalog keys of the priced lines of `lines` to `prices` and
/// `products`.
fn push_keys(lines: &Vec<QuoteLineKeys>, prices: &mut Vec<u128>, products: &mut Vec<u128>)
    ensures
        final(prices)@ == old(prices)@ + price_keys(lines@),
        final(products)@ == old(products)@ + product_keys(lines@),
{
    let ghost p0 = prices@;
    let ghost q0 = products@;
    let mut i: usize = 0;
    while i < lines.len()
        invariant
            i <= lines@.len(),
            prices@ == p0 + price_keys(lines@.take(i as int)),
            products@ == q0 + product_keys(lines@.take(i as int)),
        decreases lines@.len() - i,
    {
        let l = lines[i];
        proof {
            let t = lines@.take(i as int + 1);
            assert(t.drop_last() =~= lines@.take(i as int));
            assert(t.last() == l);
        }
        if let Some(p) = l.price_id {
            prices.push(p);
            if let Some(q) = l.product_id {
                products.push(q);
            }
        }
        i = i + 1;
        proof {
            assert(prices@ =~= p0 + price_keys(lines@.take(i as int)));
            assert(products@ =~= q0 + product_keys(lines@.take(i as int)));
        }
    }
    proof {
        assert(lines@.take(lines@.len() as int) =~= lines@);
    }
}

/// The catalog keys to load for a quote: the price ids of the priced
/// components then of the priced add-ons, and likewise their product ids.
pub fn catalog_keys(components: &Vec<QuoteLineKeys>, add_ons: &Vec<QuoteLineKeys>) -> (keys: (Vec<u128>, Vec<u128>))
    ensures
        keys.0@ == price_keys(components@) + price_keys(add_ons@),
        keys.1@ == product_keys(components@) + product_keys(add_ons@),
{
    let mut prices: Vec<u128> = Vec::new();
    let mut products: Vec<u128> = Vec::new();
    push_keys(components, &mut prices, &mut products);
    push_keys(add_ons, &mut prices, &mut products);
    proof {
        assert(Seq::<u128>::empty() + price_keys(components@) =~= price_keys(components@));
        assert(Seq::<u128>::empty() + product_keys(components@) =~= product_keys(components@));
    }
    (prices, products)
}

/// The pricing stored with a new add-on line of a quote: a catalog price, or
/// a legacy fee.
#[derive(Debug, PartialEq, Eq)]
pub struct AddOnPricing<F> {
    pub price_id: Option<u128>,
    pub legacy_fee: Option<F>,
}

/// The price created for the add-on line at `index`: the last created price
/// recorded for that index, if any.
pub open spec fn created_price(created: Seq<(usize, u128)>, index: int) -> Option<u128>
    decreases created.len(),
{
    if created.len() == 0 {
        None
    } else if created.last().0 == index {
        Some(created.last().1)
    } else {
        created_price(created.drop_last(), index)
    }
}

/// The last created price recorded for `index`.
fn created_price_for(created: &Vec<(usize, u128)>, index: usize) -> (p: Option<u128>)
    ensures
        p == created_price(created@, index as int),
{
    let mut k: usize = created.len();
    proof {
        assert(created@.take(created@.len() as int) =~= created@);
    }
    while k > 0
        invariant
            k <= created@.len(),
            created_price(created@, index as int) == created_price(created@.take(k as int), index as int),
        decreases k,
    {
        let (i, p) = created[k - 1];
        proof {
            let t = created@.take(k as int);
            assert(t.drop_last() =~= created@.take(k as int - 1));
            assert(t.last() == created@[k as int - 1]);
        }
        if i == index {
            return Some(p);
        }
        k = k - 1;
    }
    None
}

/// Add-on lines whose price was created with the quote point at that price
/// and keep no legacy fee; the others stay as given. When several prices were
/// created for one line, the last one counts.
pub fn apply_created_prices<F>(lines: Vec<AddOnPricing<F>>, created: &Vec<(usize, u128)>) -> (r: Vec<AddOnPricing<F>>)
    ensures
        r@.len() == lines@.len(),
        forall|i: int| 0 <= i < lines@.len() ==> (#[trigger] r@[i]) == match created_price(created@, i) {
            Some(p) => AddOnPricing::<F> { price_id: Some(p), legacy_fee: None },
            None => lines@[i],
        },
{
    let mut lines = lines;
    let ghost original = lines@;
    let mut i: usize = 0;
    while i < lines.len()
        invariant
            i <= lines@.len(),
            lines@.len() == original.len(),
            forall|j: int| 0 <= j < i ==> (#[trigger] lines@[j]) == match created_price(created@, j) {
                Some(p) => AddOnPricing::<F> { price_id: Some(p), legacy_fee: None },
                None => original[j],
            },
            forall|j: int| i <= j < lines@.len() ==> (#[trigger] lines@[j]) == original[j],
        decreases lines@.len() - i,
    {
        match created_price_for(created, i) {
            Some(p) => {
                lines.set(i, AddOnPricing { price_id: Some(p), legacy_fee: None });
            },
            None => {},
        }
        i = i + 1;
    }
    lines
}

} // verus!
