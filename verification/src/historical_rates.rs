//! Exchange rates between two currencies, derived from a table of rates from USD.
use vstd::prelude::*;
use crate::time::{Date, DateTime};

verus! {

/// The rates from USD recorded for one date; each entry is a currency code and
/// its rate, with at most one entry per code. The rate type is left to the
/// caller (the store keeps 32-bit floats).
#[derive(Debug)]
pub struct HistoricalRatesFromUsd<R> {
    pub id: u128,
    pub date: Date,
    pub updated_at: DateTime,
    pub rates: Vec<(String, R)>,
}

/// The two USD rates from which the rate from `from_currency` to
/// `to_currency` is derived (`to_rate / from_rate`).
#[derive(Debug)]
pub struct HistoricalRatePair<R> {
    pub id: u128,
    pub date: Date,
    pub updated_at: DateTime,
    pub from_currency: String,
    pub to_currency: String,
    pub from_rate: R,
    pub to_rate: R,
}

/// The rate recorded for `code`: the first entry with that code.
pub open spec fn rate_for<R>(rates: Seq<(String, R)>, code: Seq<char>) -> Option<R>
    decreases rates.len(),
{
    if rates.len() == 0 {
        None
    } else if rates[0].0@ == code {
        Some(rates[0].1)
    } else {
        rate_for(rates.drop_first(), code)
    }
}

/// Looks up the rate recorded for `code`.
pub(crate) fn find_rate<R: Copy>(rates: &Vec<(String, R)>, code: &str) -> (r: Option<R>)
    ensures
        r == rate_for(rates@, code@),
{
    let wanted = code.to_owned();
    let mut i: usize = 0;
    assert(rates@.skip(0) =~= rates@);
    while i < rates.len()
        invariant
            i <= rates@.len(),
            wanted@ == code@,
            rate_for(rates@, code@) == rate_for(rates@.skip(i as int), code@),
        decreases rates@.len() - i,
    {
        proof {
            assert(rates@.skip(i as int).drop_first() =~= rates@.skip(i + 1));
            assert(rates@.skip(i as int)[0] == rates@[i as int]);
        }
        if rates[i].0 == wanted {
            return Some(rates[i].1);
        }
        i = i + 1;
    }
    assert(rates@.skip(i as int).len() == 0);
    None
}

/// The pair of USD rates for converting `from_currency` into `to_currency`,
/// when a table is present and holds both currencies.
pub fn get_mapped_rates_for_currency<R: Copy>(from_currency: &str, to_currency: &str, rate: Option<HistoricalRatesFromUsd<R>>) -> (r: Option<HistoricalRatePair<R>>)
    ensures
        r is Some <==> (rate matches Some(t) && rate_for(t.rates@, from_currency@) is Some
            && rate_for(t.rates@, to_currency@) is Some),
        r matches Some(p) ==> (rate matches Some(t) && p.id == t.id && p.date == t.date
            && p.updated_at == t.updated_at && p.from_currency@ == from_currency@
            && p.to_currency@ == to_currency@
            && Some(p.from_rate) == rate_for(t.rates@, from_currency@)
            && Some(p.to_rate) == rate_for(t.rates@, to_currency@)),
{
    match rate {
        None => None,
        Some(table) => match find_rate(&table.rates, from_currency) {
            None => None,
            Some(from_rate) => match find_rate(&table.rates, to_currency) {
                None => None,
                Some(to_rate) => Some(HistoricalRatePair {
                    id: table.id,
                    date: table.date,
                    updated_at: table.updated_at,
                    from_currency: from_currency.to_owned(),
                    to_currency: to_currency.to_owned(),
                    from_rate,
                    to_rate,
                }),
            },
        },
    }
}

} // verus!
