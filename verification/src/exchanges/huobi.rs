//! Huobi: its pair listing and the name of its ticker request.
use vstd::prelude::*;
use crate::adapter_core::{build_uri, uri_of};
use crate::exchange::{Pair, AdapterMeta, AdapterLow, record_pairs, indexed_pairs};
use crate::keyed::{KeyedList, has_key};
use crate::text::{lower, to_lower};

verus! {

/// The Huobi API base.
pub const HUOBI_BASE: &'static str = "https://api.huobi.pro";

/// The request that lists Huobi's symbols.
pub const HUOBI_PAIRS: &'static str = "https://api.huobi.pro/v1/common/symbols";

/// The request prefix for a Huobi ticker; the symbol follows it.
pub const HUOBI_TICKER: &'static str = "https://api.huobi.pro/market/detail/merged?symbol=";

/// One symbol of Huobi's listing.
#[derive(Debug)]
pub struct HuobiPair {
    pub base_currency: String,
    pub quote_currency: String,
    pub symbol: String,
    pub state: String,
    pub symbol_partition: String,
}

/// Huobi's reply to the symbol listing.
#[derive(Debug)]
pub struct HuobiResult {
    pub status: String,
    pub data: Vec<HuobiPair>,
}

/// The pair a listed symbol stands for: its base and quote currencies, as
/// listed.
pub open spec fn listed_pair(p: HuobiPair) -> (Seq<char>, Seq<char>) {
    (p.base_currency@, p.quote_currency@)
}

/// The ticker request for the pair of the two coins: the prefix, then both
/// coins in lower case.
pub fn ticker_url(from_coin: &str, to_coin: &str) -> (r: String)
    ensures
        r@ == HUOBI_TICKER@ + lower(from_coin@) + lower(to_coin@),
{
    let mut url = String::from_str(HUOBI_TICKER);
    url.append(to_lower(from_coin).as_str());
    url.append(to_lower(to_coin).as_str());
    url
}

/// Huobi's pairs, indexed by `base_quote`.
pub struct HuobiAdapter {
    pub pairs: Vec<Pair>,
    pub pair_map: KeyedList<Pair>,
    pub market_api: String,
}

impl HuobiAdapter {
    /// An adapter with nothing listed yet.
    pub fn new() -> (r: Self)
        ensures
            r.pairs@.len() == 0,
            r.pair_map.entries().len() == 0,
            r.market_api@ == HUOBI_BASE@,
    {
        HuobiAdapter { market_api: String::from_str(HUOBI_BASE), pair_map: KeyedList::new(), pairs: Vec::new() }
    }

    /// Records a fresh listing (the part of `get_pairs` that follows the
    /// request): the pairs become the listed ones, each indexed under
    /// `base_quote`. Hands back the pairs.
    pub fn get_pairs(&mut self, listing: Vec<HuobiPair>) -> (r: Vec<Pair>)
        ensures
            final(self).pairs@.map_values(|p: Pair| p@) == listing@.map_values(|h: HuobiPair| listed_pair(h)),
            final(self).pair_map.entries() == indexed_pairs(old(self).pair_map.entries(), final(self).pairs@),
            r@ == final(self).pairs@,
            final(self).market_api == old(self).market_api,
    {
        let mut listed: Vec<Pair> = Vec::new();
        let n = listing.len();
        let mut i: usize = 0;
        while i < n
            invariant
                n == listing@.len(),
                i <= n,
                listed@.map_values(|p: Pair| p@) == listing@.take(i as int).map_values(
                    |h: HuobiPair| listed_pair(h),
                ),
            decreases n - i,
        {
            let ghost before = listed@;
            listed.push(
                Pair {
                    from_coin: listing[i].base_currency.clone(),
                    to_coin: listing[i].quote_currency.clone(),
                },
            );
            assert(listing@.take(i + 1) =~= listing@.take(i as int).push(listing@[i as int]));
            assert(listed@.map_values(|p: Pair| p@) =~= before.map_values(|p: Pair| p@).push(
                listed_pair(listing@[i as int]),
            ));
            i = i + 1;
        }
        assert(listing@.take(n as int) =~= listing@);
        record_pairs(&mut self.pairs, &mut self.pair_map, listed)
    }

    /// Whether the listing must be requested before `has_pair` can answer.
    pub fn needs_pairs(&self) -> (r: bool)
        ensures
            r == (self.pairs@.len() == 0 || self.pair_map.entries().len() == 0),
    {
        self.pairs.len() == 0 || self.pair_map.len() == 0
    }

    /// Whether the index holds `from_coin_to_coin`, as written.
    pub fn has_pair(&self, from_coin: &str, to_coin: &str) -> (r: bool)
        ensures
            r == has_key(self.pair_map.entries(), from_coin@ + seq!['_'] + to_coin@),
    {
        proof {
            reveal_strlit("_");
            assert("_"@ =~= seq!['_']);
        }
        let mut key = String::from_str(from_coin);
        key.append("_");
        key.append(to_coin);
        self.pair_map.contains_key(key.as_str())
    }
}

impl Clone for HuobiAdapter {
    fn clone(&self) -> (r: Self)
        ensures
            r.pairs@ == self.pairs@,
            r.pair_map.entries() == self.pair_map.entries(),
            r.market_api == self.market_api,
    {
        let pair_map = self.pair_map.clone();
        assert(pair_map.entries() =~= self.pair_map.entries());
        HuobiAdapter { pairs: self.pairs.clone(), pair_map, market_api: self.market_api.clone() }
    }
}

impl<'a> AdapterMeta<'a> for HuobiAdapter {
    fn name(&self) -> (r: &'a str)
        ensures
            r@ == "Huobi"@,
    {
        "Huobi"
    }

    fn code(&self) -> (r: &'a str)
        ensures
            r@ == "huobi"@,
    {
        "huobi"
    }
}

impl AdapterLow for HuobiAdapter {
    fn build_uri(&self, uri: &str, endpoint: &str) -> (r: String)
        ensures
            r@ == uri_of(self.market_api@, uri@, endpoint@),
    {
        build_uri(self.market_api.as_str(), uri, endpoint)
    }
}

/// A Huobi adapter with nothing listed yet.
pub fn new() -> (r: HuobiAdapter)
    ensures
        r.pairs@.len() == 0,
        r.pair_map.entries().len() == 0,
        r.market_api@ == HUOBI_BASE@,
{
    HuobiAdapter::new()
}

} // verus!
