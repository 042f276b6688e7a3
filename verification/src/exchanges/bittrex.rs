//! Bittrex: its market listing, the request for a market's ticker and the
//! rate read from the ticker's fields.
use vstd::prelude::*;
use crate::adapter_core::{build_uri, uri_of};
use crate::amount::{Amount, parses, parsed};
use crate::exchange::{Pair, ExchangeRate, AdapterMeta, AdapterLow, record_pairs, indexed_pairs};
use crate::keyed::{KeyedList, has_key};
use crate::text::{upper, to_upper};

verus! {

/// The Bittrex markets API base.
pub const BITTREX_API: &'static str = "https://api.bittrex.com/v3/markets";

/// One market of Bittrex's listing.
#[allow(non_snake_case)]
#[derive(Debug)]
pub struct BittrexPair {
    pub associatedTermsOfService: Vec<String>,
    pub baseCurrencySymbol: String,
    pub createdAt: String,
    pub minTradeSize: String,
    pub precision: i16,
    pub prohibitedIn: Vec<String>,
    pub quoteCurrencySymbol: String,
    pub status: String,
    pub symbol: String,
    pub tags: Vec<String>,
}

/// The pair a listed market stands for: its base and quote currencies, as
/// listed.
pub open spec fn market_pair(p: BittrexPair) -> (Seq<char>, Seq<char>) {
    (p.baseCurrencySymbol@, p.quoteCurrencySymbol@)
}

/// The path of the ticker of the pair of two upper-case coins.
pub open spec fn ticker_path(from_coin: Seq<char>, to_coin: Seq<char>) -> Seq<char> {
    seq!['/'] + from_coin + seq!['-'] + to_coin + "/ticker"@
}

/// Bittrex's pairs, indexed by `base_quote`.
pub struct BittrexAdapter {
    pub pairs: Vec<Pair>,
    pub pair_map: KeyedList<Pair>,
    pub market_api: String,
}

impl BittrexAdapter {
    /// An adapter with nothing listed yet.
    pub fn new() -> (r: Self)
        ensures
            r.pairs@.len() == 0,
            r.pair_map.entries().len() == 0,
            r.market_api@ == BITTREX_API@,
    {
        BittrexAdapter {
            market_api: String::from_str(BITTREX_API),
            pair_map: KeyedList::new(),
            pairs: Vec::new(),
        }
    }

    /// Records a fresh listing (the part of `get_pairs` that follows the
    /// request): the pairs become the listed ones, each indexed under
    /// `base_quote`. Hands back the pairs.
    pub fn get_pairs(&mut self, listing: Vec<BittrexPair>) -> (r: Vec<Pair>)
        ensures
            final(self).pairs@.map_values(|p: Pair| p@) == listing@.map_values(|b: BittrexPair| market_pair(b)),
            final(self).pair_map.entries() == indexed_pairs(old(self).pair_map.entries(), final(self).pairs@),
            r@ == final(self).pairs@,
            final(self).market_api == old(self).market_api,
    {
        let mut listed: Vec<Pair> = Vec::new();
        let n = listing.len();
        let mut i: usize = 0;
        while i < n
            invariant
                n == listing@.len(),
                i <= n,
                listed@.map_values(|p: Pair| p@) == listing@.take(i as int).map_values(
                    |b: BittrexPair| market_pair(b),
                ),
            decreases n - i,
        {
            let ghost before = listed@;
            listed.push(
                Pair {
                    from_coin: listing[i].baseCurrencySymbol.clone(),
                    to_coin: listing[i].quoteCurrencySymbol.clone(),
                },
            );
            assert(listing@.take(i + 1) =~= listing@.take(i as int).push(listing@[i as int]));
            assert(listed@.map_values(|p: Pair| p@) =~= before.map_values(|p: Pair| p@).push(
                market_pair(listing@[i as int]),
            ));
            i = i + 1;
        }
        assert(listing@.take(n as int) =~= listing@);
        record_pairs(&mut self.pairs, &mut self.pair_map, listed)
    }

    /// Whether the listing must be requested before `has_pair` can answer.
    pub fn needs_pairs(&self) -> (r: bool)
        ensures
            r == (self.pairs@.len() == 0 || self.pair_map.entries().len() == 0),
    {
        self.pairs.len() == 0 || self.pair_map.len() == 0
    }

    /// Whether the index holds `from_coin_to_coin`, as written.
    pub fn has_pair(&self, from_coin: &str, to_coin: &str) -> (r: bool)
        ensures
            r == has_key(self.pair_map.entries(), from_coin@ + seq!['_'] + to_coin@),
    {
        proof {
            reveal_strlit("_");
            assert("_"@ =~= seq!['_']);
        }
        let mut key = String::from_str(from_coin);
        key.append("_");
        key.append(to_coin);
        self.pair_map.contains_key(key.as_str())
    }

    /// The request for the ticker of the pair of the two coins, which are
    /// upper-cased: `/FROM-TO/ticker` under the API base.
    pub fn ticker_uri(&self, from_coin: &str, to_coin: &str) -> (r: String)
        ensures
            r@ == uri_of(self.market_api@, ticker_path(upper(from_coin@), upper(to_coin@)), Seq::<char>::empty()),
    {
        proof {
            reveal_strlit("/");
            reveal_strlit("-");
            reveal_strlit("");
            assert("/"@ =~= seq!['/']);
            assert("-"@ =~= seq!['-']);
            assert(""@ =~= Seq::<char>::empty());
        }
        let mut path = String::from_str("/");
        path.append(to_upper(from_coin).as_str());
        path.append("-");
        path.append(to_upper(to_coin).as_str());
        path.append("/ticker");
        build_uri(self.market_api.as_str(), path.as_str(), "")
    }

    /// The rate read from a ticker's last trade, bid and ask texts for the
    /// pair of the two coins (upper-cased); high and low are zero at scale 8,
    /// as are the volume, open and close that the ticker does not give.
    pub fn rate_from_ticker(from_coin: &str, to_coin: &str, last: &str, bid: &str, ask: &str) -> (r: ExchangeRate)
        requires
            parses(last@),
            parses(bid@),
            parses(ask@),
        ensures
            r.last == parsed(last@),
            r.bid == parsed(bid@),
            r.ask == parsed(ask@),
            r.high == (Amount { mantissa: 0, scale: 8 }),
            r.low == (Amount { mantissa: 0, scale: 8 }),
            r.volume == (Amount { mantissa: 0, scale: 8 }),
            r.open == (Amount { mantissa: 0, scale: 8 }),
            r.close == (Amount { mantissa: 0, scale: 8 }),
            r.pair@ == (upper(from_coin@), upper(to_coin@)),
    {
        let zero = Amount::new(0, 8);
        ExchangeRate {
            last: Amount::parse(last).unwrap(),
            bid: Amount::parse(bid).unwrap(),
            ask: Amount::parse(ask).unwrap(),
            pair: Pair { from_coin: to_upper(from_coin), to_coin: to_upper(to_coin) },
            high: zero,
            low: zero,
            volume: zero,
            open: zero,
            close: zero,
        }
    }

    /// The rate read from a ticker's texts, or `None` where one of them is
    /// not a decimal.
    pub fn try_rate_from_ticker(from_coin: &str, to_coin: &str, last: &str, bid: &str, ask: &str) -> (r: Option<ExchangeRate>)
        ensures
            match r {
                Some(rate) => parses(last@) && parses(bid@) && parses(ask@) && rate.last == parsed(last@)
                    && rate.bid == parsed(bid@) && rate.ask == parsed(ask@) && rate.high == (Amount {
                    mantissa: 0,
                    scale: 8,
                }) && rate.low == (Amount { mantissa: 0, scale: 8 }) && rate.volume == (Amount {
                    mantissa: 0,
                    scale: 8,
                }) && rate.open == (Amount { mantissa: 0, scale: 8 }) && rate.close == (Amount {
                    mantissa: 0,
                    scale: 8,
                }) && rate.pair@ == (
                upper(from_coin@),
                upper(to_coin@),
                ),
                None => !(parses(last@) && parses(bid@) && parses(ask@)),
            },
    {
        if Amount::parse(last).is_none() || Amount::parse(bid).is_none() || Amount::parse(ask).is_none() {
            return None;
        }
        Some(BittrexAdapter::rate_from_ticker(from_coin, to_coin, last, bid, ask))
    }
}

impl<'a> AdapterMeta<'a> for BittrexAdapter {
    fn name(&self) -> (r: &'a str)
        ensures
            r@ == "Bittrex"@,
    {
        "Bittrex"
    }

    fn code(&self) -> (r: &'a str)
        ensures
            r@ == "bittrex"@,
    {
        "bittrex"
    }
}

impl AdapterLow for BittrexAdapter {
    fn build_uri(&self, uri: &str, endpoint: &str) -> (r: String)
        ensures
            r@ == uri_of(self.market_api@, uri@, endpoint@),
    {
        build_uri(self.market_api.as_str(), uri, endpoint)
    }
}

/// A Bittrex adapter with nothing listed yet.
pub fn new() -> (r: BittrexAdapter)
    ensures
        r.pairs@.len() == 0,
        r.pair_map.entries().len() == 0,
        r.market_api@ == BITTREX_API@,
{
    BittrexAdapter::new()
}

} // verus!
