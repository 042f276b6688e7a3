//! Kraken: its asset-name tables, how its raw pair names are read as
//! `FROM_TO` symbols, the search for a ticker that answers a pair, and the
//! rate read from a ticker.
use vstd::prelude::*;
use crate::adapter_core::{build_uri, uri_of};
use crate::amount::{Amount, parses, parsed};
use crate::exchange::{Pair, PairNotFound, ExchangeRate, AdapterMeta, AdapterLow, pair_of, symbol_of, symbol_parts};
use crate::keyed::{KeyedList, first_value, lookup};
use crate::text::{texts, upper, before_first, to_upper, ends_with, split_first, same_text, contains_text};

verus! {

/// The Kraken API base.
pub const KRAKEN_BASE: &'static str = "https://api.kraken.com/0/public";

/// The request that lists Kraken's asset pairs.
pub const KRAKEN_PAIRS: &'static str = "https://api.kraken.com/0/public/AssetPairs?info=fees";

/// The request prefix for a Kraken ticker; the pair name follows it.
pub const KRAKEN_TICKER: &'static str = "https://api.kraken.com/0/public/Ticker?pair=";

/// The characters of each string of a list of string slices.
pub open spec fn strs(v: Seq<&str>) -> Seq<Seq<char>> {
    v.map_values(|x: &str| x@)
}

/// A table from names to names, by characters.
pub open spec fn str_pairs(v: Seq<(&str, &str)>) -> Seq<(Seq<char>, Seq<char>)> {
    v.map_values(|e: (&str, &str)| (e.0@, e.1@))
}

/// A table from names to lists of names, by characters.
pub open spec fn str_lists(v: Seq<(&str, Vec<&str>)>) -> Seq<(Seq<char>, Seq<Seq<char>>)> {
    v.map_values(|e: (&str, Vec<&str>)| (e.0@, strs(e.1@)))
}

/// Kraken's own asset names and the common names they stand for.
pub open spec fn kraken_symbol_map() -> Seq<(Seq<char>, Seq<char>)> {
    seq![
        ("XXDG"@, "DOGE"@),
        ("XDG"@, "DOGE"@),
        ("XXBT"@, "BTC"@),
        ("XBT"@, "BTC"@),
        ("XLTC"@, "LTC"@),
        ("ZUSD"@, "USD"@),
        ("ZEUR"@, "EUR"@),
        ("ZGBP"@, "GBP"@),
        ("ZJPY"@, "JPY"@),
    ]
}

/// The Kraken names under which each common asset name may be listed.
pub open spec fn kraken_expected_names() -> Seq<(Seq<char>, Seq<Seq<char>>)> {
    seq![
        ("DOGE"@, seq!["XDG"@, "XXDG"@]),
        ("BTC"@, seq!["XXBT"@, "XBT"@]),
        ("XBT"@, seq!["XXBT"@, "XBT"@]),
        ("LTC"@, seq!["XLTC"@, "LTC"@]),
        ("ETH"@, seq!["XETH"@, "ETH"@]),
        ("ETC"@, seq!["XETC"@, "ETC"@]),
        ("XRP"@, seq!["XXRP"@, "XRP"@]),
        ("XMR"@, seq!["XXMR"@, "XMR"@]),
        ("USD"@, seq!["ZUSD"@, "USD"@, "USDT"@, "USDC"@]),
        ("EUR"@, seq!["ZEUR"@, "EUR"@]),
        ("GBP"@, seq!["ZGBP"@, "GBP"@]),
        ("CAD"@, seq!["ZCAD"@, "CAD"@]),
        ("JPY"@, seq!["ZJPY"@, "JPY"@]),
    ]
}

/// The quote assets a Kraken pair name may end in, besides Kraken's own
/// asset names.
pub open spec fn kraken_common_bases() -> Seq<Seq<char>> {
    seq![
        "BTC"@,
        "ETH"@,
        "USDT"@,
        "USDC"@,
        "USD"@,
        "GBP"@,
        "EUR"@,
        "JPY"@,
        "CAD"@,
        "CHF"@,
        "DAI"@,
    ]
}

/// Pairs whose Kraken ticker name is known beforehand.
pub open spec fn kraken_known_pairs() -> Seq<(Seq<char>, Seq<char>)> {
    seq![
        ("BTC_USD"@, "XXBTZUSD"@),
        ("LTC_USD"@, "XLTCZUSD"@),
        ("ETH_USD"@, "XETHZUSD"@),
        ("BTC_EUR"@, "XXBTZEUR"@),
        ("LTC_EUR"@, "XLTCZEUR"@),
        ("ETH_EUR"@, "XETHZEUR"@),
        ("BTC_GBP"@, "XXBTZGBP"@),
        ("LTC_GBP"@, "XLTCZGBP"@),
        ("ETH_GBP"@, "XETHZGBP"@),
        ("EOS_USD"@, "EOSUSD"@),
        ("EOS_BTC"@, "EOSXBT"@),
        ("LTC_BTC"@, "XLTCXXBT"@),
        ("ETH_BTC"@, "XETHXXBT"@),
        ("USD_EUR"@, "USDTEUR"@),
        ("USD_GBP"@, "USDTGBP"@),
        ("USD_CAD"@, "USDTCAD"@),
    ]
}

/// The keys of a table.
pub open spec fn keys_of(t: Seq<(Seq<char>, Seq<char>)>) -> Seq<Seq<char>> {
    t.map_values(|e: (Seq<char>, Seq<char>)| e.0)
}

/// Kraken's asset names read as these common names: `XXDG` and `XDG` as
/// `DOGE`, `XXBT` and `XBT` as `BTC`, `XLTC` as `LTC`, `ZUSD` as `USD`,
/// `ZEUR` as `EUR`, `ZGBP` as `GBP`, `ZJPY` as `JPY`; a name the table does
/// not hold, such as `XETH`, reads as itself.
#[verifier::spinoff_prover]
pub proof fn law_kraken_common_names()
    ensures
        common_name(kraken_symbol_map(), "XXDG"@) == "DOGE"@,
        common_name(kraken_symbol_map(), "XDG"@) == "DOGE"@,
        common_name(kraken_symbol_map(), "XXBT"@) == "BTC"@,
        common_name(kraken_symbol_map(), "XBT"@) == "BTC"@,
        common_name(kraken_symbol_map(), "XLTC"@) == "LTC"@,
        common_name(kraken_symbol_map(), "ZUSD"@) == "USD"@,
        common_name(kraken_symbol_map(), "ZEUR"@) == "EUR"@,
        common_name(kraken_symbol_map(), "ZGBP"@) == "GBP"@,
        common_name(kraken_symbol_map(), "ZJPY"@) == "JPY"@,
        common_name(kraken_symbol_map(), "XETH"@) == "XETH"@,
{
    reveal_strlit("XXDG");
    reveal_strlit("XDG");
    reveal_strlit("XXBT");
    reveal_strlit("XBT");
    reveal_strlit("XLTC");
    reveal_strlit("ZUSD");
    reveal_strlit("ZEUR");
    reveal_strlit("ZGBP");
    reveal_strlit("ZJPY");
    reveal_strlit("XETH");
    reveal_with_fuel(first_value, 10);
    assert("XXDG"@[2] != "XXBT"@[2]);
    assert("XDG"@[1] != "XBT"@[1]);
    assert("XXDG"@[1] != "XLTC"@[1]);
    assert("XXBT"@[1] != "XLTC"@[1]);
    assert("ZUSD"@[1] != "ZEUR"@[1]);
    assert("ZUSD"@[1] != "ZGBP"@[1]);
    assert("ZUSD"@[1] != "ZJPY"@[1]);
    assert("ZEUR"@[1] != "ZGBP"@[1]);
    assert("ZEUR"@[1] != "ZJPY"@[1]);
    assert("ZGBP"@[1] != "ZJPY"@[1]);
    assert("XXDG"@[1] != "XETH"@[1]);
    assert("XXBT"@[1] != "XETH"@[1]);
    assert("XLTC"@[1] != "XETH"@[1]);
    assert("ZUSD"@[0] != "XETH"@[0]);
    assert("ZEUR"@[0] != "XETH"@[0]);
    assert("ZGBP"@[0] != "XETH"@[0]);
    assert("ZJPY"@[0] != "XETH"@[0]);
}

/// The Kraken names a common asset name may be listed under:
/// `DOGE` as `XDG` or `XXDG`; `BTC` and `XBT` as `XXBT` or `XBT`; `LTC`,
/// `ETH`, `ETC`, `XRP`, `XMR` with and without a leading `X`; `USD` as
/// `ZUSD`, `USD`, `USDT` or `USDC`; `EUR`, `GBP`, `CAD`, `JPY` with and
/// without a leading `Z`; any other name, such as `EOS`, only as itself.
#[verifier::spinoff_prover]
pub proof fn law_kraken_listing_names()
    ensures
        listing_names(kraken_expected_names(), "DOGE"@) == seq!["XDG"@, "XXDG"@],
        listing_names(kraken_expected_names(), "BTC"@) == seq!["XXBT"@, "XBT"@],
        listing_names(kraken_expected_names(), "XBT"@) == seq!["XXBT"@, "XBT"@],
        listing_names(kraken_expected_names(), "LTC"@) == seq!["XLTC"@, "LTC"@],
        listing_names(kraken_expected_names(), "ETH"@) == seq!["XETH"@, "ETH"@],
        listing_names(kraken_expected_names(), "ETC"@) == seq!["XETC"@, "ETC"@],
        listing_names(kraken_expected_names(), "XRP"@) == seq!["XXRP"@, "XRP"@],
        listing_names(kraken_expected_names(), "XMR"@) == seq!["XXMR"@, "XMR"@],
        listing_names(kraken_expected_names(), "USD"@) == seq!["ZUSD"@, "USD"@, "USDT"@, "USDC"@],
        listing_names(kraken_expected_names(), "EUR"@) == seq!["ZEUR"@, "EUR"@],
        listing_names(kraken_expected_names(), "GBP"@) == seq!["ZGBP"@, "GBP"@],
        listing_names(kraken_expected_names(), "CAD"@) == seq!["ZCAD"@, "CAD"@],
        listing_names(kraken_expected_names(), "JPY"@) == seq!["ZJPY"@, "JPY"@],
        listing_names(kraken_expected_names(), "EOS"@) == seq!["EOS"@],
{
    reveal_strlit("DOGE");
    reveal_strlit("BTC");
    reveal_strlit("XBT");
    reveal_strlit("LTC");
    reveal_strlit("ETH");
    reveal_strlit("ETC");
    reveal_strlit("XRP");
    reveal_strlit("XMR");
    reveal_strlit("USD");
    reveal_strlit("EUR");
    reveal_strlit("GBP");
    reveal_strlit("CAD");
    reveal_strlit("JPY");
    reveal_strlit("EOS");
    reveal_with_fuel(first_value, 14);
    assert("BTC"@[0] != "XBT"@[0]);
    assert("BTC"@[0] != "LTC"@[0]);
    assert("XBT"@[0] != "LTC"@[0]);
    assert("BTC"@[0] != "ETH"@[0]);
    assert("XBT"@[0] != "ETH"@[0]);
    assert("LTC"@[0] != "ETH"@[0]);
    assert("BTC"@[0] != "ETC"@[0]);
    assert("XBT"@[0] != "ETC"@[0]);
    assert("LTC"@[0] != "ETC"@[0]);
    assert("ETH"@[2] != "ETC"@[2]);
    assert("BTC"@[0] != "XRP"@[0]);
    assert("XBT"@[1] != "XRP"@[1]);
    assert("LTC"@[0] != "XRP"@[0]);
    assert("ETH"@[0] != "XRP"@[0]);
    assert("ETC"@[0] != "XRP"@[0]);
    assert("BTC"@[0] != "XMR"@[0]);
    assert("XBT"@[1] != "XMR"@[1]);
    assert("LTC"@[0] != "XMR"@[0]);
    assert("ETH"@[0] != "XMR"@[0]);
    assert("ETC"@[0] != "XMR"@[0]);
    assert("XRP"@[1] != "XMR"@[1]);
    assert("BTC"@[0] != "USD"@[0]);
    assert("XBT"@[0] != "USD"@[0]);
    assert("LTC"@[0] != "USD"@[0]);
    assert("ETH"@[0] != "USD"@[0]);
    assert("ETC"@[0] != "USD"@[0]);
    assert("XRP"@[0] != "USD"@[0]);
    assert("XMR"@[0] != "USD"@[0]);
    assert("BTC"@[0] != "EUR"@[0]);
    assert("XBT"@[0] != "EUR"@[0]);
    assert("LTC"@[0] != "EUR"@[0]);
    assert("ETH"@[1] != "EUR"@[1]);
    assert("ETC"@[1] != "EUR"@[1]);
    assert("XRP"@[0] != "EUR"@[0]);
    assert("XMR"@[0] != "EUR"@[0]);
    assert("USD"@[0] != "EUR"@[0]);
    assert("BTC"@[0] != "GBP"@[0]);
    assert("XBT"@[0] != "GBP"@[0]);
    assert("LTC"@[0] != "GBP"@[0]);
    assert("ETH"@[0] != "GBP"@[0]);
    assert("ETC"@[0] != "GBP"@[0]);
    assert("XRP"@[0] != "GBP"@[0]);
    assert("XMR"@[0] != "GBP"@[0]);
    assert("USD"@[0] != "GBP"@[0]);
    assert("EUR"@[0] != "GBP"@[0]);
    assert("BTC"@[0] != "CAD"@[0]);
    assert("XBT"@[0] != "CAD"@[0]);
    assert("LTC"@[0] != "CAD"@[0]);
    assert("ETH"@[0] != "CAD"@[0]);
    assert("ETC"@[0] != "CAD"@[0]);
    assert("XRP"@[0] != "CAD"@[0]);
    assert("XMR"@[0] != "CAD"@[0]);
    assert("USD"@[0] != "CAD"@[0]);
    assert("EUR"@[0] != "CAD"@[0]);
    assert("GBP"@[0] != "CAD"@[0]);
    assert("BTC"@[0] != "JPY"@[0]);
    assert("XBT"@[0] != "JPY"@[0]);
    assert("LTC"@[0] != "JPY"@[0]);
    assert("ETH"@[0] != "JPY"@[0]);
    assert("ETC"@[0] != "JPY"@[0]);
    assert("XRP"@[0] != "JPY"@[0]);
    assert("XMR"@[0] != "JPY"@[0]);
    assert("USD"@[0] != "JPY"@[0]);
    assert("EUR"@[0] != "JPY"@[0]);
    assert("GBP"@[0] != "JPY"@[0]);
    assert("CAD"@[0] != "JPY"@[0]);
    assert("BTC"@[0] != "EOS"@[0]);
    assert("XBT"@[0] != "EOS"@[0]);
    assert("LTC"@[0] != "EOS"@[0]);
    assert("ETH"@[1] != "EOS"@[1]);
    assert("ETC"@[1] != "EOS"@[1]);
    assert("XRP"@[0] != "EOS"@[0]);
    assert("XMR"@[0] != "EOS"@[0]);
    assert("USD"@[0] != "EOS"@[0]);
    assert("EUR"@[1] != "EOS"@[1]);
    assert("GBP"@[0] != "EOS"@[0]);
    assert("CAD"@[0] != "EOS"@[0]);
    assert("JPY"@[0] != "EOS"@[0]);
}

/// The first base of `bases` that the upper-case pair name ends with.
pub open spec fn first_base(pair: Seq<char>, bases: Seq<Seq<char>>) -> Option<Seq<char>>
    decreases bases.len(),
{
    if bases.len() == 0 {
        None
    } else if bases[0].is_suffix_of(pair) {
        Some(bases[0])
    } else {
        first_base(pair, bases.drop_first())
    }
}

/// A Kraken asset name in its common form, where the table has one.
pub open spec fn common_name(map: Seq<(Seq<char>, Seq<char>)>, name: Seq<char>) -> Seq<char> {
    match first_value(map, name) {
        Some(common) => common,
        None => name,
    }
}

/// The `FROM_TO` symbol Kraken's raw pair name stands for: the quote asset
/// is the first known base the (upper-case) name ends with, the base asset
/// is what precedes the first occurrence of it in the name; both are
/// mapped to their common names and upper-cased. Names ending in no
/// known base stand for nothing.
pub open spec fn provided_symbol(
    pair: Seq<char>,
    bases: Seq<Seq<char>>,
    map: Seq<(Seq<char>, Seq<char>)>,
) -> Option<Seq<char>> {
    match first_base(upper(pair), bases) {
        Some(quote) => Some(
            upper(common_name(map, before_first(pair, quote))) + seq!['_'] + upper(
                common_name(map, quote),
            ),
        ),
        None => None,
    }
}

/// The symbols a list of raw pair names stands for, in order.
pub open spec fn provided_symbols(
    pairs: Seq<Seq<char>>,
    bases: Seq<Seq<char>>,
    map: Seq<(Seq<char>, Seq<char>)>,
) -> Seq<Seq<char>>
    decreases pairs.len(),
{
    if pairs.len() == 0 {
        Seq::empty()
    } else {
        let rest = provided_symbols(pairs.drop_last(), bases, map);
        match provided_symbol(pairs.last(), bases, map) {
            Some(s) => rest.push(s),
            None => rest,
        }
    }
}

/// The raw pair names after merging in newly listed ones: a name not held
/// yet is appended, in listing order.
pub open spec fn merged_names(held: Seq<Seq<char>>, listed: Seq<Seq<char>>) -> Seq<Seq<char>>
    decreases listed.len(),
{
    if listed.len() == 0 {
        held
    } else {
        let m = merged_names(held, listed.drop_last());
        if m.contains(listed.last()) {
            m
        } else {
            m.push(listed.last())
        }
    }
}

/// The names a Kraken asset may be listed under: those of the table, or
/// the name itself.
pub open spec fn listing_names(expected: Seq<(Seq<char>, Seq<Seq<char>>)>, coin: Seq<char>) -> Seq<
    Seq<char>,
> {
    match first_value(expected, coin) {
        Some(names) => names,
        None => seq![coin],
    }
}

/// Every concatenation of a name of `froms` and a name of `tos`, the
/// source name varying slowest.
pub open spec fn ticker_names(froms: Seq<Seq<char>>, tos: Seq<Seq<char>>) -> Seq<Seq<char>>
    decreases froms.len(),
{
    if froms.len() == 0 {
        Seq::empty()
    } else {
        ticker_names(froms.drop_last(), tos) + tos.map_values(|t: Seq<char>| froms.last() + t)
    }
}

/// The ticker names tried for a pair of upper-case coins, in order: the
/// known name of the pair if there is one, otherwise every combination of
/// the names the two coins may be listed under.
pub open spec fn ticker_candidates(
    known: Seq<(Seq<char>, Seq<char>)>,
    expected: Seq<(Seq<char>, Seq<Seq<char>>)>,
    from_coin: Seq<char>,
    to_coin: Seq<char>,
) -> Seq<Seq<char>> {
    match first_value(known, from_coin + seq!['_'] + to_coin) {
        Some(name) => seq![name],
        None => ticker_names(listing_names(expected, from_coin), listing_names(expected, to_coin)),
    }
}

/// The base found for a pair name is one of the bases, the name ends with
/// it, and no base before it is a suffix of the name; when none is found,
/// no base is a suffix.
pub proof fn law_first_base(pair: Seq<char>, bases: Seq<Seq<char>>)
    ensures
        match first_base(pair, bases) {
            Some(b) => b.is_suffix_of(pair) && exists|i: int|
                0 <= i < bases.len() && bases[i] == b && forall|j: int|
                    0 <= j < i ==> !(#[trigger] bases[j]).is_suffix_of(pair),
            None => forall|j: int| 0 <= j < bases.len() ==> !(#[trigger] bases[j]).is_suffix_of(pair),
        },
    decreases bases.len(),
{
    if bases.len() > 0 {
        let rest = bases.drop_first();
        law_first_base(pair, rest);
        if !bases[0].is_suffix_of(pair) {
            match first_base(pair, rest) {
                Some(b) => {
                    let i = choose|i: int|
                        0 <= i < rest.len() && rest[i] == b && forall|j: int|
                            0 <= j < i ==> !(#[trigger] rest[j]).is_suffix_of(pair);
                    assert(bases[i + 1] == b);
                    assert forall|j: int| 0 <= j < i + 1 implies !(#[trigger] bases[j]).is_suffix_of(
                        pair,
                    ) by {
                        if j > 0 {
                            assert(bases[j] == rest[j - 1]);
                        }
                    }
                },
                None => {
                    assert forall|j: int| 0 <= j < bases.len() implies !(
                    #[trigger] bases[j]).is_suffix_of(pair) by {
                        if j > 0 {
                            assert(bases[j] == rest[j - 1]);
                        }
                    }
                },
            }
        } else {
            assert(bases[0] == bases[0]);
        }
    }
}

/// Merging a listing keeps the names held, in place and in order, holds
/// every listed name afterwards, adds nothing else, and repeats no name
/// when none was repeated before.
pub proof fn law_merge_listing(held: Seq<Seq<char>>, listed: Seq<Seq<char>>)
    ensures
        held.is_prefix_of(merged_names(held, listed)),
        forall|j: int| 0 <= j < listed.len() ==> merged_names(held, listed).contains(#[trigger] listed[j]),
        forall|n: Seq<char>|
            #[trigger] merged_names(held, listed).contains(n) ==> held.contains(n) || listed.contains(n),
        held.no_duplicates() ==> merged_names(held, listed).no_duplicates(),
    decreases listed.len(),
{
    if listed.len() > 0 {
        let prev = listed.drop_last();
        law_merge_listing(held, prev);
        let m = merged_names(held, prev);
        let last = listed.last();
        let r = merged_names(held, listed);
        assert(held.is_prefix_of(r)) by {
            assert(r.subrange(0, held.len() as int) =~= m.subrange(0, held.len() as int));
        }
        assert forall|j: int| 0 <= j < listed.len() implies r.contains(#[trigger] listed[j]) by {
            if j < listed.len() - 1 {
                assert(listed[j] == prev[j]);
                assert(m.contains(prev[j]));
                let k = choose|k: int| 0 <= k < m.len() && m[k] == prev[j];
                assert(r[k] == m[k]);
            } else if !m.contains(last) {
                assert(r[m.len() as int] == last);
            }
        }
        assert forall|n: Seq<char>| #[trigger] r.contains(n) implies held.contains(n) || listed.contains(n) by {
            let k = choose|k: int| 0 <= k < r.len() && r[k] == n;
            if k < m.len() {
                assert(m[k] == n);
                assert(m.contains(n));
                if prev.contains(n) {
                    let q = choose|q: int| 0 <= q < prev.len() && prev[q] == n;
                    assert(listed[q] == n);
                }
            } else {
                assert(listed[listed.len() - 1] == n);
            }
        }
        if held.no_duplicates() && !m.contains(last) {
            assert forall|a: int, b: int| 0 <= a < r.len() && 0 <= b < r.len() && a != b implies r[a]
                != r[b] by {
                if a < m.len() && b < m.len() {
                    assert(m[a] != m[b]);
                } else if a < m.len() {
                    assert(r[a] == m[a]);
                } else {
                    assert(r[b] == m[b]);
                }
            }
        }
    }
}

/// The ticker request for a Kraken pair name: the prefix, then the name.
pub fn ticker_url(pair: &str) -> (r: String)
    ensures
        r@ == KRAKEN_TICKER@ + pair@,
{
    let mut url = String::from_str(KRAKEN_TICKER);
    url.append(pair);
    url
}

/// `n` joins one name of `froms` with one name of `tos`.
pub open spec fn joins_names(froms: Seq<Seq<char>>, tos: Seq<Seq<char>>, n: Seq<char>) -> bool {
    exists|i: int, j: int| 0 <= i < froms.len() && 0 <= j < tos.len() && n == froms[i] + tos[j]
}

/// The names tried are exactly the joins of a name of `froms` with a name
/// of `tos`: each join is tried and nothing else is.
pub proof fn law_ticker_names_complete(froms: Seq<Seq<char>>, tos: Seq<Seq<char>>)
    ensures
        forall|n: Seq<char>| #[trigger] ticker_names(froms, tos).contains(n) <==> joins_names(froms, tos, n),
    decreases froms.len(),
{
    if froms.len() > 0 {
        let prev = froms.drop_last();
        law_ticker_names_complete(prev, tos);
        let head = ticker_names(prev, tos);
        let last = froms.last();
        let tail = tos.map_values(|t: Seq<char>| last + t);
        let all = ticker_names(froms, tos);
        assert(all == head + tail);
        assert forall|n: Seq<char>| #[trigger] all.contains(n) implies joins_names(froms, tos, n) by {
            let k = choose|k: int| 0 <= k < all.len() && all[k] == n;
            if k < head.len() {
                assert(head[k] == n);
                assert(head.contains(n));
                assert(joins_names(prev, tos, n));
                let (i, j) = choose|i: int, j: int|
                    0 <= i < prev.len() && 0 <= j < tos.len() && n == prev[i] + tos[j];
                assert(froms[i] == prev[i]);
            } else {
                let j = k - head.len();
                assert(tail[j] == last + tos[j]);
                assert(n == froms[froms.len() - 1] + tos[j]);
            }
        }
        assert forall|n: Seq<char>| joins_names(froms, tos, n) implies #[trigger] all.contains(n) by {
            let (i, j) = choose|i: int, j: int|
                0 <= i < froms.len() && 0 <= j < tos.len() && n == froms[i] + tos[j];
            if i < froms.len() - 1 {
                assert(froms[i] == prev[i]);
                assert(joins_names(prev, tos, n));
                assert(head.contains(n));
                let k = choose|k: int| 0 <= k < head.len() && head[k] == n;
                assert(all[k] == head[k]);
            } else {
                assert(all[head.len() + j] == tail[j]);
            }
        }
    } else {
        assert forall|n: Seq<char>| #[trigger] ticker_names(froms, tos).contains(n) <==> joins_names(
            froms,
            tos,
            n,
        ) by {
            assert(ticker_names(froms, tos).len() == 0);
        }
    }
}

/// The ticker names tried for a pair: the known name alone where the pair
/// has one; otherwise exactly the joins of a name the source coin may be
/// listed under with a name the target coin may be listed under.
pub proof fn law_ticker_candidates(
    known: Seq<(Seq<char>, Seq<char>)>,
    expected: Seq<(Seq<char>, Seq<Seq<char>>)>,
    from_coin: Seq<char>,
    to_coin: Seq<char>,
)
    ensures
        first_value(known, from_coin + seq!['_'] + to_coin) matches Some(name) ==> ticker_candidates(
            known,
            expected,
            from_coin,
            to_coin,
        ) == seq![name],
        first_value(known, from_coin + seq!['_'] + to_coin) is None ==> forall|n: Seq<char>|
            #[trigger] ticker_candidates(known, expected, from_coin, to_coin).contains(n) <==> joins_names(
                listing_names(expected, from_coin),
                listing_names(expected, to_coin),
                n,
            ),
{
    law_ticker_names_complete(listing_names(expected, from_coin), listing_names(expected, to_coin));
}

/// The first of `known_bases` that the upper-case form of `pair` ends with.
pub fn find_base(pair: &str, known_bases: Vec<&str>) -> (r: Option<String>)
    ensures
        match r {
            Some(base) => first_base(upper(pair@), strs(known_bases@)) == Some(base@),
            None => first_base(upper(pair@), strs(known_bases@)) is None,
        },
{
    let upper_pair = to_upper(pair);
    let n = known_bases.len();
    let mut i: usize = 0;
    assert(strs(known_bases@).skip(0) =~= strs(known_bases@));
    while i < n
        invariant
            n == known_bases@.len(),
            i <= n,
            upper_pair@ == upper(pair@),
            first_base(upper_pair@, strs(known_bases@)) == first_base(
                upper_pair@,
                strs(known_bases@).skip(i as int),
            ),
        decreases n - i,
    {
        let b = known_bases[i];
        assert(strs(known_bases@).skip(i as int)[0] == b@);
        if ends_with(upper_pair.as_str(), b) {
            return Some(String::from_str(b));
        }
        assert(strs(known_bases@).skip(i as int).drop_first() =~= strs(known_bases@).skip(i + 1));
        i = i + 1;
    }
    None
}

/// The position of the first entry of `table` with key `key`.
fn table_index<V>(table: &Vec<(&str, V)>, key: &str) -> (r: Option<usize>)
    ensures
        match r {
            Some(i) => i < table@.len() && first_value(
                table@.map_values(|e: (&str, V)| (e.0@, e.1)),
                key@,
            ) == Some(table@[i as int].1),
            None => first_value(table@.map_values(|e: (&str, V)| (e.0@, e.1)), key@) is None,
        },
{
    let ghost s = table@.map_values(|e: (&str, V)| (e.0@, e.1));
    let n = table.len();
    let mut i: usize = 0;
    assert(s.skip(0) =~= s);
    while i < n
        invariant
            n == table@.len(),
            s == table@.map_values(|e: (&str, V)| (e.0@, e.1)),
            i <= n,
            first_value(s, key@) == first_value(s.skip(i as int), key@),
        decreases n - i,
    {
        assert(s.skip(i as int)[0] == (table@[i as int].0@, table@[i as int].1));
        if same_text(table[i].0, key) {
            return Some(i);
        }
        assert(s.skip(i as int).drop_first() =~= s.skip(i + 1));
        i = i + 1;
    }
    None
}

/// Whether some string of `list` holds the same characters as `s`.
fn contains_str(list: &Vec<&str>, s: &str) -> (r: bool)
    ensures
        r == strs(list@).contains(s@),
{
    let n = list.len();
    let mut i: usize = 0;
    while i < n
        invariant
            n == list@.len(),
            i <= n,
            forall|j: int| 0 <= j < i ==> list@[j]@ != s@,
        decreases n - i,
    {
        if same_text(list[i], s) {
            assert(strs(list@)[i as int] == s@);
            return true;
        }
        i = i + 1;
    }
    assert forall|j: int| 0 <= j < strs(list@).len() implies strs(list@)[j] != s@ by {
        assert(list@[j]@ != s@);
    }
    false
}

/// A copy of a table of name pairs.
fn copy_pairs<'b>(t: &Vec<(&'b str, &'b str)>) -> (r: Vec<(&'b str, &'b str)>)
    ensures
        r@ == t@,
{
    let n = t.len();
    let mut r: Vec<(&'b str, &'b str)> = Vec::new();
    let mut i: usize = 0;
    while i < n
        invariant
            n == t@.len(),
            i <= n,
            r@ == t@.take(i as int),
        decreases n - i,
    {
        r.push(t[i]);
        assert(t@.take(i + 1) =~= t@.take(i as int).push(t@[i as int]));
        i = i + 1;
    }
    assert(t@.take(n as int) =~= t@);
    r
}

/// A copy of a table of name lists, by characters.
fn copy_lists<'b>(t: &Vec<(&'b str, Vec<&'b str>)>) -> (r: Vec<(&'b str, Vec<&'b str>)>)
    ensures
        str_lists(r@) == str_lists(t@),
{
    let n = t.len();
    let mut r: Vec<(&'b str, Vec<&'b str>)> = Vec::new();
    let mut i: usize = 0;
    while i < n
        invariant
            n == t@.len(),
            i <= n,
            str_lists(r@) == str_lists(t@).take(i as int),
        decreases n - i,
    {
        let ghost before = r@;
        let names = t[i].1.clone();
        r.push((t[i].0, names));
        assert(strs(names@) =~= strs(t@[i as int].1@));
        assert(str_lists(r@) =~= str_lists(before).push(str_lists(t@)[i as int]));
        assert(str_lists(t@).take(i + 1) =~= str_lists(t@).take(i as int).push(str_lists(t@)[i as int]));
        i = i + 1;
    }
    assert(str_lists(t@).take(n as int) =~= str_lists(t@));
    r
}

/// Owned copies of a list of string slices.
fn owned_strings(list: &Vec<&str>) -> (r: Vec<String>)
    ensures
        texts(r@) == strs(list@),
{
    let n = list.len();
    let mut out: Vec<String> = Vec::new();
    let mut i: usize = 0;
    while i < n
        invariant
            n == list@.len(),
            i <= n,
            texts(out@) == strs(list@).take(i as int),
        decreases n - i,
    {
        let ghost before = out@;
        out.push(String::from_str(list[i]));
        assert(texts(out@) =~= texts(before).push(list@[i as int]@));
        assert(strs(list@).take(i + 1) =~= strs(list@).take(i as int).push(list@[i as int]@));
        i = i + 1;
    }
    assert(strs(list@).take(n as int) =~= strs(list@));
    out
}

/// A table's key list holds a key exactly when the table has a first
/// value for it.
proof fn lemma_first_value_present(t: Seq<(Seq<char>, Seq<char>)>, k: Seq<char>)
    ensures
        keys_of(t).contains(k) == (first_value(t, k) is Some),
    decreases t.len(),
{
    if t.len() > 0 {
        lemma_first_value_present(t.drop_first(), k);
        if keys_of(t).contains(k) && t[0].0 != k {
            let j = choose|j: int| 0 <= j < keys_of(t).len() && keys_of(t)[j] == k;
            assert(keys_of(t.drop_first())[j - 1] == k);
        }
        if keys_of(t.drop_first()).contains(k) {
            let j = choose|j: int| 0 <= j < keys_of(t.drop_first()).len() && keys_of(t.drop_first())[j] == k;
            assert(keys_of(t)[j + 1] == k);
        }
        if t[0].0 == k {
            assert(keys_of(t)[0] == k);
        }
    }
}

/// Looking a key up in a table of string slices finds the entry whose
/// value, by characters, the character table holds.
proof fn lemma_first_value_views<'b>(t: Seq<(&'b str, &'b str)>, k: Seq<char>)
    ensures
        match first_value(t.map_values(|e: (&'b str, &'b str)| (e.0@, e.1)), k) {
            Some(v) => first_value(str_pairs(t), k) == Some(v@),
            None => first_value(str_pairs(t), k) is None,
        },
    decreases t.len(),
{
    if t.len() > 0 {
        lemma_first_value_views(t.drop_first(), k);
        assert(t.drop_first().map_values(|e: (&'b str, &'b str)| (e.0@, e.1)) =~= t.map_values(
            |e: (&'b str, &'b str)| (e.0@, e.1),
        ).drop_first());
        assert(str_pairs(t.drop_first()) =~= str_pairs(t).drop_first());
    }
}

/// One quote of a Kraken ticker: each list holds the latest value first.
#[derive(Debug)]
pub struct KrakenTickerTick {
    pub ask: Vec<String>,
    pub bid: Vec<String>,
    pub last: Vec<String>,
    pub open: String,
    pub high: Vec<String>,
    pub low: Vec<String>,
    pub volume: Vec<String>,
}

impl KrakenTickerTick {
    /// The closing price: the latest trade.
    pub fn close(&self) -> (r: String)
        requires
            self.last@.len() > 0,
        ensures
            r@ == self.last@[0]@,
    {
        self.last[0].clone()
    }

    /// Every value a rate is read from is present and is a decimal.
    pub open spec fn readable(&self) -> bool {
        &&& self.ask@.len() > 0 && parses(self.ask@[0]@)
        &&& self.bid@.len() > 0 && parses(self.bid@[0]@)
        &&& self.last@.len() > 0 && parses(self.last@[0]@)
        &&& self.high@.len() > 0 && parses(self.high@[0]@)
        &&& self.low@.len() > 0 && parses(self.low@[0]@)
        &&& self.volume@.len() > 0 && parses(self.volume@[0]@)
        &&& parses(self.open@)
    }

    /// The rate this quote gives for the pair of the two coins.
    pub open spec fn rate_of(&self, from_coin: Seq<char>, to_coin: Seq<char>, r: ExchangeRate) -> bool {
        &&& r.last == parsed(self.last@[0]@)
        &&& r.bid == parsed(self.bid@[0]@)
        &&& r.ask == parsed(self.ask@[0]@)
        &&& r.low == parsed(self.low@[0]@)
        &&& r.high == parsed(self.high@[0]@)
        &&& r.volume == parsed(self.volume@[0]@)
        &&& r.open == parsed(self.open@)
        &&& r.close == parsed(self.last@[0]@)
        &&& r.pair@ == pair_of(from_coin, to_coin)
    }

    /// The rate this quote gives for the pair of the two coins.
    pub fn rate(&self, from_coin: &str, to_coin: &str) -> (r: ExchangeRate)
        requires
            self.readable(),
        ensures
            self.rate_of(from_coin@, to_coin@, r),
            r.last == parsed(self.last@[0]@),
            r.bid == parsed(self.bid@[0]@),
            r.ask == parsed(self.ask@[0]@),
            r.low == parsed(self.low@[0]@),
            r.high == parsed(self.high@[0]@),
            r.volume == parsed(self.volume@[0]@),
            r.open == parsed(self.open@),
            r.close == parsed(self.last@[0]@),
            r.pair@ == (upper(from_coin@), upper(to_coin@)),
    {
        let close = self.close();
        ExchangeRate {
            last: Amount::parse(self.last[0].as_str()).unwrap(),
            bid: Amount::parse(self.bid[0].as_str()).unwrap(),
            ask: Amount::parse(self.ask[0].as_str()).unwrap(),
            low: Amount::parse(self.low[0].as_str()).unwrap(),
            high: Amount::parse(self.high[0].as_str()).unwrap(),
            volume: Amount::parse(self.volume[0].as_str()).unwrap(),
            open: Amount::parse(self.open.as_str()).unwrap(),
            close: Amount::parse(close.as_str()).unwrap(),
            pair: Pair::from_str(from_coin, to_coin),
        }
    }

    /// The rate this quote gives, or `None` where a value is missing or is
    /// not a decimal.
    pub fn try_rate(&self, from_coin: &str, to_coin: &str) -> (r: Option<ExchangeRate>)
        ensures
            match r {
                Some(rate) => self.readable() && self.rate_of(from_coin@, to_coin@, rate),
                None => !self.readable(),
            },
            r matches Some(rate) ==> rate.high == parsed(self.high@[0]@) && rate.low == parsed(
                self.low@[0]@,
            ) && rate.bid == parsed(self.bid@[0]@) && rate.ask == parsed(self.ask@[0]@) && rate.last
                == parsed(self.last@[0]@) && rate.volume == parsed(self.volume@[0]@) && rate.open
                == parsed(self.open@) && rate.close == parsed(self.last@[0]@),
    {
        if self.ask.len() == 0 || self.bid.len() == 0 || self.last.len() == 0 || self.high.len() == 0
            || self.low.len() == 0 || self.volume.len() == 0 {
            return None;
        }
        if Amount::parse(self.ask[0].as_str()).is_none() || Amount::parse(self.bid[0].as_str()).is_none()
            || Amount::parse(self.last[0].as_str()).is_none() || Amount::parse(
            self.high[0].as_str(),
        ).is_none() || Amount::parse(self.low[0].as_str()).is_none() || Amount::parse(
            self.volume[0].as_str(),
        ).is_none() || Amount::parse(self.open.as_str()).is_none() {
            return None;
        }
        Some(self.rate(from_coin, to_coin))
    }
}

impl Clone for KrakenTickerTick {
    fn clone(&self) -> (r: Self)
        ensures
            r.ask@ == self.ask@,
            r.bid@ == self.bid@,
            r.last@ == self.last@,
            r.open == self.open,
            r.high@ == self.high@,
            r.low@ == self.low@,
            r.volume@ == self.volume@,
    {
        KrakenTickerTick {
            ask: self.ask.clone(),
            bid: self.bid.clone(),
            last: self.last.clone(),
            open: self.open.clone(),
            high: self.high.clone(),
            low: self.low.clone(),
            volume: self.volume.clone(),
        }
    }
}

/// Each field of a rate read from a quote comes from the quote's field of
/// the same name: the latest high is the high, the latest low the low, the
/// latest bid the bid, the latest ask the ask; the close is the latest trade.
pub proof fn law_rate_reads_matching_fields(
    tick: KrakenTickerTick,
    from_coin: Seq<char>,
    to_coin: Seq<char>,
    r: ExchangeRate,
)
    requires
        tick.readable(),
        tick.rate_of(from_coin, to_coin, r),
    ensures
        r.high == parsed(tick.high@[0]@),
        r.low == parsed(tick.low@[0]@),
        r.bid == parsed(tick.bid@[0]@),
        r.ask == parsed(tick.ask@[0]@),
        r.last == parsed(tick.last@[0]@),
        r.close == r.last,
        r.volume == parsed(tick.volume@[0]@),
        r.open == parsed(tick.open@),
        r.pair@ == (upper(from_coin), upper(to_coin)),
{
}

/// A Kraken ticker reply: the errors it reports and the quote of each pair
/// name asked for.
pub struct KrakenTicker {
    pub error: Vec<String>,
    pub result: KeyedList<KrakenTickerTick>,
}

impl KrakenTicker {
    /// The reply, or the error for `pair` where it reports errors.
    pub fn checked(self, pair: &str) -> (r: Result<KrakenTicker, PairNotFound>)
        ensures
            match r {
                Ok(t) => self.error@.len() == 0 && t == self,
                Err(e) => self.error@.len() > 0 && e.message() == "The requested pair '"@ + pair@
                    + "' does not exist!"@,
            },
    {
        if self.error.len() > 0 {
            Err(PairNotFound::new(pair))
        } else {
            Ok(self)
        }
    }
}

/// Kraken's tables and the pairs it has listed.
pub struct KrakenAdapter<'a> {
    provides: Vec<String>,
    pairs: Vec<String>,
    obj_pairs: Vec<Pair>,
    symbol_map: Vec<(&'a str, &'a str)>,
    symbol_map_expected: Vec<(&'a str, Vec<&'a str>)>,
    symbol_map_keys: Vec<&'a str>,
    known_bases: Vec<&'a str>,
    known_pairs: Vec<(&'a str, &'a str)>,
    market_api: &'a str,
}

impl<'a> AdapterMeta<'a> for KrakenAdapter<'_> {
    fn name(&self) -> (r: &'a str)
        ensures
            r@ == "Kraken"@,
    {
        "Kraken"
    }

    fn code(&self) -> (r: &'a str)
        ensures
            r@ == "kraken"@,
    {
        "kraken"
    }
}

impl<'a> AdapterLow for KrakenAdapter<'a> {
    fn build_uri(&self, uri: &str, endpoint: &str) -> (r: String)
        ensures
            r@ == uri_of(self.api(), uri@, endpoint@),
    {
        build_uri(self.market_api, uri, endpoint)
    }
}

/// A Kraken adapter with its tables and nothing listed yet.
pub fn new<'a>() -> (r: KrakenAdapter<'a>)
    ensures
        r.provided() == Seq::<Seq<char>>::empty(),
        r.listed() == Seq::<Seq<char>>::empty(),
        r.object_pairs() == Seq::<(Seq<char>, Seq<char>)>::empty(),
        r.symbol_map() == kraken_symbol_map(),
        r.expected_names() == kraken_expected_names(),
        r.bases() == keys_of(kraken_symbol_map()) + kraken_common_bases(),
        r.known_pairs() == kraken_known_pairs(),
        r.api() == KRAKEN_BASE@,
{
    KrakenAdapter::new()
}

impl<'a> Clone for KrakenAdapter<'a> {
    fn clone(&self) -> (r: Self)
        ensures
            r.provided() == self.provided(),
            r.listed() == self.listed(),
            r.object_pairs() == self.object_pairs(),
            r.symbol_map() == self.symbol_map(),
            r.expected_names() == self.expected_names(),
            r.bases() == self.bases(),
            r.known_pairs() == self.known_pairs(),
            r.api() == self.api(),
    {
        proof {
            use_type_invariant(self);
        }
        let r = KrakenAdapter {
            provides: self.provides.clone(),
            pairs: self.pairs.clone(),
            obj_pairs: self.obj_pairs.clone(),
            symbol_map: copy_pairs(&self.symbol_map),
            symbol_map_expected: copy_lists(&self.symbol_map_expected),
            symbol_map_keys: self.symbol_map_keys.clone(),
            known_bases: self.known_bases.clone(),
            known_pairs: copy_pairs(&self.known_pairs),
            market_api: self.market_api,
        };
        assert(r.provided() =~= self.provided());
        r
    }
}

/// Another name for `KrakenAdapter`.
pub type KrakenCore<'a> = KrakenAdapter<'a>;

impl<'a> KrakenAdapter<'a> {
    /// The `FROM_TO` symbols read from the listed pairs.
    pub closed spec fn provided(&self) -> Seq<Seq<char>> {
        texts(self.provides@)
    }

    /// Kraken's raw pair names, as listed.
    pub closed spec fn listed(&self) -> Seq<Seq<char>> {
        texts(self.pairs@)
    }

    /// The pairs handed out, once read.
    pub closed spec fn object_pairs(&self) -> Seq<(Seq<char>, Seq<char>)> {
        self.obj_pairs@.map_values(|p: Pair| p@)
    }

    /// The table from Kraken asset names to common ones.
    pub closed spec fn symbol_map(&self) -> Seq<(Seq<char>, Seq<char>)> {
        str_pairs(self.symbol_map@)
    }

    /// The names each common asset may be listed under.
    pub closed spec fn expected_names(&self) -> Seq<(Seq<char>, Seq<Seq<char>>)> {
        str_lists(self.symbol_map_expected@)
    }

    /// The quote assets a raw pair name may end in, in the order tried.
    pub closed spec fn bases(&self) -> Seq<Seq<char>> {
        strs(self.known_bases@)
    }

    /// Pairs whose ticker name is known.
    pub closed spec fn known_pairs(&self) -> Seq<(Seq<char>, Seq<char>)> {
        str_pairs(self.known_pairs@)
    }

    /// The API base.
    pub closed spec fn api(&self) -> Seq<char> {
        self.market_api@
    }

    #[verifier::type_invariant]
    spec fn wf(&self) -> bool {
        &&& strs(self.symbol_map_keys@) == keys_of(str_pairs(self.symbol_map@))
        &&& forall|i: int| 0 <= i < self.provides@.len() ==> (#[trigger] self.provides@[i])@.contains('_')
    }

    /// An adapter with Kraken's tables and nothing listed yet.
    pub fn new() -> (r: Self)
        ensures
            r.provided() == Seq::<Seq<char>>::empty(),
            r.listed() == Seq::<Seq<char>>::empty(),
            r.object_pairs() == Seq::<(Seq<char>, Seq<char>)>::empty(),
            r.symbol_map() == kraken_symbol_map(),
            r.expected_names() == kraken_expected_names(),
            r.bases() == keys_of(kraken_symbol_map()) + kraken_common_bases(),
            r.known_pairs() == kraken_known_pairs(),
            r.api() == KRAKEN_BASE@,
    {
        let symbol_map: Vec<(&'a str, &'a str)> = vec![
            ("XXDG", "DOGE"),
            ("XDG", "DOGE"),
            ("XXBT", "BTC"),
            ("XBT", "BTC"),
            ("XLTC", "LTC"),
            ("ZUSD", "USD"),
            ("ZEUR", "EUR"),
            ("ZGBP", "GBP"),
            ("ZJPY", "JPY"),
        ];
        assert(str_pairs(symbol_map@) =~= kraken_symbol_map());
        let symbol_map_expected: Vec<(&'a str, Vec<&'a str>)> = vec![
            ("DOGE", vec!["XDG", "XXDG"]),
            ("BTC", vec!["XXBT", "XBT"]),
            ("XBT", vec!["XXBT", "XBT"]),
            ("LTC", vec!["XLTC", "LTC"]),
            ("ETH", vec!["XETH", "ETH"]),
            ("ETC", vec!["XETC", "ETC"]),
            ("XRP", vec!["XXRP", "XRP"]),
            ("XMR", vec!["XXMR", "XMR"]),
            ("USD", vec!["ZUSD", "USD", "USDT", "USDC"]),
            ("EUR", vec!["ZEUR", "EUR"]),
            ("GBP", vec!["ZGBP", "GBP"]),
            ("CAD", vec!["ZCAD", "CAD"]),
            ("JPY", vec!["ZJPY", "JPY"]),
        ];
        assert(str_lists(symbol_map_expected@) =~= kraken_expected_names()) by {
            assert forall|i: int| 0 <= i < 13 implies #[trigger] str_lists(symbol_map_expected@)[i]
                =~= kraken_expected_names()[i] by {
                assert(strs(symbol_map_expected@[i].1@) =~= kraken_expected_names()[i].1);
            }
        }
        let mut symbol_map_keys: Vec<&'a str> = Vec::new();
        let m = symbol_map.len();
        let mut i: usize = 0;
        while i < m
            invariant
                m == symbol_map@.len(),
                i <= m,
                strs(symbol_map_keys@) == keys_of(str_pairs(symbol_map@)).take(i as int),
            decreases m - i,
        {
            let ghost before = symbol_map_keys@;
            symbol_map_keys.push(symbol_map[i].0);
            assert(strs(symbol_map_keys@) =~= strs(before).push(symbol_map@[i as int].0@));
            assert(keys_of(str_pairs(symbol_map@)).take(i + 1) =~= keys_of(str_pairs(symbol_map@)).take(i as int).push(symbol_map@[i as int].0@));
            assert(strs(symbol_map_keys@) =~= keys_of(str_pairs(symbol_map@)).take(i + 1));
            i = i + 1;
        }
        assert(keys_of(str_pairs(symbol_map@)).take(m as int) =~= keys_of(str_pairs(symbol_map@)));
        let mut known_bases: Vec<&'a str> = symbol_map_keys.clone();
        let common: Vec<&'a str> = vec![
            "BTC",
            "ETH",
            "USDT",
            "USDC",
            "USD",
            "GBP",
            "EUR",
            "JPY",
            "CAD",
            "CHF",
            "DAI",
        ];
        let ghost first_part = strs(known_bases@);
        let c = common.len();
        let mut j: usize = 0;
        while j < c
            invariant
                c == common@.len(),
                j <= c,
                strs(known_bases@) == first_part + strs(common@).take(j as int),
            decreases c - j,
        {
            let ghost before = known_bases@;
            known_bases.push(common[j]);
            assert(strs(known_bases@) =~= strs(before).push(common@[j as int]@));
            assert(strs(common@).take(j + 1) =~= strs(common@).take(j as int).push(common@[j as int]@));
            assert(strs(known_bases@) =~= first_part + strs(common@).take(j + 1));
            j = j + 1;
        }
        assert(strs(common@).take(c as int) =~= kraken_common_bases());
        let known_pairs: Vec<(&'a str, &'a str)> = vec![
            ("BTC_USD", "XXBTZUSD"),
            ("LTC_USD", "XLTCZUSD"),
            ("ETH_USD", "XETHZUSD"),
            ("BTC_EUR", "XXBTZEUR"),
            ("LTC_EUR", "XLTCZEUR"),
            ("ETH_EUR", "XETHZEUR"),
            ("BTC_GBP", "XXBTZGBP"),
            ("LTC_GBP", "XLTCZGBP"),
            ("ETH_GBP", "XETHZGBP"),
            ("EOS_USD", "EOSUSD"),
            ("EOS_BTC", "EOSXBT"),
            ("LTC_BTC", "XLTCXXBT"),
            ("ETH_BTC", "XETHXXBT"),
            ("USD_EUR", "USDTEUR"),
            ("USD_GBP", "USDTGBP"),
            ("USD_CAD", "USDTCAD"),
        ];
        assert(str_pairs(known_pairs@) =~= kraken_known_pairs());
        let r = KrakenAdapter {
            provides: Vec::new(),
            pairs: Vec::new(),
            obj_pairs: Vec::new(),
            market_api: KRAKEN_BASE,
            symbol_map,
            symbol_map_keys,
            symbol_map_expected,
            known_bases,
            known_pairs,
        };
        assert(r.provided() =~= Seq::<Seq<char>>::empty());
        assert(r.listed() =~= Seq::<Seq<char>>::empty());
        assert(r.object_pairs() =~= Seq::<(Seq<char>, Seq<char>)>::empty());
        r
    }

    /// The common name of a Kraken asset name, where the table has one.
    fn common_name_of(&self, name: &str) -> (r: String)
        ensures
            r@ == common_name(self.symbol_map(), name@),
    {
        proof {
            use_type_invariant(self);
            lemma_first_value_present(self.symbol_map(), name@);
            lemma_first_value_views(self.symbol_map@, name@);
        }
        if contains_str(&self.symbol_map_keys, name) {
            let i = table_index(&self.symbol_map, name).unwrap();
            String::from_str(self.symbol_map[i].1)
        } else {
            String::from_str(name)
        }
    }

    /// The symbol one raw pair name stands for, if it ends in a known base.
    fn symbol_for(&self, pair: &str) -> (r: Option<String>)
        ensures
            match r {
                Some(s) => provided_symbol(pair@, self.bases(), self.symbol_map()) == Some(s@),
                None => provided_symbol(pair@, self.bases(), self.symbol_map()) is None,
            },
    {
        proof {
            reveal_strlit("_");
            assert("_"@ =~= seq!['_']);
        }
        match find_base(pair, self.known_bases.clone()) {
            Some(quote) => {
                let head = split_first(pair, quote.as_str());
                let to_coin = self.common_name_of(quote.as_str());
                let from_coin = self.common_name_of(head);
                let mut s = to_upper(from_coin.as_str());
                s.append("_");
                s.append(to_upper(to_coin.as_str()).as_str());
                Some(s)
            },
            None => None,
        }
    }

    /// Reads the listed raw pair names as `FROM_TO` symbols and keeps them.
    /// Symbols read earlier are kept and handed back instead unless there
    /// are none or `force` is set. This is the part of loading Kraken's
    /// pairs that follows merging in the listing.
    pub fn load_pairs(&mut self, force: bool) -> (r: Vec<String>)
        ensures
            final(self).provided() == (if old(self).provided().len() > 0 && !force {
                old(self).provided()
            } else {
                provided_symbols(old(self).listed(), old(self).bases(), old(self).symbol_map())
            }),
            texts(r@) == final(self).provided(),
            forall|i: int|
                0 <= i < final(self).provided().len() ==> (#[trigger] final(self).provided()[i]).contains(
                    '_',
                ),
            final(self).listed() == old(self).listed(),
            final(self).object_pairs() == old(self).object_pairs(),
            final(self).symbol_map() == old(self).symbol_map(),
            final(self).expected_names() == old(self).expected_names(),
            final(self).bases() == old(self).bases(),
            final(self).known_pairs() == old(self).known_pairs(),
            final(self).api() == old(self).api(),
    {
        proof {
            use_type_invariant(&*self);
        }
        if self.provides.len() > 0 && !force {
            return self.provides.clone();
        }
        let ghost names = self.listed();
        let n = self.pairs.len();
        let mut out: Vec<String> = Vec::new();
        let mut i: usize = 0;
        assert(names.take(0) =~= Seq::<Seq<char>>::empty());
        while i < n
            invariant
                n == self.pairs@.len(),
                names == self.listed(),
                i <= n,
                texts(out@) == provided_symbols(names.take(i as int), self.bases(), self.symbol_map()),
                forall|j: int| 0 <= j < out@.len() ==> (#[trigger] out@[j])@.contains('_'),
            decreases n - i,
        {
            let ghost before = out@;
            assert(names.take(i + 1).drop_last() =~= names.take(i as int));
            assert(names.take(i + 1).last() == self.pairs@[i as int]@);
            match self.symbol_for(self.pairs[i].as_str()) {
                Some(s) => {
                    proof {
                        let q = first_base(upper(names[i as int]), self.bases())->0;
                        let f = upper(common_name(self.symbol_map(), before_first(names[i as int], q)));
                        assert(s@[f.len() as int] == '_');
                    }
                    out.push(s);
                    assert(texts(out@) =~= texts(before).push(s@));
                    assert forall|j: int| 0 <= j < out@.len() implies (#[trigger] out@[j])@.contains('_') by {
                        if j < before.len() {
                            assert(out@[j] == before[j]);
                        }
                    }
                },
                None => {},
            }
            i = i + 1;
        }
        assert(names.take(n as int) =~= names);
        let r = out.clone();
        self.provides = out;
        r
    }

    /// Adds the raw pair names of a fresh listing that are not held yet, in
    /// listing order, and hands back all names held.
    pub fn merge_listed_pairs(&mut self, listed: Vec<String>) -> (r: Vec<String>)
        ensures
            final(self).listed() == merged_names(old(self).listed(), texts(listed@)),
            texts(r@) == final(self).listed(),
            final(self).provided() == old(self).provided(),
            final(self).object_pairs() == old(self).object_pairs(),
            final(self).symbol_map() == old(self).symbol_map(),
            final(self).expected_names() == old(self).expected_names(),
            final(self).bases() == old(self).bases(),
            final(self).known_pairs() == old(self).known_pairs(),
            final(self).api() == old(self).api(),
    {
        proof {
            use_type_invariant(&*self);
        }
        let mut pairs: Vec<String> = Vec::new();
        std::mem::swap(&mut pairs, &mut self.pairs);
        let ghost held = texts(pairs@);
        let ghost fresh = texts(listed@);
        let n = listed.len();
        let mut i: usize = 0;
        assert(fresh.take(0) =~= Seq::<Seq<char>>::empty());
        while i < n
            invariant
                n == listed@.len(),
                fresh == texts(listed@),
                i <= n,
                texts(pairs@) == merged_names(held, fresh.take(i as int)),
            decreases n - i,
        {
            assert(fresh.take(i + 1).drop_last() =~= fresh.take(i as int));
            assert(fresh.take(i + 1).last() == listed@[i as int]@);
            if !contains_text(&pairs, listed[i].as_str()) {
                let ghost before = pairs@;
                pairs.push(listed[i].clone());
                assert(texts(pairs@) =~= texts(before).push(listed@[i as int]@));
            }
            i = i + 1;
        }
        assert(fresh.take(n as int) =~= fresh);
        let r = pairs.clone();
        self.pairs = pairs;
        r
    }

    /// Whether the pairs have not been read yet, so that a listing must be
    /// loaded before `get_pairs`.
    pub fn needs_pairs(&self) -> (r: bool)
        ensures
            r == (self.object_pairs().len() == 0),
    {
        self.obj_pairs.len() == 0
    }

    /// The pairs Kraken lists. When none has been read yet, the symbols are
    /// read from the listed names (as `load_pairs(false)` does) and each
    /// becomes a pair; afterwards the pairs read are handed out unchanged.
    pub fn get_pairs(&mut self) -> (r: Vec<Pair>)
        ensures
            final(self).object_pairs() == (if old(self).object_pairs().len() == 0 {
                final(self).provided().map_values(|s: Seq<char>| symbol_parts(s))
            } else {
                old(self).object_pairs()
            }),
            old(self).object_pairs().len() == 0 ==> final(self).provided() == (if old(
                self,
            ).provided().len() > 0 {
                old(self).provided()
            } else {
                provided_symbols(old(self).listed(), old(self).bases(), old(self).symbol_map())
            }),
            old(self).object_pairs().len() > 0 ==> final(self).provided() == old(self).provided(),
            r@.map_values(|p: Pair| p@) == final(self).object_pairs(),
            final(self).listed() == old(self).listed(),
            final(self).symbol_map() == old(self).symbol_map(),
            final(self).expected_names() == old(self).expected_names(),
            final(self).bases() == old(self).bases(),
            final(self).known_pairs() == old(self).known_pairs(),
            final(self).api() == old(self).api(),
    {
        if self.obj_pairs.len() == 0 {
            let symbols = self.load_pairs(false);
            let ghost provided = texts(symbols@);
            let mut opairs: Vec<Pair> = Vec::new();
            let n = symbols.len();
            let mut i: usize = 0;
            while i < n
                invariant
                    n == symbols@.len(),
                    provided == texts(symbols@),
                    forall|j: int| 0 <= j < provided.len() ==> (#[trigger] provided[j]).contains('_'),
                    i <= n,
                    opairs@.map_values(|p: Pair| p@) == provided.take(i as int).map_values(
                        |s: Seq<char>| symbol_parts(s),
                    ),
                decreases n - i,
            {
                assert(provided[i as int] == symbols@[i as int]@);
                let p = Pair::from_symbol(symbols[i].as_str());
                let ghost before = opairs@;
                opairs.push(p);
                assert(provided.take(i + 1) =~= provided.take(i as int).push(provided[i as int]));
                assert(opairs@.map_values(|p: Pair| p@) =~= before.map_values(|p: Pair| p@).push(p@));
                assert(opairs@.map_values(|p: Pair| p@) =~= provided.take(i + 1).map_values(
                    |s: Seq<char>| symbol_parts(s),
                ));
                i = i + 1;
            }
            assert(provided.take(n as int) =~= provided);
            proof {
                use_type_invariant(&*self);
            }
            self.obj_pairs = opairs;
        }
        let mut out: Vec<Pair> = Vec::new();
        let m = self.obj_pairs.len();
        let mut k: usize = 0;
        while k < m
            invariant
                m == self.obj_pairs@.len(),
                k <= m,
                out@.map_values(|p: Pair| p@) == self.object_pairs().take(k as int),
            decreases m - k,
        {
            let ghost before = out@;
            out.push(self.obj_pairs[k].clone());
            assert(out@.map_values(|p: Pair| p@) =~= self.object_pairs().take(k + 1)) by {
                assert(out@.map_values(|p: Pair| p@) =~= before.map_values(|p: Pair| p@).push(
                    self.obj_pairs@[k as int]@,
                ));
            }
            k = k + 1;
        }
        assert(self.object_pairs().take(m as int) =~= self.object_pairs());
        out
    }

    /// Whether the listed raw names hold the symbol of the pair of the two
    /// coins.
    pub fn has_pair(&self, from_coin: &str, to_coin: &str) -> (r: bool)
        ensures
            r == self.listed().contains(symbol_of(pair_of(from_coin@, to_coin@))),
    {
        let symbol = Pair::from_str(from_coin, to_coin).symbol();
        contains_text(&self.pairs, symbol.as_str())
    }

    /// The names a coin may be listed under on Kraken.
    fn listing_names_of(&self, coin: &str) -> (r: Vec<String>)
        ensures
            texts(r@) == listing_names(self.expected_names(), coin@),
    {
        proof {
            lemma_first_value_lists(self.symbol_map_expected@, coin@);
        }
        match table_index(&self.symbol_map_expected, coin) {
            Some(i) => owned_strings(&self.symbol_map_expected[i].1),
            None => {
                let mut v: Vec<String> = Vec::new();
                v.push(String::from_str(coin));
                assert(texts(v@) =~= seq![coin@]);
                v
            },
        }
    }

    /// Starts the search for a ticker of the pair of the two coins (as
    /// `get_ticker_main` does): the coins are upper-cased, the known ticker
    /// name of the pair is tried alone if there is one, otherwise every
    /// combination of the names the coins may be listed under.
    pub fn ticker_search(&self, from_coin: &str, to_coin: &str) -> (r: TickerSearch)
        ensures
            r.candidates() == ticker_candidates(
                self.known_pairs(),
                self.expected_names(),
                upper(from_coin@),
                upper(to_coin@),
            ),
            r.is_known() == (first_value(
                self.known_pairs(),
                upper(from_coin@) + seq!['_'] + upper(to_coin@),
            ) is Some),
            r.position() == 0,
            r.label() == upper(from_coin@) + " / "@ + upper(to_coin@),
    {
        proof {
            reveal_strlit("_");
            assert("_"@ =~= seq!['_']);
        }
        let from_coin = to_upper(from_coin);
        let to_coin = to_upper(to_coin);
        let mut symx = from_coin.clone();
        symx.append("_");
        symx.append(to_coin.as_str());
        let mut label = from_coin.clone();
        label.append(" / ");
        label.append(to_coin.as_str());
        proof {
            lemma_first_value_views(self.known_pairs@, symx@);
        }
        match table_index(&self.known_pairs, symx.as_str()) {
            Some(i) => {
                let mut candidates: Vec<String> = Vec::new();
                candidates.push(String::from_str(self.known_pairs[i].1));
                assert(texts(candidates@) =~= seq![self.known_pairs@[i as int].1@]);
                TickerSearch { candidates, next: 0, known: true, label }
            },
            None => {
                let froms = self.listing_names_of(from_coin.as_str());
                let tos = self.listing_names_of(to_coin.as_str());
                let ghost fs = texts(froms@);
                let ghost ts = texts(tos@);
                let mut candidates: Vec<String> = Vec::new();
                let nf = froms.len();
                let nt = tos.len();
                let mut a: usize = 0;
                assert(fs.take(0) =~= Seq::<Seq<char>>::empty());
                while a < nf
                    invariant
                        nf == froms@.len(),
                        nt == tos@.len(),
                        fs == texts(froms@),
                        ts == texts(tos@),
                        a <= nf,
                        texts(candidates@) == ticker_names(fs.take(a as int), ts),
                    decreases nf - a,
                {
                    let ghost start = texts(candidates@);
                    let ghost head = fs[a as int];
                    let mut b: usize = 0;
                    assert(ts.take(0).map_values(|t: Seq<char>| head + t) =~= Seq::<Seq<char>>::empty());
                    while b < nt
                        invariant
                            nf == froms@.len(),
                            nt == tos@.len(),
                            a < nf,
                            fs == texts(froms@),
                            ts == texts(tos@),
                            head == fs[a as int],
                            b <= nt,
                            texts(candidates@) == start + ts.take(b as int).map_values(
                                |t: Seq<char>| head + t,
                            ),
                        decreases nt - b,
                    {
                        let mut name = froms[a].clone();
                        name.append(tos[b].as_str());
                        let ghost before = candidates@;
                        candidates.push(name);
                        assert(ts.take(b + 1) =~= ts.take(b as int).push(ts[b as int]));
                        assert(texts(candidates@) =~= texts(before).push(head + ts[b as int]));
                        assert(texts(candidates@) =~= start + ts.take(b + 1).map_values(
                            |t: Seq<char>| head + t,
                        ));
                        b = b + 1;
                    }
                    assert(ts.take(nt as int) =~= ts);
                    assert(fs.take(a + 1).drop_last() =~= fs.take(a as int));
                    assert(fs.take(a + 1).last() == head);
                    a = a + 1;
                }
                assert(fs.take(nf as int) =~= fs);
                TickerSearch { candidates, next: 0, known: false, label }
            },
        }
    }
}

/// The tables' first value for a key, by characters, for a table of lists.
proof fn lemma_first_value_lists<'b>(t: Seq<(&'b str, Vec<&'b str>)>, k: Seq<char>)
    ensures
        match first_value(t.map_values(|e: (&'b str, Vec<&'b str>)| (e.0@, e.1)), k) {
            Some(v) => first_value(str_lists(t), k) == Some(strs(v@)),
            None => first_value(str_lists(t), k) is None,
        },
    decreases t.len(),
{
    if t.len() > 0 {
        lemma_first_value_lists(t.drop_first(), k);
        assert(t.drop_first().map_values(|e: (&'b str, Vec<&'b str>)| (e.0@, e.1)) =~= t.map_values(
            |e: (&'b str, Vec<&'b str>)| (e.0@, e.1),
        ).drop_first());
        assert(str_lists(t.drop_first()) =~= str_lists(t).drop_first());
    }
}

/// What the search for a ticker needs done next.
pub enum TickerAction {
    /// Fetch the ticker of this Kraken pair name.
    Fetch(String),
    /// The quote was found.
    Found(KrakenTickerTick),
    /// The ticker reply does not hold the name asked for.
    MissingEntry(String),
    /// The search failed with this error.
    Failed(PairNotFound),
}

/// A search for a Kraken ticker that answers a pair: the names to try, in
/// order, and how far the search has come.
pub struct TickerSearch {
    candidates: Vec<String>,
    next: usize,
    known: bool,
    label: String,
}

impl TickerSearch {
    /// The ticker names to try, in order.
    pub closed spec fn candidates(&self) -> Seq<Seq<char>> {
        texts(self.candidates@)
    }

    /// The index of the name being tried.
    pub closed spec fn position(&self) -> nat {
        self.next as nat
    }

    /// Whether the only name is the pair's known ticker name, whose failure
    /// ends the search.
    pub closed spec fn is_known(&self) -> bool {
        self.known
    }

    /// The pair as named in the final error: `FROM / TO`.
    pub closed spec fn label(&self) -> Seq<char> {
        self.label@
    }

    /// The first step: fetch the first name, or fail when there is none.
    pub fn start(&self) -> (r: TickerAction)
        ensures
            self.position() < self.candidates().len() ==> (r matches TickerAction::Fetch(name) && name@
                == self.candidates()[self.position() as int]),
            self.position() >= self.candidates().len() ==> (r matches TickerAction::Failed(e)
                && e.message() == "The requested pair '"@ + self.label() + "' does not exist!"@),
    {
        if self.next < self.candidates.len() {
            TickerAction::Fetch(self.candidates[self.next].clone())
        } else {
            TickerAction::Failed(PairNotFound::new(self.label.as_str()))
        }
    }

    /// The step after the reply to the fetch of the current name: a reply
    /// yields the quote under that name (or reports it missing); a failure
    /// ends a search for the known name, and otherwise moves on to the next
    /// name, failing when none is left.
    pub fn on_reply(&mut self, reply: Result<KrakenTicker, PairNotFound>) -> (r: TickerAction)
        requires
            old(self).position() < old(self).candidates().len(),
        ensures
            final(self).candidates() == old(self).candidates(),
            final(self).is_known() == old(self).is_known(),
            final(self).label() == old(self).label(),
            match reply {
                Ok(ticker) => final(self).position() == old(self).position() && match lookup(
                    ticker.result.entries(),
                    old(self).candidates()[old(self).position() as int],
                ) {
                    Some(tick) => r == TickerAction::Found(tick),
                    None => r matches TickerAction::MissingEntry(name) && name@ == old(
                        self,
                    ).candidates()[old(self).position() as int],
                },
                Err(e) => if old(self).is_known() {
                    final(self).position() == old(self).position() && r == TickerAction::Failed(e)
                } else {
                    &&& final(self).position() == old(self).position() + 1
                    &&& final(self).position() < final(self).candidates().len() ==> (r matches TickerAction::Fetch(name)
                        && name@ == final(self).candidates()[final(self).position() as int])
                    &&& final(self).position() >= final(self).candidates().len() ==> (r matches TickerAction::Failed(e2)
                        && e2.message() == "The requested pair '"@ + final(self).label()
                        + "' does not exist!"@)
                },
            },
    {
        match reply {
            Ok(ticker) => {
                let name = self.candidates[self.next].clone();
                match ticker.result.into_value(name.as_str()) {
                    Some(tick) => TickerAction::Found(tick),
                    None => TickerAction::MissingEntry(name),
                }
            },
            Err(e) => {
                if self.known {
                    TickerAction::Failed(e)
                } else {
                    if self.next < self.candidates.len() {
                        self.next = self.next + 1;
                    }
                    self.start()
                }
            },
        }
    }
}

} // verus!
