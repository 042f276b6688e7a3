use svalue::amount::Amount;
use svalue::exchange::{AdapterLow, AdapterMeta, Pair};
use svalue::exchanges::kraken::{self, find_base, KrakenAdapter, KrakenCore, KrakenTicker, KrakenTickerTick, TickerAction};
use svalue::keyed::KeyedList;

fn names(v: &[&str]) -> Vec<String> {
    v.iter().map(|s| s.to_string()).collect()
}

fn tick(last: &str) -> KrakenTickerTick {
    KrakenTickerTick {
        ask: names(&["1.5", "1"]),
        bid: names(&["1.4", "1"]),
        last: names(&[last, "3"]),
        open: "1.1".to_string(),
        high: names(&["2.0", "2"]),
        low: names(&["0.9", "1"]),
        volume: names(&["100", "200"]),
    }
}

fn ticker(entries: &[(&str, KrakenTickerTick)], errors: &[&str]) -> KrakenTicker
where
    KrakenTickerTick: Sized,
{
    let mut result = KeyedList::new();
    for (k, t) in entries {
        result.insert(k.to_string(), KrakenTickerTick {
            ask: t.ask.clone(),
            bid: t.bid.clone(),
            last: t.last.clone(),
            open: t.open.clone(),
            high: t.high.clone(),
            low: t.low.clone(),
            volume: t.volume.clone(),
        });
    }
    KrakenTicker { error: names(errors), result }
}

#[test]
fn find_base_takes_first_suffix_in_order() {
    let bases = vec!["USD", "ZUSD", "EUR"];
    assert_eq!(find_base("xxbtzusd", bases.clone()), Some("USD".to_string()));
    assert_eq!(find_base("XXBTZEUR", bases.clone()), Some("EUR".to_string()));
    assert_eq!(find_base("XXBTZJPY", bases), None);
}

#[test]
fn find_base_with_kraken_order() {
    let bases = vec!["XXDG", "XDG", "XXBT", "XBT", "XLTC", "ZUSD", "ZEUR", "ZGBP", "ZJPY", "BTC", "ETH", "USDT", "USDC", "USD"];
    assert_eq!(find_base("XXBTZUSD", bases.clone()), Some("ZUSD".to_string()));
    assert_eq!(find_base("DOGEUSDT", bases), Some("USDT".to_string()));
}

#[test]
fn load_pairs_reads_symbols_and_caches_them() {
    let mut k = KrakenAdapter::new();
    let held = k.merge_listed_pairs(names(&["XXBTZUSD", "XETHZEUR", "FOO", "XXBTZUSD", "XDGXXBT"]));
    assert_eq!(held, names(&["XXBTZUSD", "XETHZEUR", "FOO", "XDGXXBT"]));
    let provided = k.load_pairs(false);
    assert_eq!(provided, names(&["BTC_USD", "XETH_EUR", "DOGE_BTC"]));
    k.merge_listed_pairs(names(&["XLTCZGBP"]));
    assert_eq!(k.load_pairs(false), names(&["BTC_USD", "XETH_EUR", "DOGE_BTC"]));
    assert_eq!(k.load_pairs(true), names(&["BTC_USD", "XETH_EUR", "DOGE_BTC", "LTC_GBP"]));
}

#[test]
fn merge_keeps_held_names_first() {
    let mut k = kraken::new();
    k.merge_listed_pairs(names(&["B", "A"]));
    assert_eq!(k.merge_listed_pairs(names(&["C", "A", "C"])), names(&["B", "A", "C"]));
}

#[test]
fn get_pairs_builds_pairs_once() {
    let mut k: KrakenCore = KrakenAdapter::new();
    assert!(k.needs_pairs());
    k.merge_listed_pairs(names(&["XXBTZUSD", "XLTCXXBT"]));
    let pairs = k.get_pairs();
    let got: Vec<(String, String)> = pairs.into_iter().map(|p| (p.from_coin, p.to_coin)).collect();
    assert_eq!(got, vec![("BTC".to_string(), "USD".to_string()), ("LTC".to_string(), "BTC".to_string())]);
    assert!(!k.needs_pairs());
    k.merge_listed_pairs(names(&["XETHZEUR"]));
    assert_eq!(k.get_pairs().len(), 2);
}

#[test]
fn kraken_has_pair_checks_raw_names() {
    let mut k = KrakenAdapter::new();
    k.merge_listed_pairs(names(&["XXBTZUSD", "BTC_USD"]));
    assert!(k.has_pair("btc", "usd"));
    assert!(!k.has_pair("eth", "usd"));
}

#[test]
fn meta_and_uri() {
    let k = KrakenAdapter::new();
    assert_eq!(k.name(), "Kraken");
    assert_eq!(k.code(), "kraken");
    assert_eq!(k.build_uri("/Ticker", ""), "https://api.kraken.com/0/public/Ticker");
    assert_eq!(kraken::ticker_url("XXBTZUSD"), "https://api.kraken.com/0/public/Ticker?pair=XXBTZUSD");
}

#[test]
fn known_pair_search_tries_its_name_only() {
    let k = KrakenAdapter::new();
    let mut s = k.ticker_search("btc", "usd");
    match s.start() {
        TickerAction::Fetch(n) => assert_eq!(n, "XXBTZUSD"),
        _ => panic!("expected a fetch"),
    }
    match s.on_reply(Err(svalue::exchange::PairNotFound::new("XXBTZUSD"))) {
        TickerAction::Failed(e) => assert_eq!(e.to_string(), "PairNotFound: The requested pair 'XXBTZUSD' does not exist!"),
        _ => panic!("expected the failure to end the search"),
    }
}

#[test]
fn unknown_pair_search_tries_every_combination() {
    let k = KrakenAdapter::new();
    let mut s = k.ticker_search("doge", "btc");
    let mut tried = Vec::new();
    let mut action = s.start();
    loop {
        match action {
            TickerAction::Fetch(n) => {
                tried.push(n);
                action = s.on_reply(Err(svalue::exchange::PairNotFound::new("x")));
            }
            TickerAction::Failed(e) => {
                assert_eq!(e.to_string(), "PairNotFound: The requested pair 'DOGE / BTC' does not exist!");
                break;
            }
            _ => panic!("unexpected step"),
        }
    }
    assert_eq!(tried, names(&["XDGXXBT", "XDGXBT", "XXDGXXBT", "XXDGXBT"]));
}

#[test]
fn search_finds_quote_under_the_name_asked() {
    let k = KrakenAdapter::new();
    let mut s = k.ticker_search("eos", "eth");
    match s.start() {
        TickerAction::Fetch(n) => assert_eq!(n, "EOSXETH"),
        _ => panic!("expected a fetch"),
    }
    match s.on_reply(Err(svalue::exchange::PairNotFound::new("EOSXETH"))) {
        TickerAction::Fetch(n) => assert_eq!(n, "EOSETH"),
        _ => panic!("expected the next name"),
    }
    match s.on_reply(Ok(ticker(&[("EOSETH", tick("7.25"))], &[]))) {
        TickerAction::Found(t) => assert_eq!(t.last[0], "7.25"),
        _ => panic!("expected the quote"),
    }
}

#[test]
fn search_reports_missing_entry() {
    let k = KrakenAdapter::new();
    let mut s = k.ticker_search("ltc", "usd");
    let _ = s.start();
    match s.on_reply(Ok(ticker(&[("OTHER", tick("1"))], &[]))) {
        TickerAction::MissingEntry(n) => assert_eq!(n, "XLTCZUSD"),
        _ => panic!("expected a missing entry"),
    }
}

#[test]
fn ticker_errors_are_refusals() {
    let t = ticker(&[], &["EQuery:Unknown asset pair"]);
    match t.checked("FOO") {
        Err(e) => assert_eq!(e.to_string(), "PairNotFound: The requested pair 'FOO' does not exist!"),
        Ok(_) => panic!("expected a refusal"),
    }
    assert!(ticker(&[], &[]).checked("FOO").is_ok());
}

#[test]
fn rate_from_tick() {
    let t = tick("1.45");
    assert_eq!(t.close(), "1.45");
    let r = t.try_rate("btc", "usd").unwrap();
    assert_eq!(r.last, Amount { mantissa: 145, scale: 2 });
    assert_eq!(r.close, Amount { mantissa: 145, scale: 2 });
    assert_eq!(r.ask, Amount { mantissa: 15, scale: 1 });
    assert_eq!(r.open, Amount { mantissa: 11, scale: 1 });
    assert_eq!(r.volume, Amount { mantissa: 100, scale: 0 });
    assert_eq!((r.pair.from_coin.as_str(), r.pair.to_coin.as_str()), ("BTC", "USD"));
    assert!(tick("n/a").try_rate("btc", "usd").is_none());
    let mut empty = tick("1");
    empty.high = Vec::new();
    assert!(empty.try_rate("btc", "usd").is_none());
    let _ = Pair::from_str("a", "b");
}

#[test]
fn kraken_clone_keeps_tables_and_listing() {
    let mut k = KrakenAdapter::new();
    k.merge_listed_pairs(names(&["XXBTZUSD"]));
    let mut c = k.clone();
    assert_eq!(c.load_pairs(false), names(&["BTC_USD"]));
    let t = tick("2").clone();
    assert_eq!(t.last, names(&["2", "3"]));
}
