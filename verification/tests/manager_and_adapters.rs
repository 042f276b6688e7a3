use svalue::amount::Amount;
use svalue::exchange::{AdapterLow, AdapterMeta, ExchangeRate, Pair};
use svalue::exchanges::bittrex::{self, BittrexAdapter, BittrexPair};
use svalue::exchanges::huobi::{self, ticker_url, HuobiAdapter, HuobiPair, HuobiResult};
use svalue::exchanges::manager::{ExchangeManager, RateAction};

fn rate(from: &str, to: &str, last: i128) -> ExchangeRate {
    let a = Amount { mantissa: last, scale: 0 };
    ExchangeRate { last: a, bid: a, ask: a, low: a, high: a, volume: a, open: a, close: a, pair: Pair::from_str(from, to) }
}

#[test]
fn add_exchange_pair_lists_and_is_idempotent() {
    let mut m = ExchangeManager::new();
    assert!(!m.has_pair("btc", "usd"));
    assert!(m.add_exchange_pair("huobi", "BTC_USD".to_string()));
    assert!(m.has_pair("btc", "usd"));
    assert!(m.has_pair("BTC", "Usd"));
    assert!(m.add_exchange_pair("huobi", "BTC_USD".to_string()));
    assert_eq!(m.exchange_count(), 1);
    assert_eq!(m.code_at(0), "huobi");
    m.add_exchange_pair("kraken", "BTC_USD".to_string());
    assert_eq!(m.exchange_count(), 2);
}

#[test]
fn register_lists_every_pair() {
    let mut m = ExchangeManager::new();
    let pairs = vec![Pair::from_str("doge", "btc"), Pair { from_coin: "ltc".to_string(), to_coin: "usdt".to_string() }];
    assert!(m.register("huobi", &pairs));
    assert!(m.has_pair("doge", "btc"));
    assert!(m.has_pair("ltc", "usdt"));
    assert!(!m.has_pair("btc", "doge"));
    assert!(m.register("kraken", &Vec::new()));
    assert_eq!(m.exchange_count(), 1);
}

#[test]
fn get_exchange_compares_lower_with_upper() {
    let mut m = ExchangeManager::new();
    m.add_exchange_pair("kraken", "BTC_USD".to_string());
    m.add_exchange_pair("42", "BTC_USD".to_string());
    assert_eq!(m.get_exchange("kraken".to_string()), None);
    assert_eq!(m.get_exchange("KRAKEN".to_string()), None);
    assert_eq!(m.get_exchange("42".to_string()), Some(1));
}

#[test]
fn unlisted_pair_is_refused() {
    let m = ExchangeManager::new();
    let q = m.rate_query("btc", "usd");
    assert!(matches!(q.next_action(&m), RateAction::Finished));
    match q.finish() {
        Err(e) => assert_eq!(e.to_string(), "PairNotFound: The requested pair 'BTC_USD' does not exist!"),
        Ok(_) => panic!("expected a refusal"),
    }
}

#[test]
fn listed_exchange_not_found_by_lookup() {
    let mut m = ExchangeManager::new();
    m.add_exchange_pair("huobi", "BTC_USD".to_string());
    let q = m.rate_query("btc", "usd");
    match q.next_action(&m) {
        RateAction::Unregistered(code) => assert_eq!(code, "huobi"),
        _ => panic!("expected the lookup to fail"),
    }
}

#[test]
fn rate_query_gathers_rates_by_code() {
    let mut m = ExchangeManager::new();
    m.add_exchange_pair("7", "BTC_USD".to_string());
    m.add_exchange_pair("9", "BTC_USD".to_string());
    let mut q = m.rate_query("btc", "usd");
    match q.next_action(&m) {
        RateAction::Ask { index, code, from_coin, to_coin } => {
            assert_eq!((index, code.as_str(), from_coin.as_str(), to_coin.as_str()), (0, "7", "BTC", "USD"));
            q.record(&code, Some(rate("btc", "usd", 5)));
        }
        _ => panic!("expected a request"),
    }
    match q.next_action(&m) {
        RateAction::Ask { index, code, .. } => {
            assert_eq!(index, 1);
            q.record(&code, None);
        }
        _ => panic!("expected a request"),
    }
    assert!(matches!(q.next_action(&m), RateAction::Finished));
    let rates = q.finish().ok().unwrap();
    assert_eq!(rates.len(), 1);
    assert_eq!(rates.get("7").unwrap().last, Amount { mantissa: 5, scale: 0 });
}

#[test]
fn rate_query_with_only_failures_is_refused() {
    let mut m = ExchangeManager::new();
    m.add_exchange_pair("7", "ETH_BTC".to_string());
    let mut q = m.rate_query("eth", "btc");
    if let RateAction::Ask { code, .. } = q.next_action(&m) {
        q.record(&code, None);
    } else {
        panic!("expected a request");
    }
    assert!(q.finish().is_err());
}

fn huobi_pair(base: &str, quote: &str) -> HuobiPair {
    HuobiPair {
        base_currency: base.to_string(),
        quote_currency: quote.to_string(),
        symbol: format!("{}{}", base, quote),
        state: "online".to_string(),
        symbol_partition: "main".to_string(),
    }
}

#[test]
fn huobi_listing_is_indexed() {
    let mut h = HuobiAdapter::new();
    assert!(h.needs_pairs());
    let result = HuobiResult { status: "ok".to_string(), data: vec![huobi_pair("btc", "usdt"), huobi_pair("eth", "btc")] };
    let pairs = h.get_pairs(result.data);
    assert_eq!(pairs.len(), 2);
    assert_eq!((pairs[0].from_coin.as_str(), pairs[0].to_coin.as_str()), ("btc", "usdt"));
    assert!(!h.needs_pairs());
    assert!(h.has_pair("btc", "usdt"));
    assert!(!h.has_pair("BTC", "USDT"));
    let again = h.get_pairs(vec![huobi_pair("xrp", "btc")]);
    assert_eq!(again.len(), 1);
    assert!(h.has_pair("eth", "btc"));
    assert!(h.has_pair("xrp", "btc"));
    assert_eq!(h.pair_map.len(), 3);
}

#[test]
fn huobi_meta_and_urls() {
    let h = huobi::new();
    assert_eq!((h.name(), h.code()), ("Huobi", "huobi"));
    assert_eq!(ticker_url("LTC", "Usdt"), "https://api.huobi.pro/market/detail/merged?symbol=ltcusdt");
    assert_eq!(h.build_uri("v1/common/symbols", ""), "https://api.huobi.pro/v1/common/symbols");
}

fn bittrex_pair(base: &str, quote: &str) -> BittrexPair {
    BittrexPair {
        associatedTermsOfService: Vec::new(),
        baseCurrencySymbol: base.to_string(),
        createdAt: "2020-01-01".to_string(),
        minTradeSize: "0.1".to_string(),
        precision: 8,
        prohibitedIn: Vec::new(),
        quoteCurrencySymbol: quote.to_string(),
        status: "ONLINE".to_string(),
        symbol: format!("{}-{}", base, quote),
        tags: Vec::new(),
    }
}

#[test]
fn bittrex_listing_uri_and_rate() {
    let mut b = bittrex::new();
    assert_eq!((b.name(), b.code()), ("Bittrex", "bittrex"));
    b.get_pairs(vec![bittrex_pair("BTC", "USD")]);
    assert!(b.has_pair("BTC", "USD"));
    assert_eq!(b.ticker_uri("btc", "usd"), "https://api.bittrex.com/v3/markets/BTC-USD/ticker");
    let r = BittrexAdapter::try_rate_from_ticker("btc", "usd", "100.5", "100", "101").unwrap();
    assert_eq!(r.last, Amount { mantissa: 1005, scale: 1 });
    assert_eq!(r.high, Amount { mantissa: 0, scale: 8 });
    assert_eq!(r.pair.symbol(), "BTC_USD");
    assert!(BittrexAdapter::try_rate_from_ticker("btc", "usd", "x", "100", "101").is_none());
    let _ = BittrexAdapter::new();
}

#[test]
fn adapters_clone_their_listings() {
    let mut h = HuobiAdapter::new();
    h.get_pairs(vec![huobi_pair("btc", "usdt")]);
    let c = h.clone();
    assert!(c.has_pair("btc", "usdt"));
    assert_eq!(c.pairs.len(), 1);
    assert_eq!(c.market_api, "https://api.huobi.pro");
}

#[test]
fn bittrex_rate_fills_missing_fields_with_zero() {
    let r = BittrexAdapter::try_rate_from_ticker("eth", "btc", "0.05", "0.049", "0.051").unwrap();
    let zero = Amount { mantissa: 0, scale: 8 };
    assert_eq!((r.volume, r.open, r.close, r.low), (zero, zero, zero, zero));
}
