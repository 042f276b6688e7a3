use svalue::adapter_core::build_uri;
use svalue::amount::Amount;
use svalue::exchange::{Pair, PairNotFound};
use svalue::keyed::KeyedList;
use svalue::text::{ends_with, find, same_text, split_first, to_lower, to_upper, trim_end_slashes, trim_start_slashes};

#[test]
fn upper_and_lower_touch_only_ascii_letters() {
    assert_eq!(to_upper("doge-1_ü"), "DOGE-1_ü");
    assert_eq!(to_lower("XXBT_Zusd"), "xxbt_zusd");
}

#[test]
fn search_helpers() {
    assert_eq!(find("XXBTZUSD", "ZUSD"), Some(4));
    assert_eq!(find("abcabc", "bc"), Some(1));
    assert_eq!(find("abc", "x"), None);
    assert_eq!(find("abc", ""), Some(0));
    assert!(ends_with("XXBTZUSD", "USD"));
    assert!(!ends_with("USD", "ZUSD"));
    assert!(same_text("a/b", "a/b"));
    assert!(!same_text("a/b", "a/c"));
    assert_eq!(split_first("btc_usd_x", "_"), "btc");
    assert_eq!(split_first("btcusd", "_"), "btcusd");
    assert_eq!(split_first("abc", ""), "");
}

#[test]
fn slash_trimming() {
    assert_eq!(trim_start_slashes("///a/b/"), "a/b/");
    assert_eq!(trim_end_slashes("/a/b///"), "/a/b");
    assert_eq!(trim_start_slashes("///"), "");
}

#[test]
fn build_uri_joins_with_single_slashes() {
    assert_eq!(build_uri("https://api.bittrex.com/v3/markets", "/", ""), "https://api.bittrex.com/v3/markets/");
    assert_eq!(build_uri("https://x.com/", "/markets", ""), "https://x.com/markets");
    assert_eq!(build_uri("https://x.com//", "//markets", "ticker"), "https://x.com/markets/ticker");
    assert_eq!(build_uri("https://x.com", "markets", "//ticker"), "https://x.com/markets/ticker");
    assert_eq!(build_uri("https://x.com", "markets", "/"), "https://x.com/markets/");
}

#[test]
fn build_uri_ignores_join_slashes_law() {
    let bare = build_uri("https://x.com", "m", "e");
    let slashed = build_uri("https://x.com/", "/m", "e");
    assert_eq!(bare, slashed);
    assert_eq!(build_uri("https://x.com", "m", "/e"), build_uri("https://x.com", "m", "e"));
}

#[test]
fn pair_from_str_upper_cases() {
    let p = Pair::from_str("doge", "btc");
    assert_eq!(p.from_coin, "DOGE");
    assert_eq!(p.to_coin, "BTC");
    assert_eq!(p.symbol(), "DOGE_BTC");
}

#[test]
fn pair_symbol_upper_cases_raw_fields() {
    let p = Pair { from_coin: "eth".to_string(), to_coin: "Eur".to_string() };
    assert_eq!(p.symbol(), "ETH_EUR");
}

#[test]
fn pair_from_symbol_cuts_at_underscores() {
    let p = Pair::from_symbol("btc_usd");
    assert_eq!((p.from_coin.as_str(), p.to_coin.as_str()), ("BTC", "USD"));
    let q = Pair::from_symbol("a_b_c");
    assert_eq!((q.from_coin.as_str(), q.to_coin.as_str()), ("A", "B"));
    let r = Pair::from_symbol("_x");
    assert_eq!((r.from_coin.as_str(), r.to_coin.as_str()), ("", "X"));
}

#[test]
fn pair_symbol_round_trip_law() {
    let p = Pair::from_str("ltc", "usdt");
    let back = Pair::from_symbol(&p.symbol());
    assert_eq!((back.from_coin, back.to_coin), (p.from_coin, p.to_coin));
}

#[test]
fn pair_not_found_messages() {
    let mut e = PairNotFound::new("BTC_XYZ");
    assert_eq!(e.to_string(), "PairNotFound: The requested pair 'BTC_XYZ' does not exist!");
    e.change_message("gone");
    assert_eq!(e.to_string(), "PairNotFound: gone");
}

#[test]
fn amounts_come_from_rust_decimal() {
    assert_eq!(Amount::parse("1.50"), Some(Amount { mantissa: 150, scale: 2 }));
    assert_eq!(Amount::parse("-0.001"), Some(Amount { mantissa: -1, scale: 3 }));
    assert_eq!(Amount::parse("abc"), None);
    assert_eq!(Amount::new(0, 8), Amount { mantissa: 0, scale: 8 });
    assert_eq!(Amount::new(-3141, 3), Amount { mantissa: -3141, scale: 3 });
}

#[test]
fn keyed_list_overwrites_in_place() {
    let mut m: KeyedList<u32> = KeyedList::new();
    m.insert("a".to_string(), 1);
    m.insert("b".to_string(), 2);
    m.insert("a".to_string(), 3);
    assert_eq!(m.len(), 2);
    assert_eq!(m.get("a"), Some(&3));
    assert_eq!(m.key_at(0), "a");
    assert_eq!(m.get("c"), None);
    assert!(m.contains_key("b"));
    assert_eq!(m.index_of("b"), Some(1));
    assert_eq!(m.into_value("b"), Some(2));
}
