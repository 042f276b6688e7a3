//! The exchange manager: which exchanges are registered, which pairs each of
//! them lists, and the routing of a rate request to every exchange that
//! lists the pair.
use vstd::prelude::*;
use crate::exchange::{Pair, PairNotFound, ExchangeRate, pair_of, symbol_of};
use crate::keyed::{KeyedList, has_key, key_index, value_for, insert_entry, keys_unique, lemma_key_index_unique};
use crate::text::{texts, lower, upper, lower_char, upper_char, to_lower, to_upper, same_text, contains_text, lemma_upper_idempotent, lemma_upper_concat};

verus! {

/// The rates gathered for one pair, keyed by the code of the exchange that
/// gave each.
pub type ExchangeRateMap = KeyedList<ExchangeRate>;

/// The codes after registering `code`: unchanged if it is there already,
/// otherwise with `code` at the end.
pub open spec fn add_code(codes: Seq<Seq<char>>, code: Seq<char>) -> Seq<Seq<char>> {
    if codes.contains(code) {
        codes
    } else {
        codes.push(code)
    }
}

/// The listings with an entry for `pair`, added empty at the end if missing.
pub open spec fn with_pair(
    s: Seq<(Seq<char>, Seq<Seq<char>>)>,
    pair: Seq<char>,
) -> Seq<(Seq<char>, Seq<Seq<char>>)> {
    if has_key(s, pair) {
        s
    } else {
        s.push((pair, Seq::<Seq<char>>::empty()))
    }
}

/// The listings after recording that exchange `code` lists `pair`: the code
/// goes at the end of the pair's list unless it is on it already.
pub open spec fn add_listing(
    s: Seq<(Seq<char>, Seq<Seq<char>>)>,
    pair: Seq<char>,
    code: Seq<char>,
) -> Seq<(Seq<char>, Seq<Seq<char>>)> {
    let s1 = with_pair(s, pair);
    let i = key_index(s1, pair);
    if s1[i].1.contains(code) {
        s1
    } else {
        s1.update(i, (pair, s1[i].1.push(code)))
    }
}

/// The listings after recording that exchange `code` lists each symbol of
/// `symbols`, in order.
pub open spec fn register_listings(
    s: Seq<(Seq<char>, Seq<Seq<char>>)>,
    code: Seq<char>,
    symbols: Seq<Seq<char>>,
) -> Seq<(Seq<char>, Seq<Seq<char>>)>
    decreases symbols.len(),
{
    if symbols.len() == 0 {
        s
    } else {
        add_listing(register_listings(s, code, symbols.drop_last()), symbols.last(), code)
    }
}

/// Each pair appears once and no exchange twice in a pair's list.
pub open spec fn listings_valid(s: Seq<(Seq<char>, Seq<Seq<char>>)>) -> bool {
    &&& keys_unique(s)
    &&& forall|i: int| 0 <= i < s.len() ==> (#[trigger] s[i]).1.no_duplicates()
}

/// The symbols of a list of pairs.
pub open spec fn symbols_of(pairs: Seq<(Seq<char>, Seq<char>)>) -> Seq<Seq<char>> {
    pairs.map_values(|p: (Seq<char>, Seq<char>)| symbol_of(p))
}

/// How the manager looks an exchange up by code: the stored code in lower
/// case must equal the requested code in upper case.
pub open spec fn code_matches(stored: Seq<char>, requested: Seq<char>) -> bool {
    lower(stored) == upper(requested)
}

/// An ASCII letter.
pub open spec fn is_ascii_letter(c: char) -> bool {
    ('a' <= c && c <= 'z') || ('A' <= c && c <= 'Z')
}

/// The lookup by code compares a lower-case form with an upper-case one, so
/// it finds a registered exchange only when the exchange's code holds no
/// ASCII letter.
pub proof fn law_lookup_needs_letterless_code(stored: Seq<char>, requested: Seq<char>)
    requires
        code_matches(stored, requested),
    ensures
        forall|j: int| 0 <= j < stored.len() ==> !is_ascii_letter(#[trigger] stored[j]),
{
    assert forall|j: int| 0 <= j < stored.len() implies !is_ascii_letter(#[trigger] stored[j]) by {
        assert(lower(stored).len() == stored.len());
        assert(upper(requested).len() == requested.len());
        let c = stored[j];
        let d = requested[j];
        assert(lower(stored)[j] == lower_char(c));
        assert(upper(requested)[j] == upper_char(d));
        if is_ascii_letter(c) {
            assert('a' <= lower_char(c) && lower_char(c) <= 'z');
            assert(!('a' <= upper_char(d) && upper_char(d) <= 'z'));
        }
    }
}

/// `i` is the first registered exchange that a lookup of `requested` finds.
pub open spec fn first_match(codes: Seq<Seq<char>>, requested: Seq<char>, i: int) -> bool {
    &&& 0 <= i < codes.len()
    &&& code_matches(codes[i], requested)
    &&& forall|j: int| 0 <= j < i ==> !code_matches(codes[j], requested)
}

/// No registered exchange is found by a lookup of `requested`.
pub open spec fn no_match(codes: Seq<Seq<char>>, requested: Seq<char>) -> bool {
    forall|j: int| 0 <= j < codes.len() ==> !code_matches(codes[j], requested)
}

/// Recording a listing keeps the listings valid, lists `code` for `pair`,
/// keeps every exchange already listed for `pair`, and leaves every other
/// pair as it was.
pub proof fn law_add_listing(s: Seq<(Seq<char>, Seq<Seq<char>>)>, pair: Seq<char>, code: Seq<char>)
    requires
        listings_valid(s),
    ensures
        listings_valid(add_listing(s, pair, code)),
        has_key(add_listing(s, pair, code), pair),
        value_for(add_listing(s, pair, code), pair).contains(code),
        has_key(s, pair) ==> forall|c: Seq<char>|
            value_for(s, pair).contains(c) ==> value_for(add_listing(s, pair, code), pair).contains(c),
        forall|k: Seq<char>|
            k != pair ==> (has_key(add_listing(s, pair, code), k) == has_key(s, k) && (has_key(s, k)
                ==> value_for(add_listing(s, pair, code), k) == value_for(s, k))),
        add_listing(s, pair, code).len() == with_pair(s, pair).len(),
{
    let s1 = with_pair(s, pair);
    let t = add_listing(s, pair, code);
    if !has_key(s, pair) {
        assert forall|a: int, b: int| 0 <= a < b < s1.len() implies #[trigger] s1[a].0
            != #[trigger] s1[b].0 by {
            if b == s.len() {
                assert(s[a].0 == s1[a].0);
            } else {
                assert(s[a].0 != s[b].0);
            }
        }
        assert(s1[s.len() as int].0 == pair);
    }
    assert(keys_unique(s1));
    assert(has_key(s1, pair));
    let i = key_index(s1, pair);
    lemma_key_index_unique(s1, i);
    assert(forall|j: int| 0 <= j < s1.len() ==> (#[trigger] s1[j]).1.no_duplicates()) by {
        assert forall|j: int| 0 <= j < s1.len() implies (#[trigger] s1[j]).1.no_duplicates() by {
            if j < s.len() {
                assert(s1[j] == s[j]);
            } else {
                assert(s1[j].1 =~= Seq::<Seq<char>>::empty());
            }
        }
    }
    assert(forall|a: int, b: int| 0 <= a < b < t.len() ==> #[trigger] t[a].0 != #[trigger] t[b].0) by {
        assert forall|a: int, b: int| 0 <= a < b < t.len() implies #[trigger] t[a].0
            != #[trigger] t[b].0 by {
            assert(s1[a].0 != s1[b].0);
        }
    }
    assert forall|j: int| 0 <= j < t.len() implies (#[trigger] t[j]).1.no_duplicates() by {
        if j == i && !s1[i].1.contains(code) {
            let v = s1[i].1.push(code);
            assert forall|a: int, b: int| 0 <= a < v.len() && 0 <= b < v.len() && a != b implies v[a]
                != v[b] by {
                if a < s1[i].1.len() && b < s1[i].1.len() {
                    assert(s1[i].1[a] != s1[i].1[b]);
                } else if a < s1[i].1.len() {
                    assert(s1[i].1[a] == v[a]);
                } else {
                    assert(s1[i].1[b] == v[b]);
                }
            }
        } else {
            assert(s1[j].1.no_duplicates());
        }
    }
    lemma_key_index_unique(t, i);
    if s1[i].1.contains(code) {
    } else {
        assert(t[i].1[s1[i].1.len() as int] == code);
    }
    if has_key(s, pair) {
        assert forall|c: Seq<char>| value_for(s, pair).contains(c) implies value_for(t, pair).contains(
            c,
        ) by {
            let w = choose|w: int| 0 <= w < value_for(s, pair).len() && value_for(s, pair)[w] == c;
            assert(value_for(t, pair)[w] == c);
        }
    }
    assert forall|k: Seq<char>| k != pair implies (has_key(t, k) == has_key(s, k) && (has_key(s, k)
        ==> value_for(t, k) == value_for(s, k))) by {
        if has_key(s, k) {
            let j = key_index(s, k);
            lemma_key_index_unique(s, j);
            assert(s1[j] == s[j]);
            assert(t[j] == s[j]);
            lemma_key_index_unique(t, j);
        }
        if has_key(t, k) {
            let j = key_index(t, k);
            assert(t[j].0 == k);
            if j < s.len() {
                assert(s[j].0 == k);
            }
        }
    }
}

/// Recording that exchange `code` lists `pair` leaves the pair's list as it
/// was (empty for a pair not listed yet) with `code` appended when it is
/// not on it: every exchange listed for the pair afterwards is `code` or
/// was listed for it before.
pub proof fn law_add_listing_list(s: Seq<(Seq<char>, Seq<Seq<char>>)>, pair: Seq<char>, code: Seq<char>)
    requires
        listings_valid(s),
    ensures
        !has_key(s, pair) ==> value_for(add_listing(s, pair, code), pair) == seq![code],
        has_key(s, pair) && value_for(s, pair).contains(code) ==> value_for(add_listing(s, pair, code), pair)
            == value_for(s, pair),
        has_key(s, pair) && !value_for(s, pair).contains(code) ==> value_for(add_listing(s, pair, code), pair)
            == value_for(s, pair).push(code),
        forall|c: Seq<char>|
            #[trigger] value_for(add_listing(s, pair, code), pair).contains(c) ==> c == code || (has_key(
                s,
                pair,
            ) && value_for(s, pair).contains(c)),
{
    law_add_listing(s, pair, code);
    let s1 = with_pair(s, pair);
    let t = add_listing(s, pair, code);
    let i = key_index(s1, pair);
    if !has_key(s, pair) {
        assert forall|a: int, b: int| 0 <= a < b < s1.len() implies #[trigger] s1[a].0
            != #[trigger] s1[b].0 by {
            if b == s.len() {
                assert(s[a].0 == s1[a].0);
            } else {
                assert(s[a].0 != s[b].0);
            }
        }
        assert(s1[s.len() as int].0 == pair);
        lemma_key_index_unique(s1, s.len() as int);
        assert(i == s.len());
        assert(s1[i].1 =~= Seq::<Seq<char>>::empty());
        assert(!s1[i].1.contains(code));
        lemma_key_index_unique(t, i);
        assert(value_for(t, pair) =~= seq![code]);
    } else {
        assert(s1 == s);
        lemma_key_index_unique(t, i);
    }
    assert forall|c: Seq<char>| #[trigger] value_for(t, pair).contains(c) implies c == code || (has_key(
        s,
        pair,
    ) && value_for(s, pair).contains(c)) by {
        let w = choose|w: int| 0 <= w < value_for(t, pair).len() && value_for(t, pair)[w] == c;
        if has_key(s, pair) && w < value_for(s, pair).len() {
            assert(value_for(s, pair)[w] == c);
        }
    }
}

/// Recording the same listing twice is recording it once.
pub proof fn law_add_listing_idempotent(s: Seq<(Seq<char>, Seq<Seq<char>>)>, pair: Seq<char>, code: Seq<char>)
    requires
        listings_valid(s),
    ensures
        add_listing(add_listing(s, pair, code), pair, code) == add_listing(s, pair, code),
{
    law_add_listing(s, pair, code);
    let t = add_listing(s, pair, code);
    assert(with_pair(t, pair) == t);
    let i = key_index(t, pair);
    assert(t[i].1.contains(code));
}

/// Registering an exchange's code twice is registering it once.
pub proof fn law_add_code_idempotent(codes: Seq<Seq<char>>, code: Seq<char>)
    ensures
        add_code(add_code(codes, code), code) == add_code(codes, code),
{
    if !codes.contains(code) {
        assert(codes.push(code)[codes.len() as int] == code);
    }
}

/// After an exchange registers a list of symbols, every one of them is
/// listed with that exchange, the listings stay valid, and every pair listed
/// before is still listed with the exchanges it had.
pub proof fn law_register_lists_every_symbol(
    s: Seq<(Seq<char>, Seq<Seq<char>>)>,
    code: Seq<char>,
    symbols: Seq<Seq<char>>,
)
    requires
        listings_valid(s),
    ensures
        listings_valid(register_listings(s, code, symbols)),
        forall|j: int|
            0 <= j < symbols.len() ==> has_key(register_listings(s, code, symbols), #[trigger] symbols[j])
                && value_for(register_listings(s, code, symbols), symbols[j]).contains(code),
        forall|k: Seq<char>, c: Seq<char>|
            has_key(s, k) && value_for(s, k).contains(c) ==> has_key(register_listings(s, code, symbols), k)
                && value_for(register_listings(s, code, symbols), k).contains(c),
    decreases symbols.len(),
{
    if symbols.len() > 0 {
        let prev = symbols.drop_last();
        law_register_lists_every_symbol(s, code, prev);
        let r0 = register_listings(s, code, prev);
        let last = symbols.last();
        law_add_listing(r0, last, code);
        let r = register_listings(s, code, symbols);
        assert(r == add_listing(r0, last, code));
        assert forall|j: int| 0 <= j < symbols.len() implies has_key(r, #[trigger] symbols[j])
            && value_for(r, symbols[j]).contains(code) by {
            if j < symbols.len() - 1 {
                assert(symbols[j] == prev[j]);
            }
        }
    }
}

/// The symbol that `has_pair` looks up does not depend on the case of the
/// coins.
pub proof fn law_symbol_ignores_case(from_coin: Seq<char>, to_coin: Seq<char>)
    ensures
        symbol_of(pair_of(from_coin, to_coin)) == symbol_of(pair_of(upper(from_coin), upper(to_coin))),
{
    lemma_upper_idempotent(from_coin);
    lemma_upper_idempotent(to_coin);
}

/// The symbol of any pair is the symbol `has_pair` looks up for its two coins.
pub proof fn lemma_symbol_of_coins(p: (Seq<char>, Seq<char>))
    ensures
        symbol_of(p) == symbol_of(pair_of(p.0, p.1)),
{
    lemma_upper_concat(p.0 + seq!['_'], p.1);
    lemma_upper_concat(p.0, seq!['_']);
    lemma_upper_concat(upper(p.0) + seq!['_'], upper(p.1));
    lemma_upper_concat(upper(p.0), seq!['_']);
    lemma_upper_idempotent(p.0);
    lemma_upper_idempotent(p.1);
    assert(upper(seq!['_']) =~= seq!['_']);
}

/// After an exchange registers a list of pairs, asking for any of those
/// pairs by its two coins finds it listed with that exchange.
pub proof fn law_registered_pairs_are_listed(
    s: Seq<(Seq<char>, Seq<Seq<char>>)>,
    code: Seq<char>,
    pairs: Seq<(Seq<char>, Seq<char>)>,
)
    requires
        listings_valid(s),
    ensures
        forall|j: int|
            0 <= j < pairs.len() ==> has_key(
                register_listings(s, code, symbols_of(pairs)),
                symbol_of(pair_of((#[trigger] pairs[j]).0, pairs[j].1)),
            ) && value_for(
                register_listings(s, code, symbols_of(pairs)),
                symbol_of(pair_of(pairs[j].0, pairs[j].1)),
            ).contains(code),
{
    law_register_lists_every_symbol(s, code, symbols_of(pairs));
    assert forall|j: int| 0 <= j < pairs.len() implies has_key(
        register_listings(s, code, symbols_of(pairs)),
        symbol_of(pair_of((#[trigger] pairs[j]).0, pairs[j].1)),
    ) && value_for(
        register_listings(s, code, symbols_of(pairs)),
        symbol_of(pair_of(pairs[j].0, pairs[j].1)),
    ).contains(code) by {
        lemma_symbol_of_coins(pairs[j]);
        assert(symbols_of(pairs)[j] == symbol_of(pairs[j]));
    }
}

/// The listings a table of code lists holds.
pub closed spec fn listings_of(m: &KeyedList<Vec<String>>) -> Seq<(Seq<char>, Seq<Seq<char>>)> {
    m.entries().map_values(|e: (Seq<char>, Vec<String>)| (e.0, texts(e.1@)))
}

/// A table of code lists and its listings have the same keys, at the same
/// positions.
pub proof fn lemma_listings_keys(m: &KeyedList<Vec<String>>, k: Seq<char>)
    ensures
        has_key(m.entries(), k) == has_key(listings_of(m), k),
        listings_of(m).len() == m.entries().len(),
        forall|j: int| 0 <= j < m.entries().len() ==> (#[trigger] listings_of(m)[j]).0 == m.entries()[j].0,
{
    let l = listings_of(m);
    if has_key(m.entries(), k) {
        let j = key_index(m.entries(), k);
        assert(l[j].0 == k);
    }
    if has_key(l, k) {
        let j = key_index(l, k);
        assert(m.entries()[j].0 == k);
    }
}

/// The registered exchanges and the pairs each of them lists.
pub struct ExchangeManager {
    exchanges: Vec<String>,
    pair_map: KeyedList<Vec<String>>,
}

impl ExchangeManager {
    /// The codes of the registered exchanges, in registration order.
    pub closed spec fn codes(&self) -> Seq<Seq<char>> {
        texts(self.exchanges@)
    }

    /// Each listed pair's symbol with the codes of the exchanges that list it.
    pub closed spec fn listings(&self) -> Seq<(Seq<char>, Seq<Seq<char>>)> {
        listings_of(&self.pair_map)
    }

    #[verifier::type_invariant]
    spec fn wf(&self) -> bool {
        &&& self.codes().no_duplicates()
        &&& listings_valid(self.listings())
    }

    /// A manager with no exchanges and no pairs.
    pub fn new() -> (r: ExchangeManager)
        ensures
            r.codes() == Seq::<Seq<char>>::empty(),
            r.listings() == Seq::<(Seq<char>, Seq<Seq<char>>)>::empty(),
    {
        let r = ExchangeManager { exchanges: Vec::new(), pair_map: KeyedList::new() };
        assert(r.codes() =~= Seq::<Seq<char>>::empty());
        assert(r.listings() =~= Seq::<(Seq<char>, Seq<Seq<char>>)>::empty());
        r
    }

    /// The number of registered exchanges.
    pub fn exchange_count(&self) -> (r: usize)
        ensures
            r == self.codes().len(),
    {
        self.exchanges.len()
    }

    /// The code of registered exchange `i`.
    pub fn code_at(&self, i: usize) -> (r: &str)
        requires
            i < self.codes().len(),
        ensures
            r@ == self.codes()[i as int],
    {
        self.exchanges[i].as_str()
    }

    /// Records that the exchange with code `code` lists `pair` (a symbol):
    /// the exchange is registered if it was not, and its code is added to
    /// the pair's list if it was not on it.
    pub fn add_exchange_pair(&mut self, code: &str, pair: String) -> (r: bool)
        ensures
            r,
            final(self).codes() == add_code(old(self).codes(), code@),
            final(self).listings() == add_listing(old(self).listings(), pair@, code@),
            listings_valid(final(self).listings()),
    {
        proof {
            use_type_invariant(&*self);
        }
        let ghost c0 = self.codes();
        let ghost l0 = self.listings();
        let mut exchanges: Vec<String> = Vec::new();
        std::mem::swap(&mut exchanges, &mut self.exchanges);
        let mut pair_map: KeyedList<Vec<String>> = KeyedList::new();
        std::mem::swap(&mut pair_map, &mut self.pair_map);
        assert(texts(exchanges@) == c0);
        assert(listings_of(&pair_map) == l0);
        if !contains_text(&exchanges, code) {
            exchanges.push(String::from_str(code));
            proof {
                let c = texts(exchanges@);
                assert(c =~= c0.push(code@));
                assert forall|a: int, b: int| 0 <= a < c.len() && 0 <= b < c.len() && a != b implies c[a]
                    != c[b] by {
                    if a < c.len() - 1 && b < c.len() - 1 {
                        assert(c0[a] != c0[b]);
                    } else if a < c.len() - 1 {
                        assert(c0[a] == c[a]);
                    } else {
                        assert(c0[b] == c[b]);
                    }
                }
            }
        }
        proof {
            law_add_listing(l0, pair@, code@);
        }
        let present = pair_map.contains_key(pair.as_str());
        proof {
            lemma_listings_keys(&pair_map, pair@);
        }
        if !present {
            let ghost e0 = pair_map.entries();
            let fresh: Vec<String> = Vec::new();
            let ghost fresh_v = fresh;
            pair_map.insert(pair.clone(), fresh);
            proof {
                assert(pair_map.entries() == e0.push((pair@, fresh_v)));
                assert(texts(fresh_v@) =~= Seq::<Seq<char>>::empty());
                assert(listings_of(&pair_map) =~= with_pair(l0, pair@));
            }
        }
        let ghost l1 = listings_of(&pair_map);
        proof {
            assert(l1 == with_pair(l0, pair@));
            if !has_key(l0, pair@) {
                assert(l1[l0.len() as int].0 == pair@);
            }
            assert(has_key(l1, pair@));
            lemma_listings_keys(&pair_map, pair@);
        }
        let i = pair_map.index_of(pair.as_str()).unwrap();
        proof {
            assert(keys_unique(l1));
            lemma_key_index_unique(l1, i as int);
        }
        if !contains_text(pair_map.value_at(i), code) {
            let mut listed = pair_map.replace_value(i, Vec::new());
            listed.push(String::from_str(code));
            let _ = pair_map.replace_value(i, listed);
            proof {
                assert(texts(listed@) =~= l1[i as int].1.push(code@));
                assert(listings_of(&pair_map) =~= l1.update(i as int, (pair@, l1[i as int].1.push(code@))));
            }
        }
        self.exchanges = exchanges;
        self.pair_map = pair_map;
        true
    }

    /// Records that the exchange with code `code` lists every pair of
    /// `pairs`, by symbol, in order (the part of registering an exchange
    /// that follows fetching its pairs).
    pub fn register(&mut self, code: &str, pairs: &Vec<Pair>) -> (r: bool)
        ensures
            r,
            final(self).codes() == (if pairs@.len() > 0 {
                add_code(old(self).codes(), code@)
            } else {
                old(self).codes()
            }),
            final(self).listings() == register_listings(
                old(self).listings(),
                code@,
                symbols_of(pairs@.map_values(|p: Pair| p@)),
            ),
            listings_valid(final(self).listings()),
    {
        proof {
            use_type_invariant(&*self);
        }
        let ghost c0 = self.codes();
        let ghost l0 = self.listings();
        let ghost syms = symbols_of(pairs@.map_values(|p: Pair| p@));
        let n = pairs.len();
        let mut i: usize = 0;
        assert(syms.take(0) =~= Seq::<Seq<char>>::empty());
        while i < n
            invariant
                n == pairs@.len(),
                syms.len() == n,
                syms == symbols_of(pairs@.map_values(|p: Pair| p@)),
                i <= n,
                self.codes() == (if i > 0 {
                    add_code(c0, code@)
                } else {
                    c0
                }),
                self.listings() == register_listings(l0, code@, syms.take(i as int)),
            decreases n - i,
        {
            let symbol = pairs[i].symbol();
            assert(symbol@ == syms[i as int]);
            self.add_exchange_pair(code, symbol);
            proof {
                law_add_code_idempotent(c0, code@);
                assert(syms.take(i + 1).drop_last() =~= syms.take(i as int));
            }
            i = i + 1;
        }
        assert(syms.take(n as int) =~= syms);
        proof {
            law_register_lists_every_symbol(l0, code@, syms);
        }
        true
    }

    /// Whether some exchange lists the pair of the two coins (in any case).
    pub fn has_pair(&self, from_coin: &str, to_coin: &str) -> (r: bool)
        ensures
            r == has_key(self.listings(), symbol_of(pair_of(from_coin@, to_coin@))),
    {
        let pair = Pair::from_str(from_coin, to_coin);
        let symbol = pair.symbol();
        let r = self.pair_map.contains_key(symbol.as_str());
        proof {
            let k = symbol@;
            if r {
                let j = key_index(self.pair_map.entries(), k);
                assert(self.listings()[j].0 == k);
            }
            if has_key(self.listings(), k) {
                let j = key_index(self.listings(), k);
                assert(self.pair_map.entries()[j].0 == k);
            }
        }
        r
    }

    /// The position of the first registered exchange whose code, in lower
    /// case, equals `code` in upper case.
    pub fn get_exchange(&self, code: String) -> (r: Option<usize>)
        ensures
            match r {
                Some(i) => first_match(self.codes(), code@, i as int),
                None => no_match(self.codes(), code@),
            },
    {
        let wanted = to_upper(code.as_str());
        let n = self.exchanges.len();
        let mut i: usize = 0;
        while i < n
            invariant
                n == self.codes().len(),
                i <= n,
                wanted@ == upper(code@),
                forall|j: int| 0 <= j < i ==> !code_matches(self.codes()[j], code@),
            decreases n - i,
        {
            let lowered = to_lower(self.exchanges[i].as_str());
            if same_text(lowered.as_str(), wanted.as_str()) {
                return Some(i);
            }
            i = i + 1;
        }
        None
    }

    /// Starts a rate request for the pair of the two coins: the request
    /// will ask each exchange listed for the pair, in listing order.
    pub fn rate_query(&self, from_coin: &str, to_coin: &str) -> (r: RateQuery)
        ensures
            r.pair() == pair_of(from_coin@, to_coin@),
            r.symbol() == symbol_of(pair_of(from_coin@, to_coin@)),
            r.pending() == (if has_key(self.listings(), r.symbol()) {
                value_for(self.listings(), r.symbol())
            } else {
                Seq::<Seq<char>>::empty()
            }),
            r.asked() == 0,
            r.rates() == Seq::<(Seq<char>, ExchangeRate)>::empty(),
    {
        proof {
            use_type_invariant(self);
        }
        let pair = Pair::from_str(from_coin, to_coin);
        let symbol = pair.symbol();
        let pending = match self.pair_map.get(symbol.as_str()) {
            Some(listed) => {
                let mut copy: Vec<String> = Vec::new();
                let m = listed.len();
                let mut k: usize = 0;
                while k < m
                    invariant
                        m == listed@.len(),
                        k <= m,
                        texts(copy@) == texts(listed@).take(k as int),
                    decreases m - k,
                {
                    let ghost before = copy@;
                    copy.push(listed[k].clone());
                    assert(copy@ == before.push(listed@[k as int]));
                    assert(texts(listed@).take(k + 1) =~= texts(listed@).take(k as int).push(listed@[k as int]@));
                    assert(texts(copy@) =~= texts(before).push(listed@[k as int]@));
                    k = k + 1;
                }
                assert(texts(listed@).take(m as int) =~= texts(listed@));
                proof {
                    let e = self.pair_map.entries();
                    let j = key_index(e, symbol@);
                    assert(self.listings()[j].0 == symbol@);
                    lemma_key_index_unique(self.listings(), j);
                }
                copy
            },
            None => {
                proof {
                    if has_key(self.listings(), symbol@) {
                        let j = key_index(self.listings(), symbol@);
                        assert(self.pair_map.entries()[j].0 == symbol@);
                    }
                }
                let none: Vec<String> = Vec::new();
                assert(texts(none@) =~= Seq::<Seq<char>>::empty());
                none
            },
        };
        RateQuery { pair, symbol, pending, next: 0, rates: KeyedList::new() }
    }
}

/// What a rate request needs done next.
pub enum RateAction {
    /// Ask registered exchange `index`, whose code is `code`, for the rate
    /// of `from_coin` in `to_coin`.
    Ask { index: usize, code: String, from_coin: String, to_coin: String },
    /// The pair's list names an exchange that no lookup finds (`code`).
    Unregistered(String),
    /// Every listed exchange has been asked.
    Finished,
}

/// A rate request in progress: the listed exchanges still to ask and the
/// rates gathered so far.
pub struct RateQuery {
    pair: Pair,
    symbol: String,
    pending: Vec<String>,
    next: usize,
    rates: ExchangeRateMap,
}

impl RateQuery {
    /// The requested pair.
    pub closed spec fn pair(&self) -> (Seq<char>, Seq<char>) {
        self.pair@
    }

    /// The requested pair's symbol.
    pub closed spec fn symbol(&self) -> Seq<char> {
        self.symbol@
    }

    /// The codes of the exchanges that list the pair.
    pub closed spec fn pending(&self) -> Seq<Seq<char>> {
        texts(self.pending@)
    }

    /// How many of them have been asked.
    pub closed spec fn asked(&self) -> nat {
        self.next as nat
    }

    /// The rates gathered so far, by exchange code.
    pub closed spec fn rates(&self) -> Seq<(Seq<char>, ExchangeRate)> {
        self.rates.entries()
    }

    #[verifier::type_invariant]
    spec fn wf(&self) -> bool {
        self.next <= self.pending@.len()
    }

    /// The next step: ask the next listed exchange that the manager finds,
    /// report a listed exchange it does not find, or finish.
    pub fn next_action(&self, manager: &ExchangeManager) -> (r: RateAction)
        ensures
            self.asked() < self.pending().len() ==> match r {
                RateAction::Ask { index, code, from_coin, to_coin } => first_match(
                    manager.codes(),
                    self.pending()[self.asked() as int],
                    index as int,
                ) && code@ == manager.codes()[index as int] && (from_coin@, to_coin@) == self.pair(),
                RateAction::Unregistered(code) => code@ == self.pending()[self.asked() as int]
                    && no_match(manager.codes(), code@),
                RateAction::Finished => false,
            },
            self.asked() >= self.pending().len() ==> r is Finished,
    {
        proof {
            use_type_invariant(self);
        }
        if self.next < self.pending.len() {
            let code = self.pending[self.next].clone();
            match manager.get_exchange(code.clone()) {
                Some(index) => RateAction::Ask {
                    index,
                    code: String::from_str(manager.code_at(index)),
                    from_coin: self.pair.from_coin.clone(),
                    to_coin: self.pair.to_coin.clone(),
                },
                None => RateAction::Unregistered(code),
            }
        } else {
            RateAction::Finished
        }
    }

    /// Records the reply of the exchange asked last, whose code is `code`:
    /// a rate is kept under that code, a failure is passed over.
    pub fn record(&mut self, code: &str, reply: Option<ExchangeRate>)
        requires
            old(self).asked() < old(self).pending().len(),
        ensures
            final(self).asked() == old(self).asked() + 1,
            final(self).pending() == old(self).pending(),
            final(self).pair() == old(self).pair(),
            final(self).symbol() == old(self).symbol(),
            final(self).rates() == (match reply {
                Some(rate) => insert_entry(old(self).rates(), code@, rate),
                None => old(self).rates(),
            }),
    {
        proof {
            use_type_invariant(&*self);
        }
        let mut rates: ExchangeRateMap = KeyedList::new();
        std::mem::swap(&mut rates, &mut self.rates);
        match reply {
            Some(rate) => {
                rates.insert(String::from_str(code), rate);
            },
            None => {},
        }
        self.rates = rates;
        if self.next < self.pending.len() {
            self.next = self.next + 1;
        }
    }

    /// The answer to the request: the rates gathered, or, where none was,
    /// the error naming the pair's symbol.
    pub fn finish(self) -> (r: Result<ExchangeRateMap, PairNotFound>)
        ensures
            match r {
                Ok(rates) => rates.entries() == self.rates() && self.rates().len() > 0,
                Err(e) => self.rates().len() == 0 && e.message() == "The requested pair '"@
                    + self.symbol() + "' does not exist!"@,
            },
    {
        if !self.rates.is_empty() {
            Ok(self.rates)
        } else {
            Err(PairNotFound::new(self.symbol.as_str()))
        }
    }
}

} // verus!
