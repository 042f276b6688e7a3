//! Trading pairs, exchange rates and the adapter traits shared by all
//! exchanges.
use vstd::prelude::*;
use crate::amount::Amount;
use crate::keyed::{KeyedList, insert_entry, has_key, value_for, keys_unique, lemma_insert_entry};
use crate::text::{upper, upper_char, before_first, occurs, occurs_at, first_occurrence, to_upper, find, split_first, lemma_before_first, lemma_upper_idempotent, lemma_upper_concat};

verus! {

/// The upper-case form of a pair `(from_coin, to_coin)`.
pub open spec fn pair_of(from_coin: Seq<char>, to_coin: Seq<char>) -> (Seq<char>, Seq<char>) {
    (upper(from_coin), upper(to_coin))
}

/// The symbol of a pair: `FROM_TO`, upper-cased.
pub open spec fn symbol_of(p: (Seq<char>, Seq<char>)) -> Seq<char> {
    upper(p.0 + seq!['_'] + p.1)
}

/// The pair that a symbol names: the symbol is upper-cased and cut at its
/// underscores; the first piece is the source coin, the second the target.
pub open spec fn symbol_parts(symbol: Seq<char>) -> (Seq<char>, Seq<char>) {
    let u = upper(symbol);
    let head = before_first(u, seq!['_']);
    let tail = u.skip(head.len() + 1int);
    pair_of(head, before_first(tail, seq!['_']))
}

/// Upper-casing makes no underscore that was not there.
proof fn lemma_upper_keeps_underscores(s: Seq<char>)
    ensures
        forall|j: int| 0 <= j < s.len() ==> (upper(s)[j] == '_' <==> s[j] == '_'),
{
    assert forall|j: int| 0 <= j < s.len() implies (upper(s)[j] == '_' <==> s[j] == '_') by {
        let c = s[j];
        assert(upper(s)[j] == upper_char(c));
        if 'a' <= c && c <= 'z' {
            assert((c as u32) >= 97 && (c as u32) <= 122);
        }
    }
}

/// A string without underscores holds no occurrence of `_`.
proof fn lemma_no_underscore(s: Seq<char>)
    requires
        !s.contains('_'),
    ensures
        !occurs(s, seq!['_']),
{
    assert forall|j: int| !occurs_at(s, seq!['_'], j) by {
        if occurs_at(s, seq!['_'], j) {
            assert(s.subrange(j, j + 1)[0] == s[j]);
        }
    }
}

/// The symbol of the pair of two coins is their upper-case forms joined by
/// an underscore.
pub proof fn law_symbol_joins_upper_coins(from_coin: Seq<char>, to_coin: Seq<char>)
    ensures
        symbol_of(pair_of(from_coin, to_coin)) == upper(from_coin) + seq!['_'] + upper(to_coin),
{
    lemma_upper_concat(upper(from_coin) + seq!['_'], upper(to_coin));
    lemma_upper_concat(upper(from_coin), seq!['_']);
    lemma_upper_idempotent(from_coin);
    lemma_upper_idempotent(to_coin);
    assert(upper(seq!['_']) =~= seq!['_']);
}

/// Reading back the symbol of a pair gives the pair, for coins without
/// underscores.
pub proof fn law_symbol_round_trip(from_coin: Seq<char>, to_coin: Seq<char>)
    requires
        !from_coin.contains('_'),
        !to_coin.contains('_'),
    ensures
        symbol_parts(symbol_of(pair_of(from_coin, to_coin))) == pair_of(from_coin, to_coin),
{
    let a = upper(from_coin);
    let b = upper(to_coin);
    law_symbol_joins_upper_coins(from_coin, to_coin);
    let s = a + seq!['_'] + b;
    lemma_upper_concat(a + seq!['_'], b);
    lemma_upper_concat(a, seq!['_']);
    lemma_upper_idempotent(from_coin);
    lemma_upper_idempotent(to_coin);
    assert(upper(seq!['_']) =~= seq!['_']);
    assert(upper(s) == s);
    lemma_upper_keeps_underscores(from_coin);
    lemma_upper_keeps_underscores(to_coin);
    assert(!a.contains('_')) by {
        if a.contains('_') {
            let j = choose|j: int| 0 <= j < a.len() && a[j] == '_';
            assert(from_coin[j] == '_');
        }
    }
    assert(!b.contains('_')) by {
        if b.contains('_') {
            let j = choose|j: int| 0 <= j < b.len() && b[j] == '_';
            assert(to_coin[j] == '_');
        }
    }
    assert(first_occurrence(s, seq!['_'], a.len() as int)) by {
        assert(s.subrange(a.len() as int, a.len() + 1int) =~= seq!['_']);
        assert forall|j: int| 0 <= j < a.len() implies !occurs_at(s, seq!['_'], j) by {
            if occurs_at(s, seq!['_'], j) {
                assert(s.subrange(j, j + 1)[0] == a[j]);
            }
        }
    }
    lemma_before_first(s, seq!['_'], a.len() as int);
    assert(s.take(a.len() as int) =~= a);
    assert(s.skip(a.len() + 1int) =~= b);
    lemma_no_underscore(b);
}

/// A trading pair: the coin sold and the coin it is priced in.
#[derive(Debug)]
pub struct Pair {
    pub from_coin: String,
    pub to_coin: String,
}

impl View for Pair {
    type V = (Seq<char>, Seq<char>);

    open spec fn view(&self) -> (Seq<char>, Seq<char>) {
        (self.from_coin@, self.to_coin@)
    }
}

impl Clone for Pair {
    fn clone(&self) -> (r: Self)
        ensures
            r == *self,
    {
        Pair { from_coin: self.from_coin.clone(), to_coin: self.to_coin.clone() }
    }
}

impl Pair {
    /// The pair of two coins, both upper-cased.
    pub fn from_str(from_coin: &str, to_coin: &str) -> (r: Self)
        ensures
            r@ == pair_of(from_coin@, to_coin@),
    {
        Pair { from_coin: to_upper(from_coin), to_coin: to_upper(to_coin) }
    }

    /// The pair named by a symbol such as `btc_usd`.
    pub fn from_symbol(symbol: &str) -> (r: Self)
        requires
            symbol@.contains('_'),
        ensures
            r@ == symbol_parts(symbol@),
    {
        proof {
            reveal_strlit("_");
            assert("_"@ =~= seq!['_']);
        }
        let u = to_upper(symbol);
        let us = u.as_str();
        proof {
            let j = choose|j: int| 0 <= j < symbol@.len() && symbol@[j] == '_';
            assert(us@.subrange(j, j + 1) =~= seq!['_']);
            assert(occurs_at(us@, "_"@, j));
        }
        let i = find(us, "_").unwrap();
        proof {
            lemma_before_first(us@, seq!['_'], i as int);
        }
        let n = us.unicode_len();
        let head = us.substring_char(0, i);
        let tail = us.substring_char(i + 1, n);
        assert(head@ =~= before_first(us@, seq!['_']));
        assert(tail@ =~= us@.skip(head@.len() + 1int));
        let to = split_first(tail, "_");
        Pair::from_str(head, to)
    }

    /// The pair's symbol, `FROM_TO` in upper case.
    pub fn symbol(&self) -> (r: String)
        ensures
            r@ == symbol_of(self@),
    {
        proof {
            reveal_strlit("_");
            assert("_"@ =~= seq!['_']);
        }
        let mut s = self.from_coin.clone();
        s.append("_");
        s.append(self.to_coin.as_str());
        to_upper(s.as_str())
    }
}

/// The rate of a pair on one exchange.
#[derive(Debug)]
pub struct ExchangeRate {
    pub last: Amount,
    pub bid: Amount,
    pub ask: Amount,
    pub low: Amount,
    pub high: Amount,
    pub volume: Amount,
    pub open: Amount,
    pub close: Amount,
    pub pair: Pair,
}

impl Clone for ExchangeRate {
    fn clone(&self) -> (r: Self)
        ensures
            r == *self,
    {
        ExchangeRate {
            last: self.last,
            bid: self.bid,
            ask: self.ask,
            low: self.low,
            high: self.high,
            volume: self.volume,
            open: self.open,
            close: self.close,
            pair: self.pair.clone(),
        }
    }
}

impl ExchangeRate {
    /// The coin sold.
    pub fn from_coin(&self) -> (r: String)
        ensures
            r@ == self.pair.from_coin@,
    {
        self.pair.from_coin.clone()
    }

    /// The coin the rate is priced in.
    pub fn to_coin(&self) -> (r: String)
        ensures
            r@ == self.pair.to_coin@,
    {
        self.pair.to_coin.clone()
    }

    /// The symbol of the rate's pair.
    pub fn symbol(&self) -> (r: String)
        ensures
            r@ == symbol_of(self.pair@),
    {
        self.pair.symbol()
    }
}

/// The pairs one exchange lists, indexed by their `FROM_TO` names.
pub struct ExchangeAdapter {
    pub pairs: Vec<Pair>,
    pub pair_map: KeyedList<Pair>,
    pub market_api: String,
}

/// The key under which a listed pair is indexed: `base_quote`, as listed.
pub open spec fn listing_key(p: Pair) -> Seq<char> {
    p.from_coin@ + seq!['_'] + p.to_coin@
}

/// The index after recording each listed pair under its key, in order.
pub open spec fn indexed_pairs(index: Seq<(Seq<char>, Pair)>, listed: Seq<Pair>) -> Seq<(Seq<char>, Pair)>
    decreases listed.len(),
{
    if listed.len() == 0 {
        index
    } else {
        insert_entry(indexed_pairs(index, listed.drop_last()), listing_key(listed.last()), listed.last())
    }
}

/// After a listing is recorded, every listed pair is found under its key
/// with its latest listing, and every key indexed before is still there.
pub proof fn law_recorded_pairs_are_indexed(index: Seq<(Seq<char>, Pair)>, listed: Seq<Pair>)
    requires
        keys_unique(index),
    ensures
        keys_unique(indexed_pairs(index, listed)),
        forall|j: int|
            0 <= j < listed.len() ==> has_key(indexed_pairs(index, listed), listing_key(#[trigger] listed[j])),
        forall|k: Seq<char>| has_key(index, k) ==> has_key(indexed_pairs(index, listed), k),
        listed.len() > 0 ==> value_for(indexed_pairs(index, listed), listing_key(listed.last()))
            == listed.last(),
    decreases listed.len(),
{
    if listed.len() > 0 {
        let prev = listed.drop_last();
        law_recorded_pairs_are_indexed(index, prev);
        let i0 = indexed_pairs(index, prev);
        lemma_insert_entry(i0, listing_key(listed.last()), listed.last());
        assert forall|j: int| 0 <= j < listed.len() implies has_key(
            indexed_pairs(index, listed),
            listing_key(#[trigger] listed[j]),
        ) by {
            if j < listed.len() - 1 {
                assert(listed[j] == prev[j]);
            }
        }
    }
}

/// Replaces an exchange's pairs by a fresh listing and records each listed
/// pair in the index under its key; the index keeps what it held before.
/// Hands back the pairs.
pub fn record_pairs(pairs: &mut Vec<Pair>, pair_map: &mut KeyedList<Pair>, listed: Vec<Pair>) -> (r: Vec<Pair>)
    ensures
        final(pairs)@ == listed@,
        final(pair_map).entries() == indexed_pairs(old(pair_map).entries(), listed@),
        r@ == listed@,
{
    pairs.clear();
    let ghost start = pair_map.entries();
    let n = listed.len();
    let mut i: usize = 0;
    assert(listed@.take(0) =~= Seq::<Pair>::empty());
    while i < n
        invariant
            n == listed@.len(),
            i <= n,
            pairs@ == listed@.take(i as int),
            pair_map.entries() == indexed_pairs(start, listed@.take(i as int)),
        decreases n - i,
    {
        let np = listed[i].clone();
        pairs.push(np.clone());
        let mut key = np.from_coin.clone();
        key.append("_");
        key.append(np.to_coin.as_str());
        proof {
            reveal_strlit("_");
            assert("_"@ =~= seq!['_']);
        }
        assert(key@ == listing_key(listed@[i as int]));
        pair_map.insert(key, np.clone());
        assert(listed@.take(i + 1).drop_last() =~= listed@.take(i as int));
        assert(listed@.take(i + 1).last() == listed@[i as int]);
        assert(listed@.take(i + 1) =~= listed@.take(i as int).push(listed@[i as int]));
        i = i + 1;
    }
    assert(listed@.take(n as int) =~= listed@);
    let mut r: Vec<Pair> = Vec::new();
    let mut k: usize = 0;
    while k < n
        invariant
            n == listed@.len(),
            pairs@ == listed@,
            k <= n,
            r@ == listed@.take(k as int),
        decreases n - k,
    {
        r.push(pairs[k].clone());
        assert(listed@.take(k + 1) =~= listed@.take(k as int).push(listed@[k as int]));
        k = k + 1;
    }
    assert(listed@.take(n as int) =~= listed@);
    r
}

/// The name and short code of an exchange.
pub trait AdapterMeta<'a> {
    fn name(&self) -> &'a str;

    fn code(&self) -> &'a str;
}

/// The URI scheme of an exchange's API.
pub trait AdapterLow {
    fn build_uri(&self, uri: &str, endpoint: &str) -> String;
}

/// The error for a pair that no exchange, or not the one asked, lists.
#[derive(Debug)]
pub struct PairNotFound {
    v: String,
}

impl PairNotFound {
    /// The error's message.
    pub closed spec fn message(&self) -> Seq<char> {
        self.v@
    }

    /// The error for the pair named `pair`.
    pub fn new(pair: &str) -> (r: PairNotFound)
        ensures
            r.message() == "The requested pair '"@ + pair@ + "' does not exist!"@,
    {
        let mut v = String::from_str("The requested pair '");
        v.append(pair);
        v.append("' does not exist!");
        PairNotFound { v }
    }

    /// Replaces the message.
    pub fn change_message(&mut self, new_message: &str)
        ensures
            final(self).message() == new_message@,
    {
        self.v = String::from_str(new_message);
    }

    /// The error as it is displayed: `PairNotFound: ` and the message.
    pub fn to_string(&self) -> (r: String)
        ensures
            r@ == "PairNotFound: "@ + self.message(),
    {
        let mut r = String::from_str("PairNotFound: ");
        r.append(self.v.as_str());
        r
    }
}

} // verus!
