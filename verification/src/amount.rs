//! Decimal amounts, held as a mantissa and a scale, and the calls into
//! `rust_decimal` that produce them.
use vstd::prelude::*;

verus! {

/// What `rust_decimal::Decimal::from_str` gives for a text, as the decimal's
/// mantissa and scale, or `None` where it returns an error.
pub uninterp spec fn decimal_parse(text: Seq<char>) -> Option<(i128, u32)>;

/// Parses `text` with `rust_decimal::Decimal::from_str` and hands back the
/// mantissa and scale of the result. Trusted: the result is the named
/// `decimal_parse` of the text; nothing more about the decimal grammar is stated.
#[verifier::external_body]
fn parse_decimal(text: &str) -> (r: Option<(i128, u32)>)
    ensures
        r == decimal_parse(text@),
{
    match text.parse::<rust_decimal::Decimal>() {
        Ok(d) => Some((d.mantissa(), d.scale())),
        Err(_) => None,
    }
}

/// Builds a decimal with `rust_decimal::Decimal::new(num, scale)` and hands
/// back its mantissa and scale. Trusted: the source stores `num` as the
/// mantissa (sign included) and `scale` as the scale; it panics above scale 28.
#[verifier::external_body]
fn decimal_new(num: i64, scale: u32) -> (r: (i128, u32))
    requires
        scale <= 28,
    ensures
        r.0 == num as i128,
        r.1 == scale,
{
    let d = rust_decimal::Decimal::new(num, scale);
    (d.mantissa(), d.scale())
}

/// A decimal number `mantissa * 10^(-scale)`, as `rust_decimal` holds it.
#[derive(Clone, Copy, Debug, PartialEq, Eq, Structural)]
pub struct Amount {
    pub mantissa: i128,
    pub scale: u32,
}

/// The amount that a parse result stands for.
pub open spec fn amount_of(parsed: Option<(i128, u32)>) -> Option<Amount> {
    match parsed {
        Some((m, s)) => Some(Amount { mantissa: m, scale: s }),
        None => None,
    }
}

/// `rust_decimal` accepts the text.
pub open spec fn parses(text: Seq<char>) -> bool {
    decimal_parse(text) is Some
}

/// The amount `rust_decimal` reads from the text (meaningful when it parses).
pub open spec fn parsed(text: Seq<char>) -> Amount {
    amount_of(decimal_parse(text))->0
}

impl Amount {
    /// Parses a decimal text the way `rust_decimal` does; `None` where it
    /// refuses the text.
    pub fn parse(text: &str) -> (r: Option<Amount>)
        ensures
            r == amount_of(decimal_parse(text@)),
    {
        match parse_decimal(text) {
            Some((m, s)) => Some(Amount { mantissa: m, scale: s }),
            None => None,
        }
    }

    /// The decimal `num * 10^(-scale)` (`Decimal::new`).
    pub fn new(num: i64, scale: u32) -> (r: Amount)
        requires
            scale <= 28,
        ensures
            r.mantissa == num as i128,
            r.scale == scale,
    {
        let (m, s) = decimal_new(num, scale);
        Amount { mantissa: m, scale: s }
    }
}

} // verus!
