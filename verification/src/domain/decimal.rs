//! The decimal arithmetic this library relies on. Each function here hands
//! plain mantissa-and-scale pairs to `rust_decimal` and takes plain pairs
//! back; its contract is believed, not proved.

use crate::domain::fixed::Fixed;
use rust_decimal::Decimal;
use vstd::prelude::*;
use vstd::utf8::encode_utf8;

verus! {

/// What `Decimal::from_str` makes of a text: the decimal it reads, or none
/// where it reports an error.
pub uninterp spec fn decimal_parse(text: Seq<char>) -> Option<Fixed>;

/// How `Decimal`'s `Display` writes the decimal with this mantissa and scale.
pub uninterp spec fn decimal_text(mantissa: int, scale: nat) -> Seq<char>;

/// The decimal with this mantissa and scale.
pub open spec fn fixed_of(mantissa: i128, scale: u32) -> Fixed {
    Fixed { mantissa: mantissa as int, scale: scale as nat }
}

/// The decimal with the mantissa and scale of a pair, where there is one.
pub open spec fn fixed_of_pair(pair: Option<(i128, u32)>) -> Option<Fixed> {
    match pair {
        Some(p) => Some(fixed_of(p.0, p.1)),
        None => None,
    }
}

/// `Decimal::checked_add`. Claimed of it: every result is a representable
/// decimal; where the exact sum exists (one operand is zero, or the sum
/// written at the larger scale fits the mantissa) the result is that sum;
/// and where it does not, the call reports overflow or hands back a value
/// rounded to a smaller scale than the larger of the operands' scales.
#[verifier::external_body]
pub(crate) fn decimal_add(m1: i128, s1: u32, m2: i128, s2: u32) -> (r: Option<(i128, u32)>)
    requires
        fixed_of(m1, s1).representable(),
        fixed_of(m2, s2).representable(),
    ensures
        r matches Some(p) ==> fixed_of(p.0, p.1).representable(),
        fixed_of(m1, s1).plus(fixed_of(m2, s2)) is Some ==> fixed_of_pair(r) == fixed_of(
            m1,
            s1,
        ).plus(fixed_of(m2, s2)),
        fixed_of(m1, s1).plus(fixed_of(m2, s2)) is None ==> (r matches Some(p) ==> p.1 < s1 || p.1
            < s2),
{
    let a = Decimal::from_i128_with_scale(m1, s1);
    let b = Decimal::from_i128_with_scale(m2, s2);
    match a.checked_add(b) {
        Some(d) => Some((d.mantissa(), d.scale())),
        None => None,
    }
}

/// `Decimal::checked_sub`. Claimed of it what is claimed of
/// `Decimal::checked_add`, with the second operand negated.
#[verifier::external_body]
pub(crate) fn decimal_sub(m1: i128, s1: u32, m2: i128, s2: u32) -> (r: Option<(i128, u32)>)
    requires
        fixed_of(m1, s1).representable(),
        fixed_of(m2, s2).representable(),
    ensures
        r matches Some(p) ==> fixed_of(p.0, p.1).representable(),
        fixed_of(m1, s1).minus(fixed_of(m2, s2)) is Some ==> fixed_of_pair(r) == fixed_of(
            m1,
            s1,
        ).minus(fixed_of(m2, s2)),
        fixed_of(m1, s1).minus(fixed_of(m2, s2)) is None ==> (r matches Some(p) ==> p.1 < s1 || p.1
            < s2),
{
    let a = Decimal::from_i128_with_scale(m1, s1);
    let b = Decimal::from_i128_with_scale(m2, s2);
    match a.checked_sub(b) {
        Some(d) => Some((d.mantissa(), d.scale())),
        None => None,
    }
}

/// `Decimal`'s `<`. Claimed of it: it orders decimals by their numeric
/// value, whatever their scales.
#[verifier::external_body]
pub(crate) fn decimal_less(m1: i128, s1: u32, m2: i128, s2: u32) -> (r: bool)
    requires
        fixed_of(m1, s1).representable(),
        fixed_of(m2, s2).representable(),
    ensures
        r == fixed_of(m1, s1).less_than(fixed_of(m2, s2)),
{
    Decimal::from_i128_with_scale(m1, s1) < Decimal::from_i128_with_scale(m2, s2)
}

/// The longest text, in bytes, that is handed to `Decimal::from_str`.
pub const MAX_DECIMAL_TEXT: usize = 256usize;

/// `Decimal::from_str`, through `str::parse`. Claimed of it: the result
/// depends on the text alone, and every decimal it reads is representable.
/// The parser calls itself once for every byte of the text, so only short
/// texts are handed to it.
#[verifier::external_body]
pub(crate) fn decimal_from_str(text: &str) -> (r: Option<(i128, u32)>)
    requires
        encode_utf8(text@).len() <= MAX_DECIMAL_TEXT,
    ensures
        r matches Some(p) ==> fixed_of(p.0, p.1).representable(),
        fixed_of_pair(r) == decimal_parse(text@),
{
    match text.parse::<Decimal>() {
        Ok(d) => Some((d.mantissa(), d.scale())),
        Err(_) => None,
    }
}

/// `Decimal`'s `Display`, through `to_string`. Claimed of it: the text
/// depends on the mantissa and the scale alone.
#[verifier::external_body]
pub(crate) fn decimal_to_string(mantissa: i128, scale: u32) -> (r: String)
    requires
        fixed_of(mantissa, scale).representable(),
    ensures
        r@ == decimal_text(mantissa as int, scale as nat),
{
    Decimal::from_i128_with_scale(mantissa, scale).to_string()
}

} // verus!
