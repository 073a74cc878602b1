//! Decimal arithmetic and integer parsing done by outside code, with the
//! mathematical statements they are held to.

use std::str::FromStr;

use bigdecimal::num_bigint::{BigInt, BigUint, Sign};
use bigdecimal::BigDecimal;
use vstd::prelude::*;

use crate::unit::Unit;

verus! {

/// Value of little-endian base 2^32 limbs.
pub open spec fn limbs_value(v: Seq<u32>) -> nat
    decreases v.len(),
{
    if v.len() == 0 {
        0
    } else {
        v[0] as nat + 4294967296 * limbs_value(v.drop_first())
    }
}

/// An ASCII decimal digit.
pub open spec fn is_digit(c: char) -> bool {
    '0' <= c && c <= '9'
}

/// Decimal value of the digits of `s`, underscores skipped.
pub open spec fn digits_value(s: Seq<char>) -> nat
    decreases s.len(),
{
    if s.len() == 0 {
        0
    } else if s.last() == '_' {
        digits_value(s.drop_last())
    } else {
        10 * digits_value(s.drop_last()) + ((s.last() as u32) - 48) as nat
    }
}

/// The text after one leading '+', or the whole text.
pub open spec fn unsigned_body(s: Seq<char>) -> Seq<char> {
    if s.len() > 0 && s[0] == '+' {
        s.drop_first()
    } else {
        s
    }
}

/// Text that reads as an unsigned decimal integer: an optional '+', then a digit,
/// then digits and underscores.
pub open spec fn is_unsigned_text(s: Seq<char>) -> bool {
    let b = unsigned_body(s);
    &&& b.len() > 0
    &&& b[0] != '_'
    &&& forall|i: int| 0 <= i < b.len() ==> is_digit(#[trigger] b[i]) || b[i] == '_'
}

/// The text after one leading sign, or the whole text.
pub open spec fn signed_body(s: Seq<char>) -> Seq<char> {
    if s.len() > 0 && (s[0] == '+' || s[0] == '-') {
        s.drop_first()
    } else {
        s
    }
}

/// The value of an optional sign followed by digits.
pub open spec fn signed_value(s: Seq<char>) -> int {
    if s.len() > 0 && s[0] == '-' {
        -digits_value(signed_body(s))
    } else {
        digits_value(signed_body(s)) as int
    }
}

/// Text that reads as an `i64`: an optional sign, then only digits, of a value in range.
pub open spec fn is_i64_text(s: Seq<char>) -> bool {
    let b = signed_body(s);
    &&& b.len() > 0
    &&& forall|i: int| 0 <= i < b.len() ==> is_digit(#[trigger] b[i])
    &&& i64::MIN <= signed_value(s) <= i64::MAX
}

/// Text of `n / d` computed in decimal and rounded to `places` fractional digits.
pub uninterp spec fn quotient_text(n: int, d: nat, places: int) -> Seq<char>;

/// Fractional digits kept for magnitude `m` over divisor `d`: 2 above the
/// divisor, 3 at or below it.
pub open spec fn places(m: int, d: nat) -> int {
    if m > d {
        2
    } else {
        3
    }
}

/// The line shown for magnitude `m` in unit `u`: the rounded quotient, a space,
/// and the unit's name.
pub open spec fn rendered(m: int, u: Unit) -> Seq<char> {
    quotient_text(m, u.divisor_spec(), places(m, u.divisor_spec())) + seq![' ']
        + u.display_name()
}

/// Relies on bigdecimal's `BigDecimal` division, `round` and `Display`: the
/// text of the signed numerator over the divisor, rounded to `places`
/// fractional digits. A numerator equal to the divisor gives 1 with no
/// fractional digits, which `round` keeps as it is, so the text is "1".
#[verifier::external_body]
pub(crate) fn rounded_quotient(negative: bool, numerator: &Vec<u32>, divisor: u128, places: i64) -> (r: String)
    requires
        divisor > 0,
        places >= 0,
    ensures
        r@ == quotient_text(
            if negative {
                -limbs_value(numerator@)
            } else {
                limbs_value(numerator@) as int
            },
            divisor as nat,
            places as int,
        ),
        !negative && limbs_value(numerator@) == divisor ==> r@ == seq!['1'],
{
    let sign = if negative { Sign::Minus } else { Sign::Plus };
    let n = BigDecimal::new(BigInt::from_biguint(sign, BigUint::new(numerator.clone())), 0);
    let d = BigDecimal::new(BigInt::from(divisor), 0);
    (n / d).round(places).to_string()
}

/// Relies on num-bigint's `BigUint::from_str` (base 10) and `to_u32_digits`:
/// the value's little-endian limbs, or the parser's message.
#[verifier::external_body]
pub(crate) fn parse_unsigned(s: &str) -> (r: Result<Vec<u32>, String>)
    ensures
        r is Ok <==> is_unsigned_text(s@),
        r is Ok ==> limbs_value(r->Ok_0@) == digits_value(unsigned_body(s@)),
{
    match BigUint::from_str(s) {
        Ok(b) => Ok(b.to_u32_digits()),
        Err(e) => Err(e.to_string()),
    }
}

/// Relies on std's `i64::from_str`: an optional sign followed by digits, in
/// range, or the parser's message.
#[verifier::external_body]
pub(crate) fn parse_i64(s: &str) -> (r: Result<i64, String>)
    ensures
        r is Ok <==> is_i64_text(s@),
        r is Ok ==> r->Ok_0 == signed_value(s@),
{
    match i64::from_str(s) {
        Ok(v) => Ok(v),
        Err(e) => Err(e.to_string()),
    }
}

} // verus!
