//! Fixed-point amounts as decimal text.
//!
//! An amount is a whole number of ten-thousandths. Its text is the whole part
//! in decimal digits and, where the rest is not zero, a point and the rest in
//! up to four digits, without zeros at the end: `15000` is `1.5`, `20000` is
//! `2`, `-1` is `-0.0001`.

use vstd::prelude::*;

verus! {

/// The ASCII digit `0`; the other digits follow it in order.
pub const ZERO: u8 = 48;

/// The ASCII full stop.
pub const POINT: u8 = 46;

/// The ASCII hyphen-minus.
pub const MINUS: u8 = 45;

/// The ASCII digit for `digit`, which is below ten.
pub open spec fn digit_byte(digit: nat) -> u8
    recommends
        digit < 10,
{
    (ZERO + digit) as u8
}

/// `n` in decimal digits, without leading zeros.
pub open spec fn decimal_digits(n: nat) -> Seq<u8>
    decreases n,
{
    if n < 10 {
        seq![digit_byte(n)]
    } else {
        decimal_digits(n / 10).push(digit_byte(n % 10))
    }
}

/// The four decimal digits of `fraction`, which is below ten thousand.
pub open spec fn fraction_digits(fraction: nat) -> Seq<u8>
    recommends
        fraction < 10_000,
{
    seq![
        digit_byte(fraction / 1000),
        digit_byte(fraction / 100 % 10),
        digit_byte(fraction / 10 % 10),
        digit_byte(fraction % 10),
    ]
}

/// `digits` without the zeros at its end.
pub open spec fn without_trailing_zeros(digits: Seq<u8>) -> Seq<u8>
    decreases digits.len(),
{
    if digits.len() > 0 && digits.last() == ZERO {
        without_trailing_zeros(digits.drop_last())
    } else {
        digits
    }
}

/// The point and the fractional digits of an amount, nothing where the
/// fraction is zero.
pub open spec fn fraction_text(fraction: nat) -> Seq<u8>
    recommends
        fraction < 10_000,
{
    if fraction == 0 {
        Seq::empty()
    } else {
        seq![POINT] + without_trailing_zeros(fraction_digits(fraction))
    }
}

/// The text of an amount of `value` ten-thousandths.
pub open spec fn amount_text(value: int) -> Seq<u8> {
    if value < 0 {
        seq![MINUS] + decimal_digits((-value / 10_000) as nat) + fraction_text(
            (-value % 10_000) as nat,
        )
    } else {
        decimal_digits((value / 10_000) as nat) + fraction_text((value % 10_000) as nat)
    }
}

/// Appends `n` in decimal digits.
pub fn push_decimal(out: &mut Vec<u8>, n: u128)
    ensures
        final(out)@ == old(out)@ + decimal_digits(n as nat),
    decreases n,
{
    if n >= 10 {
        push_decimal(out, n / 10);
    }
    out.push(ZERO + (n % 10) as u8);
}

/// Appends the point and the fractional digits of an amount whose fraction is
/// `fraction` ten-thousandths.
fn push_fraction(out: &mut Vec<u8>, fraction: u16)
    requires
        fraction < 10_000,
    ensures
        final(out)@ == old(out)@ + fraction_text(fraction as nat),
{
    if fraction != 0 {
        out.push(POINT);
        out.push(ZERO + (fraction / 1000) as u8);
        if fraction % 1000 != 0 {
            out.push(ZERO + (fraction / 100 % 10) as u8);
            if fraction % 100 != 0 {
                out.push(ZERO + (fraction / 10 % 10) as u8);
                if fraction % 10 != 0 {
                    out.push(ZERO + (fraction % 10) as u8);
                }
            }
        }
    }
    proof {
        reveal_with_fuel(without_trailing_zeros, 5);
    }
}

/// Appends the text of an amount of `value` ten-thousandths.
pub fn push_amount(out: &mut Vec<u8>, value: i128)
    ensures
        final(out)@ == old(out)@ + amount_text(value as int),
{
    let magnitude: u128 = if value < 0 {
        out.push(MINUS);
        (-(value + 1)) as u128 + 1
    } else {
        value as u128
    };
    push_decimal(out, magnitude / 10_000);
    push_fraction(out, (magnitude % 10_000) as u16);
}

} // verus!
