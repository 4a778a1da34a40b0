//! Decimal text of unsigned integers, as ASCII bytes.

use vstd::prelude::*;

verus! {

/// The ASCII code of the digit `0`; the other digits follow it in order.
pub const DIGIT_ZERO: u8 = 0x30;

/// The ASCII code of the decimal digit `d`.
pub open spec fn digit_byte(d: nat) -> u8
    recommends
        d < 10,
{
    (DIGIT_ZERO + d) as u8
}

/// Whether `b` is the ASCII code of a decimal digit.
pub open spec fn is_digit(b: u8) -> bool {
    DIGIT_ZERO <= b <= DIGIT_ZERO + 9
}

/// The decimal text of `n`: its digits, most significant first, without
/// leading zeros; the text of zero is the single digit `0`.
pub open spec fn decimal(n: nat) -> Seq<u8>
    decreases n,
{
    if n < 10 {
        seq![digit_byte(n)]
    } else {
        decimal(n / 10).push(digit_byte(n % 10))
    }
}

/// The number that a sequence of digit bytes denotes, read most significant
/// digit first; the empty sequence denotes zero.
pub open spec fn decimal_value(text: Seq<u8>) -> nat
    recommends
        forall|i: int| 0 <= i < text.len() ==> is_digit(#[trigger] text[i]),
    decreases text.len(),
{
    if text.len() == 0 {
        0
    } else {
        decimal_value(text.drop_last()) * 10 + (text.last() - DIGIT_ZERO) as nat
    }
}

/// Decimal text is never empty and holds digits only; in particular it holds
/// neither a space nor a line feed.
pub proof fn decimal_is_digits(n: nat)
    ensures
        decimal(n).len() >= 1,
        forall|i: int| 0 <= i < decimal(n).len() ==> is_digit(#[trigger] decimal(n)[i]),
    decreases n,
{
    if n >= 10 {
        decimal_is_digits(n / 10);
    }
}

/// Decimal text has no leading zero, except for the text of zero itself.
pub proof fn decimal_has_no_leading_zero(n: nat)
    ensures
        decimal(n)[0] == DIGIT_ZERO <==> n == 0,
    decreases n,
{
    if n >= 10 {
        decimal_is_digits(n / 10);
        decimal_has_no_leading_zero(n / 10);
    }
}

/// Reading decimal text back gives the number it was written for.
pub proof fn decimal_round_trip(n: nat)
    ensures
        decimal_value(decimal(n)) == n,
    decreases n,
{
    if n < 10 {
        assert(decimal(n).drop_last() =~= Seq::<u8>::empty());
        assert(decimal_value(decimal(n).drop_last()) == 0) by {
            reveal_with_fuel(decimal_value, 1);
        }
    } else {
        decimal_round_trip(n / 10);
        assert(decimal(n).drop_last() =~= decimal(n / 10));
    }
}

/// Appends the decimal text of `n` to `out`.
pub fn push_decimal(out: &mut Vec<u8>, n: u32)
    ensures
        final(out)@ == old(out)@ + decimal(n as nat),
    decreases n,
{
    if n >= 10 {
        push_decimal(out, n / 10);
    }
    let digit: u8 = (n % 10) as u8;
    out.push(DIGIT_ZERO + digit);
    assert(out@ =~= old(out)@ + decimal(n as nat));
}

} // verus!
