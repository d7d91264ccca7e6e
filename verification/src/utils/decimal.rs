//! Numbers in decimal text.

use vstd::prelude::*;

verus! {

/// The character of a decimal digit.
pub open spec fn digit_char(digit: nat) -> char {
    (digit + 48) as u8 as char
}

/// The digit a character stands for, if it is one of `0` to `9`.
pub open spec fn digit_value(c: char) -> Option<nat> {
    if 48 <= c as u32 <= 57 {
        Some((c as u32 - 48) as nat)
    } else {
        None
    }
}

/// The decimal digits of a number, the most significant first, without
/// leading zeros.
pub open spec fn decimal_digits(n: nat) -> Seq<char>
    decreases n,
{
    if n < 10 {
        seq![digit_char(n)]
    } else {
        decimal_digits(n / 10).push(digit_char(n % 10))
    }
}

/// The number that a sequence of decimal digits stands for; `None` where
/// a character is no digit. No digits stand for 0.
pub open spec fn digits_value(digits: Seq<char>) -> Option<nat>
    decreases digits.len(),
{
    if digits.len() == 0 {
        Some(0)
    } else {
        match (digits_value(digits.drop_last()), digit_value(digits.last())) {
            (Some(value), Some(digit)) => Some(10 * value + digit),
            _ => None,
        }
    }
}

/// The decimal text of a number.
pub open spec fn decimal_text(n: u16) -> Seq<char> {
    decimal_digits(n as nat)
}

/// The number a decimal text stands for: one digit or more, after a plus
/// sign or none, and no more than the largest number there is. Any other
/// text stands for none.
pub open spec fn decimal_u16(text: Seq<char>) -> Option<u16> {
    let digits = if text.len() > 0 && text[0] == '+' {
        text.subrange(1, text.len() as int)
    } else {
        text
    };
    if digits.len() == 0 {
        None
    } else {
        match digits_value(digits) {
            Some(value) => if value <= u16::MAX {
                Some(value as u16)
            } else {
                None
            },
            None => None,
        }
    }
}

/// The digits of a number stand for the number; they are not empty and
/// begin with a digit.
pub proof fn lemma_digits_round_trip(n: nat)
    ensures
        digits_value(decimal_digits(n)) == Some(n),
        decimal_digits(n).len() > 0,
        digit_value(decimal_digits(n)[0]) is Some,
    decreases n,
{
    if n < 10 {
        let digits = decimal_digits(n);
        assert(digits.drop_last() =~= Seq::<char>::empty());
        assert(digits.last() == digit_char(n));
        lemma_digit_round_trip(n);
        assert(digits_value(digits.drop_last()) == Some(0nat));
    } else {
        lemma_digits_round_trip(n / 10);
        let shorter = decimal_digits(n / 10);
        let digits = decimal_digits(n);
        assert(digits.drop_last() =~= shorter);
        assert(digits.last() == digit_char(n % 10));
        lemma_digit_round_trip(n % 10);
        assert(digits[0] == shorter[0]);
    }
}

/// The character of a digit stands for the digit.
pub proof fn lemma_digit_round_trip(digit: nat)
    requires
        digit < 10,
    ensures
        digit_value(digit_char(digit)) == Some(digit),
        digit_char(digit) != '+',
{
    let byte = (digit + 48) as u8;
    assert(byte as char as u32 == byte as u32);
}

/// The decimal text of a number reads back as the number.
pub proof fn lemma_decimal_round_trip(n: u16)
    ensures
        decimal_u16(decimal_text(n)) == Some(n),
{
    lemma_digits_round_trip(n as nat);
    let text = decimal_text(n);
    assert(digit_value(text[0]) is Some);
    assert(text[0] != '+');
}

} // verus!
