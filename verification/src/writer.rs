//! Writing an `i128` as text in a given base.

use crate::digits::{digit_char, magnitude_text};
use crate::number_type::NumberType;
use vstd::prelude::*;
use vstd::string::StringExecFns;

verus! {

/// The text of `value` in the given base: a minus sign where the value is
/// negative, then the digits of its absolute value in lower case, without
/// prefix, plus sign or leading zeros.
///
/// Negative values are written with a sign in every base; the text never
/// shows a two's complement bit pattern.
pub open spec fn format_spec(number_type: NumberType, value: int) -> Seq<char> {
    if value < 0 {
        seq!['-'] + magnitude_text((-value) as nat, number_type.spec_radix())
    } else {
        magnitude_text(value as nat, number_type.spec_radix())
    }
}

/// The characters that the digits of `digits` write, last digit first.
pub open spec fn reversed_text(digits: Seq<u8>) -> Seq<char> {
    Seq::new(digits.len(), |i: int| digit_char(digits[digits.len() - 1 - i] as nat))
}

/// The text that writes the single digit `d`.
fn digit_text(d: u8) -> (s: &'static str)
    requires
        d < 16,
    ensures
        s@ == seq![digit_char(d as nat)],
{
    proof {
        reveal_strlit("0");
        reveal_strlit("1");
        reveal_strlit("2");
        reveal_strlit("3");
        reveal_strlit("4");
        reveal_strlit("5");
        reveal_strlit("6");
        reveal_strlit("7");
        reveal_strlit("8");
        reveal_strlit("9");
        reveal_strlit("a");
        reveal_strlit("b");
        reveal_strlit("c");
        reveal_strlit("d");
        reveal_strlit("e");
        reveal_strlit("f");
    }
    let s = match d {
        0 => "0",
        1 => "1",
        2 => "2",
        3 => "3",
        4 => "4",
        5 => "5",
        6 => "6",
        7 => "7",
        8 => "8",
        9 => "9",
        10 => "a",
        11 => "b",
        12 => "c",
        13 => "d",
        14 => "e",
        _ => "f",
    };
    assert(s@ =~= seq![digit_char(d as nat)]);
    s
}

/// The absolute value of `value`.
pub fn magnitude_of(value: i128) -> (m: u128)
    ensures
        m == if value < 0 {
            -value
        } else {
            value as int
        },
{
    if value >= 0 {
        value as u128
    } else {
        (-(value + 1)) as u128 + 1
    }
}

/// The digits of `magnitude` in the given radix, least significant first.
fn digits_of_magnitude(magnitude: u128, radix: u32) -> (digits: Vec<u8>)
    requires
        2 <= radix <= 16,
    ensures
        digits.len() >= 1,
        forall|i: int| 0 <= i < digits.len() ==> digits[i] < 16,
        reversed_text(digits@) == magnitude_text(magnitude as nat, radix as nat),
{
    let mut digits: Vec<u8> = Vec::new();
    let mut rest = magnitude;
    let wide = radix as u128;
    assert(reversed_text(digits@) =~= Seq::<char>::empty());
    while rest >= wide
        invariant
            2 <= radix <= 16,
            wide == radix,
            forall|i: int| 0 <= i < digits.len() ==> digits[i] < 16,
            magnitude_text(magnitude as nat, radix as nat) == magnitude_text(
                rest as nat,
                radix as nat,
            ) + reversed_text(digits@),
        decreases rest,
    {
        let d = (rest % wide) as u8;
        let ghost before = digits@;
        digits.push(d);
        assert(reversed_text(digits@) =~= seq![digit_char(d as nat)] + reversed_text(before));
        assert(magnitude_text(rest as nat, radix as nat) =~= magnitude_text(
            (rest / wide) as nat,
            radix as nat,
        ) + seq![digit_char(d as nat)]);
        rest = rest / wide;
    }
    let ghost before = digits@;
    digits.push(rest as u8);
    assert(reversed_text(digits@) =~= seq![digit_char(rest as nat)] + reversed_text(before));
    digits
}

/// Writes `value` as text in the given base.
pub fn format_number(number_type: NumberType, value: i128) -> (text: String)
    ensures
        text@ == format_spec(number_type, value as int),
{
    let radix = number_type.radix();
    let digits = digits_of_magnitude(magnitude_of(value), radix);
    let mut text = String::new();
    if value < 0 {
        proof {
            reveal_strlit("-");
        }
        text.append("-");
    }
    let ghost sign = text@;
    let ghost whole = reversed_text(digits@);
    let mut left = digits.len();
    assert(whole.take(0) =~= Seq::<char>::empty());
    while left > 0
        invariant
            left <= digits.len(),
            forall|i: int| 0 <= i < digits.len() ==> digits[i] < 16,
            whole == reversed_text(digits@),
            text@ == sign + whole.take(digits.len() - left),
        decreases left,
    {
        left -= 1;
        text.append(digit_text(digits[left]));
        assert(whole.take(digits.len() - left) =~= whole.take(digits.len() - left - 1).push(
            digit_char(digits[left as int] as nat),
        ));
    }
    assert(whole.take(digits.len() as int) =~= whole);
    assert(sign =~= if value < 0 {
        seq!['-']
    } else {
        Seq::<char>::empty()
    });
    text
}

} // verus!
