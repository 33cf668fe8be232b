//! Digits and runs of digits in a radix between 2 and 16.

use vstd::prelude::*;

verus! {

/// The value of `c` as a digit: `0`-`9` count 0 to 9, `a`-`f` and `A`-`F`
/// count 10 to 15; no other character is a digit.
pub open spec fn digit_value(c: char) -> Option<nat> {
    let n = c as int;
    if '0' as int <= n <= '9' as int {
        Some((n - '0' as int) as nat)
    } else if 'a' as int <= n <= 'f' as int {
        Some((n - 'a' as int + 10) as nat)
    } else if 'A' as int <= n <= 'F' as int {
        Some((n - 'A' as int + 10) as nat)
    } else {
        None
    }
}

/// Whether `c` is a digit of the given radix.
pub open spec fn is_digit(c: char, radix: nat) -> bool {
    digit_value(c) matches Some(d) && d < radix
}

/// Whether every character of `s` is a digit of the given radix.
pub open spec fn all_digits(s: Seq<char>, radix: nat) -> bool {
    forall|i: int| 0 <= i < s.len() ==> is_digit(#[trigger] s[i], radix)
}

/// The number that the digits of `s` denote, most significant digit first.
pub open spec fn digits_value(s: Seq<char>, radix: nat) -> nat
    decreases s.len(),
{
    if s.len() == 0 {
        0
    } else {
        digits_value(s.drop_last(), radix) * radix + digit_value(s.last()).unwrap()
    }
}

/// The lower-case character that writes the digit `d`, for `d` below 16.
pub open spec fn digit_char(d: nat) -> char {
    if d < 10 {
        ('0' as int + d) as char
    } else {
        ('a' as int + d - 10) as char
    }
}

/// The digits of `n` in the given radix, most significant first, without
/// leading zeros; zero is written as the single digit `0`.
pub open spec fn magnitude_text(n: nat, radix: nat) -> Seq<char>
    decreases n,
{
    if radix < 2 || n < radix {
        seq![digit_char(n)]
    } else {
        proof {
            assert(n / radix < n) by (nonlinear_arith)
                requires
                    radix >= 2,
                    n >= radix,
            ;
        }
        magnitude_text(n / radix, radix).push(digit_char(n % radix))
    }
}

/// Writing a digit and reading it back gives the digit.
pub proof fn lemma_digit_char_value(d: nat, radix: nat)
    requires
        d < radix <= 16,
    ensures
        digit_value(digit_char(d)) == Some(d),
        is_digit(digit_char(d), radix),
        digit_char(d) != '-',
        digit_char(d) != '+',
{
}

/// Appending one digit multiplies the value by the radix and adds the digit.
pub proof fn lemma_digits_value_push(s: Seq<char>, c: char, radix: nat)
    ensures
        digits_value(s.push(c), radix) == digits_value(s, radix) * radix + digit_value(c).unwrap(),
{
    assert(s.push(c).drop_last() =~= s);
}

/// The text of a number consists of digits of the radix and denotes the
/// number.
pub proof fn lemma_magnitude_text_value(n: nat, radix: nat)
    requires
        2 <= radix <= 16,
    ensures
        magnitude_text(n, radix).len() >= 1,
        all_digits(magnitude_text(n, radix), radix),
        digits_value(magnitude_text(n, radix), radix) == n,
    decreases n,
{
    if n < radix {
        let s = seq![digit_char(n)];
        lemma_digit_char_value(n, radix);
        assert(s.drop_last() =~= Seq::<char>::empty());
        assert(digits_value(s.drop_last(), radix) == 0);
        assert(digits_value(s, radix) == 0 * radix + n);
    } else {
        let q = n / radix;
        let r = n % radix;
        assert(q < n && r < radix && q * radix + r == n) by (nonlinear_arith)
            requires
                n >= radix,
                radix >= 2,
                q == n / radix,
                r == n % radix,
        ;
        lemma_magnitude_text_value(q, radix);
        lemma_digit_char_value(r, radix);
        let head = magnitude_text(q, radix);
        lemma_digits_value_push(head, digit_char(r), radix);
        assert forall|i: int| 0 <= i < head.push(digit_char(r)).len() implies is_digit(
            #[trigger] head.push(digit_char(r))[i],
            radix,
        ) by {
            if i < head.len() {
                assert(head.push(digit_char(r))[i] == head[i]);
            }
        }
    }
}

} // verus!
