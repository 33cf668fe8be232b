//! Reading a literal of a given base into an `i128`.

use crate::digits::{all_digits, digit_value, digits_value, is_digit, lemma_digits_value_push};
use crate::error::NumberFormatterError;
use crate::number_type::NumberType;
use vstd::prelude::*;
use vstd::string::StringSliceAdditionalSpecFns;

verus! {

// The ASCII codes of the characters that a literal is made of.
const ZERO: u8 = 0x30;

const NINE: u8 = 0x39;

const LOWER_A: u8 = 0x61;

const LOWER_F: u8 = 0x66;

const UPPER_A: u8 = 0x41;

const UPPER_F: u8 = 0x46;

const LOWER_X: u8 = 0x78;

const UPPER_X: u8 = 0x58;

const LOWER_B: u8 = 0x62;

const MINUS: u8 = 0x2d;

const PLUS: u8 = 0x2b;

/// Whether `s` starts with the prefix of the base: `0x` or `0X` for
/// hexadecimal, `0b` for binary. Decimal literals have no prefix.
pub open spec fn has_prefix(number_type: NumberType, s: Seq<char>) -> bool {
    &&& s.len() >= 2
    &&& s[0] == '0'
    &&& match number_type {
        NumberType::Integer => false,
        NumberType::Hexadecimal => s[1] == 'x' || s[1] == 'X',
        NumberType::Binary => s[1] == 'b',
    }
}

/// The literal without the prefix of its base. At most one prefix is removed.
pub open spec fn strip_prefix(number_type: NumberType, s: Seq<char>) -> Seq<char> {
    if has_prefix(number_type, s) {
        s.subrange(2, s.len() as int)
    } else {
        s
    }
}

/// Whether `body` starts with a sign.
pub open spec fn has_sign(body: Seq<char>) -> bool {
    body.len() > 0 && (body[0] == '-' || body[0] == '+')
}

/// The part of `body` after its sign, if it has one.
pub open spec fn digits_of(body: Seq<char>) -> Seq<char> {
    if has_sign(body) {
        body.subrange(1, body.len() as int)
    } else {
        body
    }
}

/// The integer that an optionally signed run of digits denotes.
pub open spec fn signed_value(body: Seq<char>, radix: nat) -> int {
    let magnitude = digits_value(digits_of(body), radix) as int;
    if body.len() > 0 && body[0] == '-' {
        -magnitude
    } else {
        magnitude
    }
}

/// What reading the text after the prefix gives: an optional sign, then at
/// least one digit and nothing but digits, and a value that an `i128` holds.
pub open spec fn read_body(body: Seq<char>, radix: nat) -> Result<i128, NumberFormatterError> {
    if body.len() == 0 {
        Err(NumberFormatterError::Empty)
    } else if digits_of(body).len() == 0 || !all_digits(digits_of(body), radix) {
        Err(NumberFormatterError::InvalidDigit)
    } else if signed_value(body, radix) > i128::MAX {
        Err(NumberFormatterError::TooLargeError)
    } else if signed_value(body, radix) < i128::MIN {
        Err(NumberFormatterError::TooSmallError)
    } else {
        Ok(signed_value(body, radix) as i128)
    }
}

/// What reading `s` as a literal of the given base gives.
pub open spec fn read_spec(number_type: NumberType, s: Seq<char>) -> Result<
    i128,
    NumberFormatterError,
> {
    read_body(strip_prefix(number_type, s), number_type.spec_radix())
}

/// A literal that holds a character outside ASCII holds a character that
/// is no digit, whatever its prefix and sign.
pub proof fn lemma_non_ascii_is_invalid(number_type: NumberType, s: Seq<char>)
    requires
        !vstd::utf8::is_ascii_chars(s),
    ensures
        read_spec(number_type, s) == Err::<i128, NumberFormatterError>(
            NumberFormatterError::InvalidDigit,
        ),
{
    let i = choose|i: int| 0 <= i < s.len() && !('\0' <= #[trigger] s[i] <= '\u{7f}');
    let body = strip_prefix(number_type, s);
    let skipped = s.len() - body.len();
    assert(skipped <= i);
    assert(body[i - skipped] == s[i]);
    let digits = digits_of(body);
    let signed = body.len() - digits.len();
    assert(signed <= i - skipped);
    assert(digits[i - skipped - signed] == s[i]);
    assert(!is_digit(digits[i - skipped - signed], number_type.spec_radix()));
}

/// The value of the byte `b` as a digit of the given radix, if it is one.
pub fn digit_of_byte(b: u8, radix: u32) -> (r: Option<u8>)
    ensures
        r is Some <==> is_digit(b as char, radix as nat),
        r matches Some(d) ==> digit_value(b as char) == Some(d as nat),
{
    let d: u8 = if ZERO <= b && b <= NINE {
        b - ZERO
    } else if LOWER_A <= b && b <= LOWER_F {
        b - LOWER_A + 10
    } else if UPPER_A <= b && b <= UPPER_F {
        b - UPPER_A + 10
    } else {
        return None;
    };
    if (d as u32) < radix {
        Some(d)
    } else {
        None
    }
}

/// The number of bytes that the prefix of the base takes at the start of
/// `bytes`: 2 where it is there, else 0.
fn prefix_len(number_type: NumberType, bytes: &[u8], Ghost(s): Ghost<Seq<char>>) -> (k: usize)
    requires
        s.len() == bytes.len(),
        forall|i: int| 0 <= i < s.len() ==> s[i] == bytes[i] as char,
    ensures
        k == s.len() - strip_prefix(number_type, s).len(),
        k == 0 || k == 2,
        k <= bytes.len(),
{
    if bytes.len() < 2 || bytes[0] != ZERO {
        return 0;
    }
    let marked = match number_type {
        NumberType::Integer => false,
        NumberType::Hexadecimal => bytes[1] == LOWER_X || bytes[1] == UPPER_X,
        NumberType::Binary => bytes[1] == LOWER_B,
    };
    if marked {
        2
    } else {
        0
    }
}

/// Reads `text` as a literal of the given base.
///
/// The prefix of the base is removed if it is there. What is left must be
/// an optional sign followed by digits of the base. The error says what is
/// wrong: `Empty` where nothing is left, `InvalidDigit` where a character is
/// no digit or a sign stands alone, `TooLargeError` and `TooSmallError`
/// where the digits denote a value that no `i128` holds.
pub fn read_number(number_type: NumberType, text: &str) -> (r: Result<i128, NumberFormatterError>)
    ensures
        r == read_spec(number_type, text@),
{
    let ghost s = text@;
    let ghost radix_nat = number_type.spec_radix();
    if !text.is_ascii() {
        proof {
            lemma_non_ascii_is_invalid(number_type, s);
        }
        return Err(NumberFormatterError::InvalidDigit);
    }
    let bytes = text.as_bytes();
    proof {
        vstd::string::is_ascii_spec_bytes(text);
        assert(bytes@ =~= text.spec_bytes());
        assert forall|i: int| 0 <= i < s.len() implies s[i] == bytes[i] as char by {
            assert('\0' <= s[i] <= '\u{7f}');
        }
    }
    let n = bytes.len();
    let start = prefix_len(number_type, bytes, Ghost(s));
    let ghost body = strip_prefix(number_type, s);
    assert(body =~= s.subrange(start as int, n as int));
    if start == n {
        return Err(NumberFormatterError::Empty);
    }
    let negative = bytes[start] == MINUS;
    let signed = negative || bytes[start] == PLUS;
    let first: usize = if signed {
        start + 1
    } else {
        start
    };
    let ghost digits = digits_of(body);
    assert(digits =~= s.subrange(first as int, n as int));
    if first == n {
        return Err(NumberFormatterError::InvalidDigit);
    }
    let radix = number_type.radix();
    let limit: u128 = if negative {
        0x8000_0000_0000_0000_0000_0000_0000_0000
    } else {
        0x7fff_ffff_ffff_ffff_ffff_ffff_ffff_ffff
    };
    let mut magnitude: u128 = 0;
    let mut exceeded = false;
    let mut i = first;
    assert(digits.take(0) =~= Seq::<char>::empty());
    while i < n
        invariant
            first <= i <= n,
            n == bytes.len(),
            s.len() == n,
            forall|j: int| 0 <= j < s.len() ==> s[j] == bytes[j] as char,
            s == text@,
            body == strip_prefix(number_type, s),
            body.len() > 0,
            digits == digits_of(body),
            digits == s.subrange(first as int, n as int),
            radix_nat == number_type.spec_radix(),
            radix == radix_nat,
            2 <= radix <= 16,
            limit <= 0x8000_0000_0000_0000_0000_0000_0000_0000,
            all_digits(digits.take(i - first), radix_nat),
            !exceeded ==> magnitude == digits_value(digits.take(i - first), radix_nat),
            !exceeded ==> magnitude <= limit,
            exceeded ==> digits_value(digits.take(i - first), radix_nat) > limit,
        decreases n - i,
    {
        let ghost seen = digits.take(i - first);
        let ghost c = digits[i - first];
        assert(c == s[i as int]);
        assert(digits.take(i - first + 1) =~= seen.push(c));
        proof {
            lemma_digits_value_push(seen, c, radix_nat);
        }
        match digit_of_byte(bytes[i], radix) {
            None => {
                assert(!is_digit(digits[i - first], radix_nat));
                return Err(NumberFormatterError::InvalidDigit);
            },
            Some(d) => {
                assert(all_digits(seen.push(c), radix_nat)) by {
                    assert forall|j: int| 0 <= j < seen.push(c).len() implies is_digit(
                        #[trigger] seen.push(c)[j],
                        radix_nat,
                    ) by {
                        if j < seen.len() {
                            assert(seen.push(c)[j] == seen[j]);
                        }
                    }
                }
                if exceeded {
                    assert(digits_value(seen, radix_nat) * radix_nat >= digits_value(
                        seen,
                        radix_nat,
                    )) by (nonlinear_arith)
                        requires
                            radix_nat >= 1,
                    ;
                } else {
                    let scaled = magnitude.checked_mul(radix as u128);
                    let next = match scaled {
                        Some(m) => m.checked_add(d as u128),
                        None => None,
                    };
                    match next {
                        Some(v) => {
                            if v <= limit {
                                magnitude = v;
                            } else {
                                exceeded = true;
                            }
                        },
                        None => {
                            exceeded = true;
                        },
                    }
                }
            },
        }
        i += 1;
    }
    assert(digits.take(n - first) =~= digits);
    if exceeded {
        if negative {
            Err(NumberFormatterError::TooSmallError)
        } else {
            Err(NumberFormatterError::TooLargeError)
        }
    } else if negative {
        if magnitude == 0x8000_0000_0000_0000_0000_0000_0000_0000 {
            Ok(i128::MIN)
        } else {
            Ok(-(magnitude as i128))
        }
    } else {
        Ok(magnitude as i128)
    }
}

} // verus!
