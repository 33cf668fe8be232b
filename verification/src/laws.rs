//! What holds of reading, writing and converting, for every input.

use crate::command::{convert_spec, entries_view, format_all_spec, outcome_view, Entry};
use crate::digits::{all_digits, digits_value, is_digit, lemma_magnitude_text_value, magnitude_text};
use crate::error::NumberFormatterError;
use crate::number_type::{all_number_types, NumberType};
use crate::reader::{digits_of, has_prefix, read_spec, strip_prefix};
use crate::writer::format_spec;
use vstd::prelude::*;

verus! {

/// Reading what was written gives the value back: in every base and for
/// every `i128`, negative ones included, the text of a value reads as that
/// value.
pub proof fn lemma_read_format_round_trip(number_type: NumberType, value: i128)
    ensures
        read_spec(number_type, format_spec(number_type, value as int)) == Ok::<
            i128,
            NumberFormatterError,
        >(value),
{
    let radix = number_type.spec_radix();
    let magnitude: nat = if value < 0 {
        (-value) as nat
    } else {
        value as nat
    };
    let digits = magnitude_text(magnitude, radix);
    let text = format_spec(number_type, value as int);
    lemma_magnitude_text_value(magnitude, radix);
    assert(is_digit(digits[0], radix));
    if value < 0 {
        assert(text[0] == '-');
        assert(!has_prefix(number_type, text));
        assert(digits_of(text) =~= digits);
    } else {
        assert(text == digits);
        if text.len() >= 2 {
            assert(is_digit(digits[1], radix));
        }
        assert(!has_prefix(number_type, text));
        assert(digits_of(text) == digits);
    }
    assert(strip_prefix(number_type, text) == text);
}

/// The prefix is optional on reading: the text of a value with the prefix
/// of its base put before it reads as that value too.
pub proof fn lemma_read_prefixed_format_round_trip(
    number_type: NumberType,
    value: i128,
    prefix: Seq<char>,
)
    requires
        prefix.len() == 2,
        has_prefix(number_type, prefix),
    ensures
        read_spec(number_type, prefix + format_spec(number_type, value as int)) == Ok::<
            i128,
            NumberFormatterError,
        >(value),
{
    let text = format_spec(number_type, value as int);
    lemma_read_format_round_trip(number_type, value);
    lemma_format_has_no_prefix(number_type, value);
    assert(strip_prefix(number_type, text) == text);
    assert(has_prefix(number_type, prefix + text));
    assert(strip_prefix(number_type, prefix + text) =~= text);
}

/// Writing never gives a text that starts with the prefix of its base.
pub proof fn lemma_format_has_no_prefix(number_type: NumberType, value: i128)
    ensures
        !has_prefix(number_type, format_spec(number_type, value as int)),
        format_spec(number_type, value as int).len() >= 1,
{
    let radix = number_type.spec_radix();
    let magnitude: nat = if value < 0 {
        (-value) as nat
    } else {
        value as nat
    };
    let digits = magnitude_text(magnitude, radix);
    lemma_magnitude_text_value(magnitude, radix);
    if value >= 0 && digits.len() >= 2 {
        assert(is_digit(digits[1], radix));
    }
}

/// A conversion that succeeds reports every supported base once, in the
/// order `Integer`, `Hexadecimal`, `Binary`, whatever the base of the
/// literal.
pub proof fn lemma_conversion_order(number_type: NumberType, s: Seq<char>)
    requires
        convert_spec(number_type, s) is Ok,
    ensures
        convert_spec(number_type, s)->Ok_0.len() == 3,
        convert_spec(number_type, s)->Ok_0[0].0 == NumberType::Integer,
        convert_spec(number_type, s)->Ok_0[1].0 == NumberType::Hexadecimal,
        convert_spec(number_type, s)->Ok_0[2].0 == NumberType::Binary,
        forall|i: int|
            0 <= i < 3 ==> (#[trigger] convert_spec(number_type, s)->Ok_0[i]).0
                == all_number_types()[i],
{
}

/// The entry that a conversion reports for a base is the text of the value
/// read, written in that base; the entry of the literal's own base reads
/// back as the same value.
pub proof fn lemma_conversion_entries(number_type: NumberType, s: Seq<char>, target: NumberType)
    requires
        read_spec(number_type, s) is Ok,
    ensures
        convert_spec(number_type, s) is Ok,
        convert_spec(number_type, s)->Ok_0[target.rank()] == (
            target,
            format_spec(target, read_spec(number_type, s)->Ok_0 as int),
        ),
        read_spec(target, convert_spec(number_type, s)->Ok_0[target.rank()].1) == read_spec(
            number_type,
            s,
        ),
{
    let value = read_spec(number_type, s)->Ok_0;
    assert(format_all_spec(value as int)[target.rank()] == (
        target,
        format_spec(target, value as int),
    ));
    lemma_read_format_round_trip(target, value);
}

/// Reading classifies every failure: it never reports `Unknown`.
pub proof fn lemma_read_never_unknown(number_type: NumberType, s: Seq<char>)
    ensures
        read_spec(number_type, s) != Err::<i128, NumberFormatterError>(
            NumberFormatterError::Unknown,
        ),
        convert_spec(number_type, s) != Err::<
            Seq<(NumberType, Seq<char>)>,
            NumberFormatterError,
        >(NumberFormatterError::Unknown),
{
}

/// A literal that is empty, or empty once its prefix is removed, is
/// rejected as `Empty` in every base.
pub proof fn lemma_empty_is_rejected(number_type: NumberType, s: Seq<char>)
    requires
        strip_prefix(number_type, s).len() == 0,
    ensures
        read_spec(number_type, s) == Err::<i128, NumberFormatterError>(NumberFormatterError::Empty),
        convert_spec(number_type, s) == Err::<
            Seq<(NumberType, Seq<char>)>,
            NumberFormatterError,
        >(NumberFormatterError::Empty),
        read_spec(number_type, Seq::<char>::empty()) == Err::<i128, NumberFormatterError>(
            NumberFormatterError::Empty,
        ),
{
}

/// A literal with a character that is no digit of its base, at any place
/// after the prefix and the sign, is rejected as `InvalidDigit`.
pub proof fn lemma_invalid_digit_is_rejected(number_type: NumberType, s: Seq<char>, i: int)
    requires
        0 <= i < digits_of(strip_prefix(number_type, s)).len(),
        !is_digit(digits_of(strip_prefix(number_type, s))[i], number_type.spec_radix()),
    ensures
        read_spec(number_type, s) == Err::<i128, NumberFormatterError>(
            NumberFormatterError::InvalidDigit,
        ),
        convert_spec(number_type, s) == Err::<
            Seq<(NumberType, Seq<char>)>,
            NumberFormatterError,
        >(NumberFormatterError::InvalidDigit),
{
}

/// In every base, a run of digits that denotes more than the largest `i128`
/// is rejected as `TooLargeError`; with a minus sign before it, a run that
/// denotes more than the absolute value of the smallest `i128` is rejected
/// as `TooSmallError`.
pub proof fn lemma_out_of_range_is_rejected(number_type: NumberType, digits: Seq<char>)
    requires
        digits.len() > 0,
        all_digits(digits, number_type.spec_radix()),
    ensures
        digits_value(digits, number_type.spec_radix()) > i128::MAX ==> read_spec(
            number_type,
            digits,
        ) == Err::<i128, NumberFormatterError>(NumberFormatterError::TooLargeError),
        digits_value(digits, number_type.spec_radix()) > -i128::MIN ==> read_spec(
            number_type,
            seq!['-'] + digits,
        ) == Err::<i128, NumberFormatterError>(NumberFormatterError::TooSmallError),
{
    let radix = number_type.spec_radix();
    let negative = seq!['-'] + digits;
    assert(is_digit(digits[0], radix));
    if digits.len() >= 2 {
        assert(is_digit(digits[1], radix));
    }
    assert(!has_prefix(number_type, digits));
    assert(negative[0] == '-');
    assert(!has_prefix(number_type, negative));
    assert(digits_of(digits) == digits);
    assert(digits_of(negative) =~= digits);
}

/// Converting is a function of the base and the literal alone: two
/// conversions of the same literal in the same base give the same outcome.
pub proof fn lemma_conversion_deterministic(
    number_type: NumberType,
    s: Seq<char>,
    first: Result<Vec<Entry>, NumberFormatterError>,
    second: Result<Vec<Entry>, NumberFormatterError>,
)
    requires
        outcome_view(first) == convert_spec(number_type, s),
        outcome_view(second) == convert_spec(number_type, s),
    ensures
        outcome_view(first) == outcome_view(second),
        first is Ok <==> second is Ok,
        first matches Ok(a) ==> second matches Ok(b) && a.len() == b.len() && forall|i: int|
            0 <= i < a.len() ==> a[i].0 == b[i].0 && a[i].1@ == b[i].1@,
        first matches Err(e) ==> second == Err::<Vec<Entry>, NumberFormatterError>(e),
{
    if let Ok(a) = first {
        let b = second->Ok_0;
        assert(entries_view(a@).len() == a@.len());
        assert(entries_view(b@).len() == b@.len());
        assert forall|i: int| 0 <= i < a.len() implies a[i].0 == b[i].0 && a[i].1@ == b[i].1@ by {
            let x = entries_view(a@)[i];
            let y = entries_view(b@)[i];
            assert(x == y);
        }
    }
}

} // verus!
