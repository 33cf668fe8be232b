use format_number::{NumberFormatterError, NumberType};

#[test]
fn iter_yields_every_base_once_in_order() {
    let all: Vec<NumberType> = NumberType::iter().copied().collect();
    assert_eq!(all, vec![NumberType::Integer, NumberType::Hexadecimal, NumberType::Binary]);
}

#[test]
fn iter_starts_afresh_on_every_call() {
    let mut first = NumberType::iter();
    assert_eq!(first.next(), Some(&NumberType::Integer));
    let second: Vec<NumberType> = NumberType::iter().copied().collect();
    assert_eq!(second.len(), 3);
    assert_eq!(first.next(), Some(&NumberType::Hexadecimal));
    assert_eq!(first.next(), Some(&NumberType::Binary));
    assert_eq!(first.next(), None);
}

#[test]
fn bases_are_ordered_as_they_are_reported() {
    assert!(NumberType::Integer < NumberType::Hexadecimal);
    assert!(NumberType::Hexadecimal < NumberType::Binary);
    let mut shuffled = vec![NumberType::Binary, NumberType::Integer, NumberType::Hexadecimal];
    shuffled.sort();
    let all: Vec<NumberType> = NumberType::iter().copied().collect();
    assert_eq!(shuffled, all);
}

#[test]
fn radix_of_each_base() {
    assert_eq!(NumberType::Integer.radix(), 10);
    assert_eq!(NumberType::Hexadecimal.radix(), 16);
    assert_eq!(NumberType::Binary.radix(), 2);
}

#[test]
fn name_of_each_base() {
    assert_eq!(NumberType::Integer.name(), "Integer");
    assert_eq!(NumberType::Hexadecimal.name(), "Hexadecimal");
    assert_eq!(NumberType::Binary.name(), "Binary");
}

#[test]
fn message_of_each_error() {
    assert_eq!(NumberFormatterError::Unknown.message(), "Unknown error occurred");
    assert_eq!(NumberFormatterError::Empty.message(), "No value was entered");
    assert_eq!(NumberFormatterError::TooLargeError.message(), "Number too large");
    assert_eq!(NumberFormatterError::TooSmallError.message(), "Number too small");
    assert_eq!(NumberFormatterError::InvalidDigit.message(), "Number contains an invalid digit");
}

#[test]
fn position_is_the_place_in_the_order() {
    let mut expected: u8 = 0;
    for number_type in NumberType::iter() {
        assert_eq!(number_type.position(), expected);
        expected += 1;
    }
    assert_eq!(expected, 3);
}

#[test]
fn comparison_agrees_with_the_total_order() {
    for a in NumberType::iter() {
        for b in NumberType::iter() {
            assert_eq!(a.partial_cmp(b), Some(a.cmp(b)));
            assert_eq!(a < b, a.position() < b.position());
            assert_eq!(a == b, a.position() == b.position());
        }
    }
}
