//! One reader and writer per base, and the selection of the one that
//! belongs to a base.

use crate::error::NumberFormatterError;
use crate::number_type::NumberType;
use crate::reader::{read_number, read_spec};
use crate::writer::{format_number, format_spec};
use vstd::prelude::*;

verus! {

/// Reads and writes numbers in one base.
pub trait NumberFormatter {
    /// The base that this formatter reads and writes.
    spec fn number_type(&self) -> NumberType;

    /// Reads `num` as a literal of this formatter's base.
    fn read(&self, num: &str) -> (r: Result<i128, NumberFormatterError>)
        ensures
            r == read_spec(self.number_type(), num@),
    ;

    /// Writes `num` in this formatter's base. Writing never fails.
    fn format(&self, num: i128) -> (r: Result<String, NumberFormatterError>)
        ensures
            r matches Ok(text) && text@ == format_spec(self.number_type(), num as int),
    ;
}

/// The formatter for decimal integers.
pub struct IntegerNumberFormatter;

impl NumberFormatter for IntegerNumberFormatter {
    open spec fn number_type(&self) -> NumberType {
        NumberType::Integer
    }

    fn read(&self, integer: &str) -> (r: Result<i128, NumberFormatterError>) {
        read_number(NumberType::Integer, integer)
    }

    fn format(&self, num: i128) -> (r: Result<String, NumberFormatterError>) {
        Ok(format_number(NumberType::Integer, num))
    }
}

/// The formatter for hexadecimal numbers.
pub struct HexadecimalNumberFormatter;

impl NumberFormatter for HexadecimalNumberFormatter {
    open spec fn number_type(&self) -> NumberType {
        NumberType::Hexadecimal
    }

    fn read(&self, hexadecimal: &str) -> (r: Result<i128, NumberFormatterError>) {
        read_number(NumberType::Hexadecimal, hexadecimal)
    }

    fn format(&self, num: i128) -> (r: Result<String, NumberFormatterError>) {
        Ok(format_number(NumberType::Hexadecimal, num))
    }
}

/// The formatter for binary numbers.
pub struct BinaryNumberFormatter;

impl NumberFormatter for BinaryNumberFormatter {
    open spec fn number_type(&self) -> NumberType {
        NumberType::Binary
    }

    fn read(&self, binary_num: &str) -> (r: Result<i128, NumberFormatterError>) {
        read_number(NumberType::Binary, binary_num)
    }

    fn format(&self, num: i128) -> (r: Result<String, NumberFormatterError>) {
        Ok(format_number(NumberType::Binary, num))
    }
}

/// The formatter of one of the supported bases, chosen at run time.
pub enum SelectedFormatter {
    Integer(IntegerNumberFormatter),
    Hexadecimal(HexadecimalNumberFormatter),
    Binary(BinaryNumberFormatter),
}

impl NumberFormatter for SelectedFormatter {
    open spec fn number_type(&self) -> NumberType {
        match self {
            SelectedFormatter::Integer(f) => f.number_type(),
            SelectedFormatter::Hexadecimal(f) => f.number_type(),
            SelectedFormatter::Binary(f) => f.number_type(),
        }
    }

    fn read(&self, num: &str) -> (r: Result<i128, NumberFormatterError>) {
        match self {
            SelectedFormatter::Integer(f) => f.read(num),
            SelectedFormatter::Hexadecimal(f) => f.read(num),
            SelectedFormatter::Binary(f) => f.read(num),
        }
    }

    fn format(&self, num: i128) -> (r: Result<String, NumberFormatterError>) {
        match self {
            SelectedFormatter::Integer(f) => f.format(num),
            SelectedFormatter::Hexadecimal(f) => f.format(num),
            SelectedFormatter::Binary(f) => f.format(num),
        }
    }
}

/// Selects formatters by base.
pub struct NumberFormatterFactory;

impl NumberFormatterFactory {
    /// The formatter of the given base.
    pub fn new_number_formatter(number_type: &NumberType) -> (formatter: SelectedFormatter)
        ensures
            formatter.number_type() == *number_type,
            formatter == match *number_type {
                NumberType::Integer => SelectedFormatter::Integer(IntegerNumberFormatter),
                NumberType::Hexadecimal => SelectedFormatter::Hexadecimal(
                    HexadecimalNumberFormatter,
                ),
                NumberType::Binary => SelectedFormatter::Binary(BinaryNumberFormatter),
            },
    {
        match number_type {
            NumberType::Integer => SelectedFormatter::Integer(IntegerNumberFormatter {  }),
            NumberType::Hexadecimal => SelectedFormatter::Hexadecimal(
                HexadecimalNumberFormatter {  },
            ),
            NumberType::Binary => SelectedFormatter::Binary(BinaryNumberFormatter {  }),
        }
    }
}

} // verus!
