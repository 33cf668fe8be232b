//! The closed set of ways in which reading a literal can fail.

use vstd::prelude::*;

verus! {

/// Why a literal could not be read.
#[derive(Copy, Clone, Debug, PartialEq, Eq, Structural)]
pub enum NumberFormatterError {
    /// A failure that none of the other kinds describes. Reading never
    /// produces it; it is kept so that callers can match exhaustively.
    Unknown,
    /// No characters are left once the base prefix has been removed.
    Empty,
    /// The value lies above the largest `i128`.
    TooLargeError,
    /// The value lies below the smallest `i128`.
    TooSmallError,
    /// A character is not a digit of the base, or a sign stands alone.
    InvalidDigit,
}

impl NumberFormatterError {
    /// The message shown to a user for this kind of failure.
    pub open spec fn spec_message(self) -> Seq<char> {
        match self {
            NumberFormatterError::Unknown => "Unknown error occurred"@,
            NumberFormatterError::Empty => "No value was entered"@,
            NumberFormatterError::TooLargeError => "Number too large"@,
            NumberFormatterError::TooSmallError => "Number too small"@,
            NumberFormatterError::InvalidDigit => "Number contains an invalid digit"@,
        }
    }

    /// The message shown to a user for this kind of failure.
    pub fn message(&self) -> (s: &'static str)
        ensures
            s@ == self.spec_message(),
    {
        match self {
            NumberFormatterError::Unknown => "Unknown error occurred",
            NumberFormatterError::Empty => "No value was entered",
            NumberFormatterError::TooLargeError => "Number too large",
            NumberFormatterError::TooSmallError => "Number too small",
            NumberFormatterError::InvalidDigit => "Number contains an invalid digit",
        }
    }
}

} // verus!
