//! The supported bases and their fixed order.

use core::cmp::Ordering;
use vstd::prelude::*;
use vstd::std_specs::cmp::PartialOrdSpecImpl;
use vstd::std_specs::iter::IteratorSpec;

verus! {

/// A supported number representation. The declaration order is the order in
/// which conversions are reported: `Integer`, `Hexadecimal`, `Binary`.
#[derive(Copy, Clone, Debug, Hash, PartialEq, Eq, Ord, Structural)]
pub enum NumberType {
    Integer,
    Hexadecimal,
    Binary,
}

/// The supported bases in reporting order.
pub const NUMBER_TYPES: [NumberType; 3] = [
    NumberType::Integer,
    NumberType::Hexadecimal,
    NumberType::Binary,
];

/// The supported bases in reporting order, as a mathematical sequence.
pub open spec fn all_number_types() -> Seq<NumberType> {
    seq![NumberType::Integer, NumberType::Hexadecimal, NumberType::Binary]
}

impl NumberType {
    /// The radix of the positional system that this base stands for.
    pub open spec fn spec_radix(self) -> nat {
        match self {
            NumberType::Integer => 10,
            NumberType::Hexadecimal => 16,
            NumberType::Binary => 2,
        }
    }

    /// The position of this base in the reporting order.
    pub open spec fn rank(self) -> int {
        match self {
            NumberType::Integer => 0,
            NumberType::Hexadecimal => 1,
            NumberType::Binary => 2,
        }
    }

    /// The display name of this base.
    pub open spec fn spec_name(self) -> Seq<char> {
        match self {
            NumberType::Integer => "Integer"@,
            NumberType::Hexadecimal => "Hexadecimal"@,
            NumberType::Binary => "Binary"@,
        }
    }

    /// Iterates over every supported base exactly once, in reporting order.
    pub fn iter() -> (it: std::slice::Iter<'static, NumberType>)
        ensures
            it.remaining().unref() == all_number_types(),
            IteratorSpec::decrease(&it) is Some,
            IteratorSpec::initial_value_relation(&it, &it),
    {
        let it = NUMBER_TYPES.iter();
        assert(NUMBER_TYPES@ =~= all_number_types());
        it
    }

    /// The radix of this base: 10, 16 or 2.
    pub fn radix(&self) -> (r: u32)
        ensures
            r == self.spec_radix(),
    {
        match self {
            NumberType::Integer => 10,
            NumberType::Hexadecimal => 16,
            NumberType::Binary => 2,
        }
    }

    /// The position of this base in the reporting order: 0, 1 or 2.
    pub fn position(&self) -> (r: u8)
        ensures
            r == self.rank(),
    {
        match self {
            NumberType::Integer => 0,
            NumberType::Hexadecimal => 1,
            NumberType::Binary => 2,
        }
    }

    /// The display name of this base: `Integer`, `Hexadecimal` or `Binary`.
    pub fn name(&self) -> (s: &'static str)
        ensures
            s@ == self.spec_name(),
    {
        match self {
            NumberType::Integer => "Integer",
            NumberType::Hexadecimal => "Hexadecimal",
            NumberType::Binary => "Binary",
        }
    }
}

/// Bases compare as their ranks do: `Integer < Hexadecimal < Binary`.
impl PartialOrd for NumberType {
    fn partial_cmp(&self, other: &Self) -> (r: Option<Ordering>) {
        let a = self.position();
        let b = other.position();
        if a < b {
            Some(Ordering::Less)
        } else if a == b {
            Some(Ordering::Equal)
        } else {
            Some(Ordering::Greater)
        }
    }
}

impl PartialOrdSpecImpl for NumberType {
    open spec fn obeys_partial_cmp_spec() -> bool {
        true
    }

    open spec fn partial_cmp_spec(&self, other: &Self) -> Option<Ordering> {
        if self.rank() < other.rank() {
            Some(Ordering::Less)
        } else if self.rank() == other.rank() {
            Some(Ordering::Equal)
        } else {
            Some(Ordering::Greater)
        }
    }
}

/// Every base occurs in `all_number_types` at its rank, so the sequence is
/// exhaustive and free of repetition.
pub proof fn lemma_all_number_types_exhaustive(t: NumberType)
    ensures
        0 <= t.rank() < all_number_types().len(),
        all_number_types()[t.rank()] == t,
        forall|i: int|
            0 <= i < all_number_types().len() && all_number_types()[i] == t ==> i == t.rank(),
{
}

} // verus!
