//! Scalar values as bit patterns.

use vstd::prelude::*;
use crate::num::bytes::pow256;

verus! {

/// A type of fixed width whose values are told apart by their bit patterns.
///
/// A bit pattern is read as a natural number. Not every number below
/// `256^size` needs to be the pattern of a value: a boolean has two
/// patterns and a character leaves the surrogates out.
pub trait BitPattern: Copy + Sized {
    /// The number of bytes that hold a value.
    spec fn size() -> nat;

    /// The bit pattern of a value.
    spec fn pattern(self) -> nat;

    /// Whether a number is the bit pattern of a value.
    spec fn is_pattern(bits: nat) -> bool;

    /// The value with the given bit pattern.
    spec fn of_pattern(bits: nat) -> Self;

    /// A value has a pattern of its own, from which it is had back.
    proof fn pattern_of_value(self)
        ensures
            Self::is_pattern(self.pattern()),
            Self::of_pattern(self.pattern()) == self;

    /// A pattern fits the width, and the value made from it has that pattern.
    proof fn value_of_pattern(bits: nat)
        requires
            Self::is_pattern(bits),
        ensures
            bits < pow256(Self::size()),
            Self::of_pattern(bits).pattern() == bits;
}

/// The value that a bit pattern denotes, if it denotes one.
pub open spec fn decode<T: BitPattern>(bits: nat) -> Option<T> {
    if T::is_pattern(bits) {
        Some(T::of_pattern(bits))
    } else {
        None
    }
}

} // verus!
