//! The capability of the types that count and measure.

use vstd::prelude::*;
use crate::array::Array;
use crate::num::bytes::{from_be_bytes, from_le_bytes};
use crate::num::number_like::NumberLike;
use crate::num::pattern::BitPattern;

verus! {

/// A number: a scalar of which every byte pattern is a value, with the
/// constants and the sign operations that integers and floats share.
pub trait Number: NumberLike {
    /// The number of the type that stands for the natural number `n`, for
    /// the numbers up to two.
    spec fn small(n: nat) -> Self;

    /// Whether the absolute value of the number is a value of the type. It
    /// is not for the least value of a signed integer.
    spec fn has_abs(self) -> bool;

    /// The absolute value of the number.
    spec fn abs_spec(self) -> Self;

    /// The sign of the number, as a number.
    spec fn signum_spec(self) -> Self;

    fn zero() -> (r: Self)
        ensures
            r == Self::small(0);

    fn one() -> (r: Self)
        ensures
            r == Self::small(1);

    fn two() -> (r: Self)
        ensures
            r == Self::small(2);

    /// The value whose bytes lie in memory as `bytes` do.
    fn from_bytes(bytes: Self::ByteArray) -> (r: Self)
        ensures
            r == Self::of_pattern(from_le_bytes(bytes.elems())) || r == Self::of_pattern(
                from_be_bytes(bytes.elems()),
            );

    fn from_be_bytes(bytes: Self::ByteArray) -> (r: Self)
        ensures
            r == Self::of_pattern(from_be_bytes(bytes.elems()));

    fn from_le_bytes(bytes: Self::ByteArray) -> (r: Self)
        ensures
            r == Self::of_pattern(from_le_bytes(bytes.elems()));

    /// The number that the bytes denote in the order of a machine that
    /// stores the least significant byte first, or of one that stores it
    /// last.
    fn from_bytes_in(bytes: Self::ByteArray, little_endian: bool) -> (r: Self)
        ensures
            r == Self::of_pattern(
                if little_endian {
                    from_le_bytes(bytes.elems())
                } else {
                    from_be_bytes(bytes.elems())
                },
            );

    /// The number that the bytes denote in the order of this machine: what
    /// `from_bytes_in` gives for that order.
    fn from_ne_bytes(bytes: Self::ByteArray) -> (r: Self)
        ensures
            r == Self::of_pattern(from_le_bytes(bytes.elems())) || r == Self::of_pattern(
                from_be_bytes(bytes.elems()),
            );

    fn abs(self) -> (r: Self)
        requires
            self.has_abs(),
        ensures
            r == self.abs_spec();

    fn signum(self) -> (r: Self)
        ensures
            r == self.signum_spec();
}

} // verus!
