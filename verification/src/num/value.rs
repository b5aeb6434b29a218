//! Integers as mathematical values.

use vstd::prelude::*;
use vstd::arithmetic::power2::pow2;
use crate::num::arith::{clamp, wrap};
use crate::num::pattern::BitPattern;

verus! {

/// A type whose values are the integers of a range.
pub trait IntegerValue: BitPattern {
    /// The mathematical value.
    spec fn value(self) -> int;

    /// The integer of the type with the given value.
    spec fn from_value(i: int) -> Self;

    /// The least value of the type.
    spec fn lower_bound() -> int;

    /// The greatest value of the type.
    spec fn upper_bound() -> int;

    /// The number of bits of the type.
    spec fn width() -> nat;

    /// The value of an integer fits its type and tells the integer.
    proof fn value_fits(self)
        ensures
            Self::lower_bound() <= self.value() <= Self::upper_bound(),
            Self::from_value(self.value()) == self;

    /// Every value that fits is the value of an integer of the type.
    proof fn value_of_fitting(i: int)
        requires
            Self::lower_bound() <= i <= Self::upper_bound(),
        ensures
            Self::from_value(i).value() == i;

    /// The bit pattern of an integer is its value in two's complement: the
    /// value itself where that is not negative, else the value plus the
    /// number of values.
    proof fn twos_complement(self)
        ensures
            Self::lower_bound() <= 0 < Self::upper_bound(),
            Self::upper_bound() - Self::lower_bound() + 1 == pow2(Self::width()),
            0 < Self::width() <= 128,
            self.pattern() == if self.value() < 0 {
                self.value() + (Self::upper_bound() - Self::lower_bound() + 1)
            } else {
                self.value()
            };
}

/// Whether `i` is the value of an integer of the type.
pub open spec fn fits<T: IntegerValue>(i: int) -> bool {
    T::lower_bound() <= i <= T::upper_bound()
}

/// The number of values of the type.
pub open spec fn modulus<T: IntegerValue>() -> int {
    T::upper_bound() - T::lower_bound() + 1
}

/// `i` if it fits.
pub open spec fn checked<T: IntegerValue>(i: int) -> Option<T> {
    if fits::<T>(i) {
        Some(T::from_value(i))
    } else {
        None
    }
}

/// `i` reduced modulo the number of values of the type.
pub open spec fn wrapped<T: IntegerValue>(i: int) -> T {
    T::from_value(wrap(T::lower_bound(), T::upper_bound(), i))
}

/// `i`, or the bound of the type on the side where `i` lies outside.
pub open spec fn saturated<T: IntegerValue>(i: int) -> T {
    T::from_value(clamp(T::lower_bound(), T::upper_bound(), i))
}

/// `i` wrapped, with the mark of an `i` that does not fit.
pub open spec fn overflowing<T: IntegerValue>(i: int) -> (T, bool) {
    (wrapped::<T>(i), !fits::<T>(i))
}

/// The value that a bit pattern has when its top bit counts as the sign.
pub open spec fn signed_value<T: IntegerValue>(bits: nat) -> int {
    if 2 * bits >= modulus::<T>() {
        bits - modulus::<T>()
    } else {
        bits as int
    }
}

/// `x` with its pattern moved up by `n` places, without what leaves at the
/// top.
pub open spec fn shifted_left<T: IntegerValue>(x: T, n: nat) -> T {
    T::of_pattern((x.pattern() * pow2(n)) % pow2(T::width()))
}

/// `x` with its pattern moved down by `n` places, the sign entering at the
/// top: the value divided by two to the power of `n`, rounded down.
pub open spec fn shifted_right<T: IntegerValue>(x: T, n: nat) -> T {
    T::from_value(x.value() / (pow2(n) as int))
}

/// `x` with its bytes in the opposite order.
pub open spec fn byte_swapped<T: IntegerValue>(x: T) -> T {
    T::of_pattern(
        crate::num::bytes::from_be_bytes(crate::num::bytes::le_bytes(x.pattern(), T::size())),
    )
}

} // verus!
