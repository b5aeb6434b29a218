//! The capability of the floating-point types.

use vstd::prelude::*;
use core::cmp::Ordering;
use core::num::FpCategory;
use crate::num::format::{
    clamped, epsilon_bits, exponent_bias, infinity_bits, is_finite, is_infinite, is_nan, is_normal,
    is_subnormal, is_zero, less_than, magnitude_bits, maximum, minimum, nan_bits, next_down,
    next_up, one_bits, order_key, sign_negative, with_sign, FloatFormat,
};
use crate::num::number::Number;
use crate::num::number_like::NumberLike;
use crate::num::pattern::BitPattern;

verus! {

/// `core::num::FpCategory`: the five classes of a float, as the standard
/// library names them.
#[verifier::external_type_specification]
pub struct ExFpCategory(FpCategory);

/// The class of a float.
pub open spec fn category<T: FloatFormat>(x: T) -> FpCategory {
    if is_nan(x) {
        FpCategory::Nan
    } else if is_infinite(x) {
        FpCategory::Infinite
    } else if is_zero(x) {
        FpCategory::Zero
    } else if is_subnormal(x) {
        FpCategory::Subnormal
    } else {
        FpCategory::Normal
    }
}

/// How two places in an order lie to each other.
pub open spec fn ordering(a: int, b: int) -> Ordering {
    if a < b {
        Ordering::Less
    } else if a == b {
        Ordering::Equal
    } else {
        Ordering::Greater
    }
}

/// A binary floating-point number, with the operations that depend on
/// nothing but its bit pattern: classification, sign, neighbours, choice
/// between two floats, and the total order.
pub trait Float: Number + FloatFormat {
    /// The unsigned integer type that holds the bit pattern.
    type Bits: Number;

    /// The number of decimal digits that a float keeps.
    spec fn decimal_digits() -> nat;

    /// The least and the greatest power of ten that is a normal float.
    spec fn decimal_exponents() -> (int, int);

    /// The bounds and the numbers of the type are the floats that their
    /// names say, and the type of the bits has a value for every pattern.
    proof fn constants()
        ensures
            Self::least().pattern() == infinity_bits::<Self>() + Self::sign_bit(),
            Self::greatest().pattern() == infinity_bits::<Self>(),
            Self::small(0).pattern() == 0,
            Self::small(1).pattern() == one_bits::<Self>(),
            Self::small(2).pattern() == Self::sign_bit() / 2,
            Self::Bits::size() == Self::size(),
            forall|bits: nat| Self::is_pattern(bits) ==> Self::Bits::is_pattern(bits);

    /// The absolute value of a float is the float without its sign bit. The
    /// sign of a float is one with the sign bit of the float, and the NaN
    /// without a payload for a NaN.
    proof fn abs_and_sign(self)
        ensures
            self.has_abs(),
            self.abs_spec() == with_sign::<Self>(magnitude_bits(self), false),
            self.signum_spec() == if is_nan(self) {
                Self::of_pattern(nan_bits::<Self>())
            } else {
                with_sign::<Self>(one_bits::<Self>(), sign_negative(self))
            };

    fn radix() -> (r: u32)
        ensures
            r == 2;

    /// The number of significant bits, the hidden one included.
    fn mantissa_digits() -> (r: u32)
        ensures
            r == Self::fraction_width() + 1;

    fn digits() -> (r: u32)
        ensures
            r == Self::decimal_digits();

    /// The distance between one and the next float above it.
    fn epsilon() -> (r: Self)
        ensures
            r == Self::of_pattern(epsilon_bits::<Self>());

    /// The least finite float.
    fn min_finite() -> (r: Self)
        ensures
            r == with_sign::<Self>((infinity_bits::<Self>() - 1) as nat, true);

    fn min_positive_subnormal() -> (r: Self)
        ensures
            r == Self::of_pattern(1);

    fn min_positive_normal() -> (r: Self)
        ensures
            r == Self::of_pattern(Self::exponent_unit());

    /// One more than the least exponent of a normal float.
    fn min_exp() -> (r: i32)
        ensures
            r == 2 - exponent_bias::<Self>();

    fn min_10_exp() -> (r: i32)
        ensures
            r == Self::decimal_exponents().0;

    /// The greatest finite float.
    fn max_finite() -> (r: Self)
        ensures
            r == Self::of_pattern((infinity_bits::<Self>() - 1) as nat);

    fn max_negative_subnormal() -> (r: Self)
        ensures
            r == with_sign::<Self>(1, true);

    fn max_negative_normal() -> (r: Self)
        ensures
            r == with_sign::<Self>(Self::exponent_unit(), true);

    /// One more than the greatest exponent of a finite float.
    fn max_exp() -> (r: i32)
        ensures
            r == exponent_bias::<Self>() + 1;

    fn max_10_exp() -> (r: i32)
        ensures
            r == Self::decimal_exponents().1;

    /// The positive quiet NaN without a payload.
    fn nan() -> (r: Self)
        ensures
            r == Self::of_pattern(nan_bits::<Self>());

    fn infinity() -> (r: Self)
        ensures
            r == Self::of_pattern(infinity_bits::<Self>());

    fn neg_infinity() -> (r: Self)
        ensures
            r == with_sign::<Self>(infinity_bits::<Self>(), true);

    fn neg_zero() -> (r: Self)
        ensures
            r == with_sign::<Self>(0, true);

    fn is_nan(self) -> (r: bool)
        ensures
            r == is_nan(self);

    fn is_infinite(self) -> (r: bool)
        ensures
            r == is_infinite(self);

    fn is_finite(self) -> (r: bool)
        ensures
            r == is_finite(self);

    fn is_subnormal(self) -> (r: bool)
        ensures
            r == is_subnormal(self);

    fn is_normal(self) -> (r: bool)
        ensures
            r == is_normal(self);

    fn classify(self) -> (r: FpCategory)
        ensures
            r == category(self);

    fn is_sign_positive(self) -> (r: bool)
        ensures
            r == !sign_negative(self);

    fn is_sign_negative(self) -> (r: bool)
        ensures
            r == sign_negative(self);

    fn next_up(self) -> (r: Self)
        ensures
            r == next_up(self);

    fn next_down(self) -> (r: Self)
        ensures
            r == next_down(self);

    fn max(self, other: Self) -> (r: Self)
        ensures
            r == maximum(self, other);

    fn min(self, other: Self) -> (r: Self)
        ensures
            r == minimum(self, other);

    fn to_bits(self) -> (r: Self::Bits)
        ensures
            r == Self::Bits::of_pattern(self.pattern());

    fn from_bits(v: Self::Bits) -> (r: Self)
        ensures
            r == Self::of_pattern(v.pattern());

    /// How `self` lies to `other` in the total order, in which every float
    /// has a place of its own: the two zeros apart, and each NaN by its sign
    /// and payload, the lesser payload first on either side of the sign.
    fn total_cmp(&self, other: &Self) -> (r: Ordering)
        ensures
            r == ordering(order_key(*self), order_key(*other));

    /// `self` held between `min` and `max`, neither of which may be a NaN.
    fn clamp(self, min: Self, max: Self) -> (r: Self)
        requires
            !is_nan(min),
            !is_nan(max),
            !less_than(max, min),
        ensures
            r == clamped(self, min, max);

    /// The float with the magnitude of `self` and the sign of `sign`.
    fn copysign(self, sign: Self) -> (r: Self)
        ensures
            r == with_sign::<Self>(magnitude_bits(self), sign_negative(sign));

    /// The float with the magnitude of `self` and the other sign.
    fn neg(self) -> (r: Self)
        ensures
            r == with_sign::<Self>(magnitude_bits(self), !sign_negative(self));
}

} // verus!
