//! Binary floating-point numbers as bit patterns.

use vstd::prelude::*;
use crate::num::pattern::BitPattern;

verus! {

/// A binary floating-point format: a sign bit above an exponent above a
/// fraction. A float is told by its bit pattern, and all that is said of
/// it here is said of the pattern.
pub trait FloatFormat: BitPattern {
    /// The weight of the sign bit in a pattern.
    spec fn sign_bit() -> nat;

    /// The weight of the lowest bit of the exponent in a pattern.
    spec fn exponent_unit() -> nat;

    /// The number of bits of the fraction.
    spec fn fraction_width() -> nat;

    /// The sign bit lies above the exponent, the exponent has two bits at
    /// least and the fraction one, and every pattern of the width is a float.
    proof fn layout()
        ensures
            Self::exponent_unit() == vstd::arithmetic::power2::pow2(Self::fraction_width()),
            2 <= Self::exponent_unit(),
            4 * Self::exponent_unit() <= Self::sign_bit(),
            Self::exponent_unit() % 2 == 0,
            forall|bits: nat| Self::is_pattern(bits) <==> bits < 2 * Self::sign_bit();
}

/// The pattern of a float without its sign bit.
pub open spec fn magnitude_bits<T: FloatFormat>(x: T) -> nat {
    x.pattern() % T::sign_bit()
}

/// Whether the sign bit of a float is set.
pub open spec fn sign_negative<T: FloatFormat>(x: T) -> bool {
    x.pattern() >= T::sign_bit()
}

/// The float with the given pattern below the sign bit, and the given sign.
pub open spec fn with_sign<T: FloatFormat>(magnitude: nat, negative: bool) -> T {
    T::of_pattern(
        if negative {
            magnitude + T::sign_bit()
        } else {
            magnitude
        },
    )
}

/// The pattern of positive infinity: every bit of the exponent, and no other.
pub open spec fn infinity_bits<T: FloatFormat>() -> nat {
    (T::sign_bit() - T::exponent_unit()) as nat
}

/// The pattern of the positive quiet NaN without a payload.
pub open spec fn nan_bits<T: FloatFormat>() -> nat {
    infinity_bits::<T>() + T::exponent_unit() / 2
}

/// The pattern of positive one: every bit of the exponent but the highest.
pub open spec fn one_bits<T: FloatFormat>() -> nat {
    (T::sign_bit() / 2 - T::exponent_unit()) as nat
}

/// The exponent of one as the pattern holds it: the bias of the format.
pub open spec fn exponent_bias<T: FloatFormat>() -> nat {
    one_bits::<T>() / T::exponent_unit()
}

/// The pattern of the distance between one and the next float above it.
pub open spec fn epsilon_bits<T: FloatFormat>() -> nat {
    (one_bits::<T>() - T::fraction_width() * T::exponent_unit()) as nat
}

pub open spec fn is_nan<T: FloatFormat>(x: T) -> bool {
    magnitude_bits(x) > infinity_bits::<T>()
}

pub open spec fn is_infinite<T: FloatFormat>(x: T) -> bool {
    magnitude_bits(x) == infinity_bits::<T>()
}

pub open spec fn is_finite<T: FloatFormat>(x: T) -> bool {
    magnitude_bits(x) < infinity_bits::<T>()
}

pub open spec fn is_zero<T: FloatFormat>(x: T) -> bool {
    magnitude_bits(x) == 0
}

/// Whether a float is subnormal: not zero, with an exponent of zero.
pub open spec fn is_subnormal<T: FloatFormat>(x: T) -> bool {
    0 < magnitude_bits(x) < T::exponent_unit()
}

/// Whether a float is normal: finite, with an exponent that is not zero.
pub open spec fn is_normal<T: FloatFormat>(x: T) -> bool {
    T::exponent_unit() <= magnitude_bits(x) < infinity_bits::<T>()
}

/// The place of a float in the total order. The NaNs with the sign bit
/// set come first, the lesser payload before the greater; then the other
/// floats with the sign bit set, the greater pattern before the lesser;
/// then the floats without it, the lesser pattern before the greater, so
/// that among the NaNs at the end the lesser payload comes first again.
pub open spec fn order_key<T: FloatFormat>(x: T) -> int {
    if !sign_negative(x) {
        magnitude_bits(x) as int
    } else if is_nan(x) {
        magnitude_bits(x) - 2 * T::sign_bit()
    } else {
        -(magnitude_bits(x) as int) - 1
    }
}

/// The place of a float that is no NaN among the numbers: as in the total
/// order, but with the two zeros in one place.
pub open spec fn number_key<T: FloatFormat>(x: T) -> int {
    if sign_negative(x) {
        -(magnitude_bits(x) as int)
    } else {
        magnitude_bits(x) as int
    }
}

/// Whether `a` is less than `b` as a number. A NaN is not less than
/// anything, and nothing is less than a NaN.
pub open spec fn less_than<T: FloatFormat>(a: T, b: T) -> bool {
    !is_nan(a) && !is_nan(b) && number_key(a) < number_key(b)
}

/// The least float above `x`; `x` itself where it is a NaN or positive
/// infinity.
pub open spec fn next_up<T: FloatFormat>(x: T) -> T {
    if is_nan(x) || x.pattern() == infinity_bits::<T>() {
        x
    } else if is_zero(x) {
        T::of_pattern(1)
    } else if sign_negative(x) {
        T::of_pattern((x.pattern() - 1) as nat)
    } else {
        T::of_pattern(x.pattern() + 1)
    }
}

/// The greatest float below `x`; `x` itself where it is a NaN or negative
/// infinity.
pub open spec fn next_down<T: FloatFormat>(x: T) -> T {
    if is_nan(x) || x.pattern() == infinity_bits::<T>() + T::sign_bit() {
        x
    } else if is_zero(x) {
        T::of_pattern(T::sign_bit() + 1)
    } else if sign_negative(x) {
        T::of_pattern(x.pattern() + 1)
    } else {
        T::of_pattern((x.pattern() - 1) as nat)
    }
}

/// The greater of two floats. A NaN gives way to the other float, and of
/// two floats that are equal as numbers the first is taken.
pub open spec fn maximum<T: FloatFormat>(a: T, b: T) -> T {
    if is_nan(a) {
        b
    } else if less_than(a, b) {
        b
    } else {
        a
    }
}

/// The lesser of two floats. A NaN gives way to the other float, and of
/// two floats that are equal as numbers the first is taken.
pub open spec fn minimum<T: FloatFormat>(a: T, b: T) -> T {
    if is_nan(a) {
        b
    } else if less_than(b, a) {
        b
    } else {
        a
    }
}

/// `x` held between `low` and `high`. A NaN stays as it is.
pub open spec fn clamped<T: FloatFormat>(x: T, low: T, high: T) -> T {
    if less_than(x, low) {
        low
    } else if less_than(high, x) {
        high
    } else {
        x
    }
}

} // verus!
