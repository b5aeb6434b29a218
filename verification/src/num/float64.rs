//! The float of 64 bits.

use vstd::prelude::*;
use core::cmp::Ordering;
use core::num::FpCategory;
use crate::num::bytes::{
    from_be_array, from_le_array, lemma_from_be_bytes_bound, lemma_from_le_bytes_bound,
    lemma_pow256_values, native_is_little_endian, to_be_array, to_le_array,
};
use crate::num::float::Float;
use crate::num::format::{is_nan, is_zero, less_than, FloatFormat};
use crate::num::number::Number;
use crate::num::number_like::NumberLike;
use crate::num::pattern::BitPattern;
use crate::primitive::Primitive;

verus! {

/// A binary floating-point number of 64 bits, held as its bit pattern: the
/// sign in the highest bit, then 11 bits of exponent, then the fraction.
#[derive(Clone, Copy, Debug)]
pub struct F64(pub u64);

const SIGN: u64 = 0x8000_0000_0000_0000;

const UNIT: u64 = 0x0010_0000_0000_0000;

const INFINITY: u64 = 0x7ff0_0000_0000_0000;

/// Whether the float with the pattern `a` is less, as a number, than the
/// float with the pattern `b`, where neither is a NaN.
fn pattern_less(a: u64, b: u64) -> (r: bool)
    requires
        a % SIGN <= INFINITY,
        b % SIGN <= INFINITY,
    ensures
        r == less_than(F64(a), F64(b)),
{
    if a >= SIGN {
        if b >= SIGN {
            a > b
        } else {
            a > SIGN || b > 0
        }
    } else {
        b < SIGN && a < b
    }
}

impl Default for F64 {
    /// Positive zero.
    fn default() -> (r: Self)
        ensures
            r == F64(0),
    {
        F64(0)
    }
}

/// Two floats are equal where they are one number: a NaN equals nothing,
/// and the two zeros equal each other.
impl PartialEq for F64 {
    fn eq(&self, other: &Self) -> (r: bool) {
        self.0 % SIGN <= INFINITY && other.0 % SIGN <= INFINITY && (self.0 == other.0 || (self.0
            % SIGN == 0 && other.0 % SIGN == 0))
    }
}

impl vstd::std_specs::cmp::PartialEqSpecImpl for F64 {
    open spec fn obeys_eq_spec() -> bool {
        true
    }

    open spec fn eq_spec(&self, other: &Self) -> bool {
        !is_nan(*self) && !is_nan(*other) && (self.0 == other.0 || (is_zero(*self) && is_zero(
            *other,
        )))
    }
}

/// Floats are ordered as numbers: a NaN is ordered with nothing, and the
/// two zeros lie in one place.
impl PartialOrd for F64 {
    fn partial_cmp(&self, other: &Self) -> (r: Option<Ordering>) {
        if self.0 % SIGN > INFINITY || other.0 % SIGN > INFINITY {
            None
        } else if pattern_less(self.0, other.0) {
            Some(Ordering::Less)
        } else if pattern_less(other.0, self.0) {
            Some(Ordering::Greater)
        } else {
            Some(Ordering::Equal)
        }
    }
}

impl vstd::std_specs::cmp::PartialOrdSpecImpl for F64 {
    open spec fn obeys_partial_cmp_spec() -> bool {
        true
    }

    open spec fn partial_cmp_spec(&self, other: &Self) -> Option<Ordering> {
        if is_nan(*self) || is_nan(*other) {
            None
        } else if less_than(*self, *other) {
            Some(Ordering::Less)
        } else if less_than(*other, *self) {
            Some(Ordering::Greater)
        } else {
            Some(Ordering::Equal)
        }
    }
}

impl Primitive for F64 {}

impl BitPattern for F64 {
    open spec fn size() -> nat {
        8
    }

    open spec fn pattern(self) -> nat {
        self.0 as nat
    }

    open spec fn is_pattern(bits: nat) -> bool {
        bits <= u64::MAX
    }

    open spec fn of_pattern(bits: nat) -> Self {
        F64(bits as u64)
    }

    proof fn pattern_of_value(self) {
    }

    proof fn value_of_pattern(bits: nat) {
        lemma_pow256_values();
    }
}

impl FloatFormat for F64 {
    open spec fn sign_bit() -> nat {
        0x8000_0000_0000_0000
    }

    open spec fn exponent_unit() -> nat {
        0x0010_0000_0000_0000
    }

    open spec fn fraction_width() -> nat {
        52
    }

    proof fn layout() {
        vstd::arithmetic::power2::lemma2_to64();
        vstd::arithmetic::power2::lemma2_to64_rest();
    }
}

impl NumberLike for F64 {
    open spec fn least() -> Self {
        F64(0xfff0_0000_0000_0000)
    }

    open spec fn greatest() -> Self {
        F64(0x7ff0_0000_0000_0000)
    }

    type Underlying = u64;

    type ByteArray = [u8; 8];

    proof fn underlying_holds(bits: nat) {
    }

    proof fn byte_array_len(bytes: [u8; 8]) {
    }

    fn min_value() -> (r: Self) {
        F64(0xfff0_0000_0000_0000)
    }

    fn max_value() -> (r: Self) {
        F64(0x7ff0_0000_0000_0000)
    }

    fn to_underlying(self) -> (r: u64) {
        self.0
    }

    fn try_from_underlying(underlying: u64) -> (r: Option<Self>) {
        Some(F64(underlying))
    }

    fn to_bytes(self) -> (r: [u8; 8]) {
        self.to_ne_bytes()
    }

    fn try_from_bytes(bytes: [u8; 8]) -> (r: Option<Self>) {
        Self::try_from_ne_bytes(bytes)
    }

    fn to_be_bytes(self) -> (r: [u8; 8]) {
        to_be_array(self.0 as u128)
    }

    fn to_le_bytes(self) -> (r: [u8; 8]) {
        to_le_array(self.0 as u128)
    }

    fn to_bytes_in(self, little_endian: bool) -> (r: [u8; 8]) {
        if little_endian {
            self.to_le_bytes()
        } else {
            self.to_be_bytes()
        }
    }

    fn to_ne_bytes(self) -> (r: [u8; 8]) {
        self.to_bytes_in(native_is_little_endian())
    }

    fn try_from_be_bytes(bytes: [u8; 8]) -> (r: Option<Self>) {
        proof {
            lemma_from_be_bytes_bound(bytes@);
            lemma_pow256_values();
        }
        Some(Self::from_be_bytes(bytes))
    }

    fn try_from_le_bytes(bytes: [u8; 8]) -> (r: Option<Self>) {
        proof {
            lemma_from_le_bytes_bound(bytes@);
            lemma_pow256_values();
        }
        Some(Self::from_le_bytes(bytes))
    }

    fn try_from_bytes_in(bytes: [u8; 8], little_endian: bool) -> (r: Option<Self>) {
        if little_endian {
            Self::try_from_le_bytes(bytes)
        } else {
            Self::try_from_be_bytes(bytes)
        }
    }

    fn try_from_ne_bytes(bytes: [u8; 8]) -> (r: Option<Self>) {
        Self::try_from_bytes_in(bytes, native_is_little_endian())
    }
}

impl Number for F64 {
    open spec fn small(n: nat) -> Self {
        if n == 0 {
            F64(0)
        } else if n == 1 {
            F64(0x3ff0_0000_0000_0000)
        } else {
            F64(0x4000_0000_0000_0000)
        }
    }

    open spec fn has_abs(self) -> bool {
        true
    }

    open spec fn abs_spec(self) -> Self {
        F64((self.0 % 0x8000_0000_0000_0000) as u64)
    }

    open spec fn signum_spec(self) -> Self {
        if self.0 % 0x8000_0000_0000_0000 > 0x7ff0_0000_0000_0000 {
            F64(0x7ff8_0000_0000_0000)
        } else if self.0 >= 0x8000_0000_0000_0000 {
            F64(0xbff0000000000000)
        } else {
            F64(0x3ff0_0000_0000_0000)
        }
    }

    fn zero() -> (r: Self) {
        F64(0)
    }

    fn one() -> (r: Self) {
        F64(0x3ff0_0000_0000_0000)
    }

    fn two() -> (r: Self) {
        F64(0x4000_0000_0000_0000)
    }

    fn from_bytes(bytes: [u8; 8]) -> (r: Self) {
        Self::from_ne_bytes(bytes)
    }

    fn from_be_bytes(bytes: [u8; 8]) -> (r: Self) {
        let bits = from_be_array(&bytes);
        proof {
            lemma_from_be_bytes_bound(bytes@);
            lemma_pow256_values();
        }
        F64(bits as u64)
    }

    fn from_le_bytes(bytes: [u8; 8]) -> (r: Self) {
        let bits = from_le_array(&bytes);
        proof {
            lemma_from_le_bytes_bound(bytes@);
            lemma_pow256_values();
        }
        F64(bits as u64)
    }

    fn from_bytes_in(bytes: [u8; 8], little_endian: bool) -> (r: Self) {
        if little_endian {
            Self::from_le_bytes(bytes)
        } else {
            Self::from_be_bytes(bytes)
        }
    }

    fn from_ne_bytes(bytes: [u8; 8]) -> (r: Self) {
        Self::from_bytes_in(bytes, native_is_little_endian())
    }

    fn abs(self) -> (r: Self) {
        F64(self.0 % SIGN)
    }

    fn signum(self) -> (r: Self) {
        if self.0 % SIGN > INFINITY {
            F64(0x7ff8_0000_0000_0000)
        } else if self.0 >= SIGN {
            F64(0xbff0000000000000)
        } else {
            F64(0x3ff0_0000_0000_0000)
        }
    }
}

impl Float for F64 {
    type Bits = u64;

    open spec fn decimal_digits() -> nat {
        15
    }

    open spec fn decimal_exponents() -> (int, int) {
        (-307, 308)
    }

    proof fn constants() {
    }

    proof fn abs_and_sign(self) {
    }

    fn radix() -> (r: u32) {
        2
    }

    fn mantissa_digits() -> (r: u32) {
        53
    }

    fn digits() -> (r: u32) {
        15
    }

    fn epsilon() -> (r: Self) {
        F64(0x3cb0_0000_0000_0000)
    }

    fn min_finite() -> (r: Self) {
        F64(0xffef_ffff_ffff_ffff)
    }

    fn min_positive_subnormal() -> (r: Self) {
        F64(1)
    }

    fn min_positive_normal() -> (r: Self) {
        F64(UNIT)
    }

    fn min_exp() -> (r: i32) {
        -1021
    }

    fn min_10_exp() -> (r: i32) {
        -307
    }

    fn max_finite() -> (r: Self) {
        F64(0x7fef_ffff_ffff_ffff)
    }

    fn max_negative_subnormal() -> (r: Self) {
        F64(0x8000_0000_0000_0001)
    }

    fn max_negative_normal() -> (r: Self) {
        F64(0x8010_0000_0000_0000)
    }

    fn max_exp() -> (r: i32) {
        1024
    }

    fn max_10_exp() -> (r: i32) {
        308
    }

    fn nan() -> (r: Self) {
        F64(0x7ff8_0000_0000_0000)
    }

    fn infinity() -> (r: Self) {
        F64(INFINITY)
    }

    fn neg_infinity() -> (r: Self) {
        F64(0xfff0_0000_0000_0000)
    }

    fn neg_zero() -> (r: Self) {
        F64(SIGN)
    }

    fn is_nan(self) -> (r: bool) {
        self.0 % SIGN > INFINITY
    }

    fn is_infinite(self) -> (r: bool) {
        self.0 % SIGN == INFINITY
    }

    fn is_finite(self) -> (r: bool) {
        self.0 % SIGN < INFINITY
    }

    fn is_subnormal(self) -> (r: bool) {
        let magnitude = self.0 % SIGN;
        0 < magnitude && magnitude < UNIT
    }

    fn is_normal(self) -> (r: bool) {
        let magnitude = self.0 % SIGN;
        UNIT <= magnitude && magnitude < INFINITY
    }

    fn classify(self) -> (r: FpCategory) {
        let magnitude = self.0 % SIGN;
        if magnitude > INFINITY {
            FpCategory::Nan
        } else if magnitude == INFINITY {
            FpCategory::Infinite
        } else if magnitude == 0 {
            FpCategory::Zero
        } else if magnitude < UNIT {
            FpCategory::Subnormal
        } else {
            FpCategory::Normal
        }
    }

    fn is_sign_positive(self) -> (r: bool) {
        self.0 < SIGN
    }

    fn is_sign_negative(self) -> (r: bool) {
        self.0 >= SIGN
    }

    fn next_up(self) -> (r: Self) {
        let magnitude = self.0 % SIGN;
        if magnitude > INFINITY || self.0 == INFINITY {
            self
        } else if magnitude == 0 {
            F64(1)
        } else if self.0 >= SIGN {
            F64(self.0 - 1)
        } else {
            F64(self.0 + 1)
        }
    }

    fn next_down(self) -> (r: Self) {
        let magnitude = self.0 % SIGN;
        if magnitude > INFINITY || self.0 == SIGN + INFINITY {
            self
        } else if magnitude == 0 {
            F64(SIGN + 1)
        } else if self.0 >= SIGN {
            F64(self.0 + 1)
        } else {
            F64(self.0 - 1)
        }
    }

    fn max(self, other: Self) -> (r: Self) {
        if self.0 % SIGN > INFINITY {
            other
        } else if other.0 % SIGN > INFINITY {
            self
        } else if pattern_less(self.0, other.0) {
            other
        } else {
            self
        }
    }

    fn min(self, other: Self) -> (r: Self) {
        if self.0 % SIGN > INFINITY {
            other
        } else if other.0 % SIGN > INFINITY {
            self
        } else if pattern_less(other.0, self.0) {
            other
        } else {
            self
        }
    }

    fn to_bits(self) -> (r: u64) {
        self.0
    }

    fn from_bits(v: u64) -> (r: Self) {
        F64(v)
    }

    fn total_cmp(&self, other: &Self) -> (r: Ordering) {
        let negative = self.0 >= SIGN;
        if negative != (other.0 >= SIGN) {
            if negative {
                Ordering::Less
            } else {
                Ordering::Greater
            }
        } else if self.0 == other.0 {
            Ordering::Equal
        } else if !negative {
            if self.0 < other.0 {
                Ordering::Less
            } else {
                Ordering::Greater
            }
        } else {
            // With the sign bit set a NaN comes before a number, a NaN
            // before a NaN with a greater payload, and a number before a
            // number with a lesser pattern.
            let nan = self.0 % SIGN > INFINITY;
            if nan != (other.0 % SIGN > INFINITY) {
                if nan {
                    Ordering::Less
                } else {
                    Ordering::Greater
                }
            } else if (self.0 < other.0) == nan {
                Ordering::Less
            } else {
                Ordering::Greater
            }
        }
    }

    fn clamp(self, min: Self, max: Self) -> (r: Self) {
        if self.0 % SIGN > INFINITY {
            self
        } else if pattern_less(self.0, min.0) {
            min
        } else if pattern_less(max.0, self.0) {
            max
        } else {
            self
        }
    }

    fn copysign(self, sign: Self) -> (r: Self) {
        let magnitude = self.0 % SIGN;
        if sign.0 >= SIGN {
            F64(magnitude + SIGN)
        } else {
            F64(magnitude)
        }
    }

    fn neg(self) -> (r: Self) {
        if self.0 >= SIGN {
            F64(self.0 - SIGN)
        } else {
            F64(self.0 + SIGN)
        }
    }
}

} // verus!
