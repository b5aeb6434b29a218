//! The capabilities of `i16`.

use vstd::prelude::*;
use core::num::ParseIntError;
use vstd::arithmetic::div_mod::lemma_mod_bound;
use vstd::arithmetic::power::{lemma_pow_mod_noop, pow};
use vstd::arithmetic::power2::{lemma_pow2_pos, pow2};
use crate::num::arith::{
    div_euclid, div_trunc, lemma_div_euclid_bound, lemma_div_trunc_bound, lemma_floor_div_negative,
    lemma_midpoint, lemma_mod_of_value, lemma_pow_of_negative, lemma_wrap_near, lemma_wrap_signed,
    lemma_wrap_unsigned, magnitude,
};
use crate::num::bits::{
    complement, count_length, count_low_ones, count_low_zeros, count_ones, lemma_bit_length_bound,
    lemma_pow2_128, lemma_reversed_bound, power_of_two, reverse, rotate_left, shift_left,
};
use crate::num::bytes::{
    from_be_array, from_le_array, lemma_from_be_bytes_bound, lemma_from_le_bytes_bound,
    lemma_pow256_values, native_is_little_endian, to_be_array, to_le_array,
};
use crate::num::integer::Integer;
use crate::num::number::Number;
use crate::num::number_like::NumberLike;
use crate::num::pattern::BitPattern;
use crate::num::radix::parse_i16;
use crate::num::signed::Signed;
use crate::num::value::IntegerValue;
use crate::num::wide::{checked_pow, ilog, isqrt};
use crate::primitive::Primitive;

verus! {

impl Primitive for i16 {}

impl BitPattern for i16 {
    open spec fn size() -> nat {
        2
    }

    open spec fn pattern(self) -> nat {
        if self < 0 {
            (self + 0x1_0000) as nat
        } else {
            self as nat
        }
    }

    open spec fn is_pattern(bits: nat) -> bool {
        bits <= u16::MAX
    }

    open spec fn of_pattern(bits: nat) -> Self {
        let unsigned = bits as u16;
        if unsigned > i16::MAX {
            (unsigned - 0x1_0000) as i16
        } else {
            unsigned as i16
        }
    }

    proof fn pattern_of_value(self) {
    }

    proof fn value_of_pattern(bits: nat) {
        lemma_pow256_values();
    }
}

impl NumberLike for i16 {
    open spec fn least() -> Self {
        i16::MIN
    }

    open spec fn greatest() -> Self {
        i16::MAX
    }

    type Underlying = i16;

    type ByteArray = [u8; 2];

    proof fn underlying_holds(bits: nat) {
    }

    proof fn byte_array_len(bytes: [u8; 2]) {
    }

    fn min_value() -> (r: Self) {
        i16::MIN
    }

    fn max_value() -> (r: Self) {
        i16::MAX
    }

    fn to_underlying(self) -> (r: i16) {
        self
    }

    fn try_from_underlying(underlying: i16) -> (r: Option<Self>) {
        Some(underlying)
    }

    fn to_bytes(self) -> (r: [u8; 2]) {
        <Self as NumberLike>::to_ne_bytes(self)
    }

    fn try_from_bytes(bytes: [u8; 2]) -> (r: Option<Self>) {
        <Self as NumberLike>::try_from_ne_bytes(bytes)
    }

    fn to_be_bytes(self) -> (r: [u8; 2]) {
        to_be_array(<Self as Integer>::to_unsigned(self) as u128)
    }

    fn to_le_bytes(self) -> (r: [u8; 2]) {
        to_le_array(<Self as Integer>::to_unsigned(self) as u128)
    }

    fn to_bytes_in(self, little_endian: bool) -> (r: [u8; 2]) {
        if little_endian {
            <Self as NumberLike>::to_le_bytes(self)
        } else {
            <Self as NumberLike>::to_be_bytes(self)
        }
    }

    fn to_ne_bytes(self) -> (r: [u8; 2]) {
        <Self as NumberLike>::to_bytes_in(self, native_is_little_endian())
    }

    fn try_from_be_bytes(bytes: [u8; 2]) -> (r: Option<Self>) {
        proof {
            lemma_from_be_bytes_bound(bytes@);
            lemma_pow256_values();
        }
        Some(<Self as Number>::from_be_bytes(bytes))
    }

    fn try_from_le_bytes(bytes: [u8; 2]) -> (r: Option<Self>) {
        proof {
            lemma_from_le_bytes_bound(bytes@);
            lemma_pow256_values();
        }
        Some(<Self as Number>::from_le_bytes(bytes))
    }

    fn try_from_bytes_in(bytes: [u8; 2], little_endian: bool) -> (r: Option<Self>) {
        if little_endian {
            <Self as NumberLike>::try_from_le_bytes(bytes)
        } else {
            <Self as NumberLike>::try_from_be_bytes(bytes)
        }
    }

    fn try_from_ne_bytes(bytes: [u8; 2]) -> (r: Option<Self>) {
        <Self as NumberLike>::try_from_bytes_in(bytes, native_is_little_endian())
    }
}

impl Number for i16 {
    open spec fn small(n: nat) -> Self {
        n as i16
    }

    open spec fn has_abs(self) -> bool {
        self != i16::MIN
    }

    open spec fn abs_spec(self) -> Self {
        if self < 0 {
            (-self) as i16
        } else {
            self
        }
    }

    open spec fn signum_spec(self) -> Self {
        if self < 0 {
            -1i16
        } else if self == 0 {
            0
        } else {
            1
        }
    }

    fn zero() -> (r: Self) {
        0
    }

    fn one() -> (r: Self) {
        1
    }

    fn two() -> (r: Self) {
        2
    }

    fn from_bytes(bytes: [u8; 2]) -> (r: Self) {
        <Self as Number>::from_ne_bytes(bytes)
    }

    fn from_be_bytes(bytes: [u8; 2]) -> (r: Self) {
        let bits = from_be_array(&bytes);
        proof {
            lemma_from_be_bytes_bound(bytes@);
            lemma_pow256_values();
        }
        <Self as Integer>::from_unsigned(bits as u16)
    }

    fn from_le_bytes(bytes: [u8; 2]) -> (r: Self) {
        let bits = from_le_array(&bytes);
        proof {
            lemma_from_le_bytes_bound(bytes@);
            lemma_pow256_values();
        }
        <Self as Integer>::from_unsigned(bits as u16)
    }

    fn from_bytes_in(bytes: [u8; 2], little_endian: bool) -> (r: Self) {
        if little_endian {
            <Self as Number>::from_le_bytes(bytes)
        } else {
            <Self as Number>::from_be_bytes(bytes)
        }
    }

    fn from_ne_bytes(bytes: [u8; 2]) -> (r: Self) {
        <Self as Number>::from_bytes_in(bytes, native_is_little_endian())
    }

    fn abs(self) -> (r: Self) {
        if self < 0 {
            -self
        } else {
            self
        }
    }

    fn signum(self) -> (r: Self) {
        if self < 0 {
            -1
        } else if self == 0 {
            0
        } else {
            1
        }
    }
}

impl IntegerValue for i16 {
    open spec fn value(self) -> int {
        self as int
    }

    open spec fn from_value(i: int) -> Self {
        i as i16
    }

    open spec fn lower_bound() -> int {
        i16::MIN as int
    }

    open spec fn upper_bound() -> int {
        i16::MAX as int
    }

    open spec fn width() -> nat {
        16
    }

    proof fn value_fits(self) {
    }

    proof fn value_of_fitting(i: int) {
    }

    proof fn twos_complement(self) {
        lemma_pow2_128();
    }
}

/// The patterns of the type are the numbers below two to the power of its
/// width.
proof fn lemma_width()
    ensures
        pow2(16) == u16::MAX + 1,
{
    lemma_pow2_128();
}

impl Integer for i16 {
    type Unsigned = u16;

    type Signed = i16;

    proof fn constants() {
    }

    proof fn abs_and_sign(self) {
    }

    fn from_unsigned(v: u16) -> (r: Self) {
        if v > i16::MAX as u16 {
            (v - 0x8000) as i16 + i16::MIN
        } else {
            v as i16
        }
    }

    fn from_signed(v: i16) -> (r: Self) {
        v
    }

    fn to_unsigned(self) -> (r: u16) {
        if self < 0 {
            (self - i16::MIN) as u16 + 0x8000
        } else {
            self as u16
        }
    }

    fn to_signed(self) -> (r: i16) {
        self
    }

    fn from_str_radix(src: &str, radix: u32) -> (r: Result<Self, ParseIntError>) {
        parse_i16(src, radix)
    }

    fn count_ones(self) -> (r: u32) {
        let bits = <Self as Integer>::to_unsigned(self) as u128;
        count_ones(bits)
    }

    fn count_zeros(self) -> (r: u32) {
        let bits = <Self as Integer>::to_unsigned(self) as u128;
        proof {
            lemma_width();
            lemma_bit_length_bound(self.pattern(), 16);
        }
        16 - count_ones(bits)
    }

    fn leading_zeros(self) -> (r: u32) {
        let bits = <Self as Integer>::to_unsigned(self) as u128;
        proof {
            lemma_width();
            lemma_bit_length_bound(self.pattern(), 16);
        }
        16 - count_length(bits)
    }

    fn trailing_zeros(self) -> (r: u32) {
        let bits = <Self as Integer>::to_unsigned(self) as u128;
        if self == 0 {
            16
        } else {
            count_low_zeros(bits)
        }
    }

    fn leading_ones(self) -> (r: u32) {
        let bits = <Self as Integer>::to_unsigned(self) as u128;
        proof {
            lemma_width();
            let flipped = complement(self.pattern(), 16);
            lemma_bit_length_bound(flipped, 16);
        }
        16 - count_length(u16::MAX as u128 - bits)
    }

    fn trailing_ones(self) -> (r: u32) {
        let bits = <Self as Integer>::to_unsigned(self) as u128;
        count_low_ones(bits)
    }

    fn rotate_left(self, n: u32) -> (r: Self) {
        let bits = <Self as Integer>::to_unsigned(self) as u128;
        proof {
            lemma_width();
        }
        let rotated = rotate_left(bits, n, 16);
        <Self as Integer>::from_unsigned(rotated as u16)
    }

    fn rotate_right(self, n: u32) -> (r: Self) {
        let bits = <Self as Integer>::to_unsigned(self) as u128;
        proof {
            lemma_width();
        }
        let rotated = rotate_left(bits, 16 - n % 16, 16);
        <Self as Integer>::from_unsigned(rotated as u16)
    }

    fn swap_bytes(self) -> (r: Self) {
        <Self as Number>::from_be_bytes(<Self as NumberLike>::to_le_bytes(self))
    }

    fn reverse_bits(self) -> (r: Self) {
        let bits = <Self as Integer>::to_unsigned(self) as u128;
        proof {
            lemma_width();
            lemma_reversed_bound(self.pattern(), 16);
        }
        let reversed = reverse(bits, 16);
        <Self as Integer>::from_unsigned(reversed as u16)
    }

    fn from_be_on(x: Self, little_endian: bool) -> (r: Self) {
        if little_endian {
            <Self as Integer>::swap_bytes(x)
        } else {
            x
        }
    }

    fn from_be(x: Self) -> (r: Self) {
        <Self as Integer>::from_be_on(x, native_is_little_endian())
    }

    fn from_le_on(x: Self, little_endian: bool) -> (r: Self) {
        if little_endian {
            x
        } else {
            <Self as Integer>::swap_bytes(x)
        }
    }

    fn from_le(x: Self) -> (r: Self) {
        <Self as Integer>::from_le_on(x, native_is_little_endian())
    }

    fn to_be_on(self, little_endian: bool) -> (r: Self) {
        if little_endian {
            <Self as Integer>::swap_bytes(self)
        } else {
            self
        }
    }

    fn to_be(self) -> (r: Self) {
        <Self as Integer>::to_be_on(self, native_is_little_endian())
    }

    fn to_le_on(self, little_endian: bool) -> (r: Self) {
        if little_endian {
            self
        } else {
            <Self as Integer>::swap_bytes(self)
        }
    }

    fn to_le(self) -> (r: Self) {
        <Self as Integer>::to_le_on(self, native_is_little_endian())
    }

    fn div_euclid(self, rhs: Self) -> (r: Self) {
        self.checked_div_euclid(rhs).unwrap()
    }

    fn rem_euclid(self, rhs: Self) -> (r: Self) {
        proof {
            lemma_div_euclid_bound(self as int, rhs as int);
        }
        self.checked_rem_euclid(rhs).unwrap()
    }

    fn checked_add(self, rhs: Self) -> (r: Option<Self>) {
        self.checked_add(rhs)
    }

    fn strict_add(self, rhs: Self) -> (r: Self) {
        self + rhs
    }

    fn checked_sub(self, rhs: Self) -> (r: Option<Self>) {
        self.checked_sub(rhs)
    }

    fn strict_sub(self, rhs: Self) -> (r: Self) {
        self - rhs
    }

    fn checked_mul(self, rhs: Self) -> (r: Option<Self>) {
        self.checked_mul(rhs)
    }

    fn strict_mul(self, rhs: Self) -> (r: Self) {
        self * rhs
    }

    fn checked_div(self, rhs: Self) -> (r: Option<Self>) {
        self.checked_div(rhs)
    }

    fn strict_div(self, rhs: Self) -> (r: Self) {
        self.checked_div(rhs).unwrap()
    }

    fn checked_div_euclid(self, rhs: Self) -> (r: Option<Self>) {
        self.checked_div_euclid(rhs)
    }

    fn strict_div_euclid(self, rhs: Self) -> (r: Self) {
        self.checked_div_euclid(rhs).unwrap()
    }

    fn checked_rem(self, rhs: Self) -> (r: Option<Self>) {
        proof {
            if rhs != 0 {
                lemma_div_trunc_bound(self as int, rhs as int);
            }
        }
        self.checked_rem(rhs)
    }

    fn strict_rem(self, rhs: Self) -> (r: Self) {
        proof {
            lemma_div_trunc_bound(self as int, rhs as int);
        }
        self.checked_rem(rhs).unwrap()
    }

    fn checked_rem_euclid(self, rhs: Self) -> (r: Option<Self>) {
        proof {
            if rhs != 0 {
                lemma_div_euclid_bound(self as int, rhs as int);
            }
        }
        self.checked_rem_euclid(rhs)
    }

    fn strict_rem_euclid(self, rhs: Self) -> (r: Self) {
        proof {
            lemma_div_euclid_bound(self as int, rhs as int);
        }
        self.checked_rem_euclid(rhs).unwrap()
    }

    fn checked_neg(self) -> (r: Option<Self>) {
        if self == i16::MIN {
            None
        } else {
            Some(-self)
        }
    }

    fn strict_neg(self) -> (r: Self) {
        -self
    }

    fn checked_shl(self, rhs: u32) -> (r: Option<Self>) {
        if rhs < 16 {
            Some(<Self as Integer>::strict_shl(self, rhs))
        } else {
            None
        }
    }

    fn strict_shl(self, rhs: u32) -> (r: Self) {
        let bits = <Self as Integer>::to_unsigned(self) as u128;
        proof {
            lemma_width();
        }
        let shifted = shift_left(bits, rhs, 16);
        <Self as Integer>::from_unsigned(shifted as u16)
    }

    fn unbounded_shl(self, rhs: u32) -> (r: Self) {
        if rhs < 16 {
            <Self as Integer>::strict_shl(self, rhs)
        } else {
            0
        }
    }

    fn checked_shr(self, rhs: u32) -> (r: Option<Self>) {
        if rhs < 16 {
            Some(<Self as Integer>::strict_shr(self, rhs))
        } else {
            None
        }
    }

    fn strict_shr(self, rhs: u32) -> (r: Self) {
        proof {
            lemma_width();
            lemma_pow2_pos(rhs as nat);
        }
        if self < 0 {
            proof {
                lemma_floor_div_negative(self as int, pow2(rhs as nat) as int);
            }
            -1 - ((((-1 - self) as u16) as u128 / power_of_two(rhs)) as u16) as i16
        } else {
            (((self as u16) as u128 / power_of_two(rhs)) as u16) as i16
        }
    }

    fn unbounded_shr(self, rhs: u32) -> (r: Self) {
        if rhs < 16 {
            <Self as Integer>::strict_shr(self, rhs)
        } else if self < 0 {
            -1
        } else {
            0
        }
    }
    fn checked_pow(self, exp: u32) -> (r: Option<Self>) {
        proof {
            lemma_pow_of_negative(self as int, exp as nat);
        }
        let negative = self < 0 && exp % 2 == 1;
        match checked_pow(<Self as Signed>::unsigned_abs(self) as u128, exp) {
            Some(magnitude) => if negative {
                if magnitude < 0x8000 {
                    Some(-((magnitude as u16) as i16))
                } else if magnitude == 0x8000 {
                    Some(i16::MIN)
                } else {
                    None
                }
            } else if magnitude <= i16::MAX as u128 {
                Some((magnitude as u16) as i16)
            } else {
                None
            },
            None => None,
        }
    }

    fn strict_pow(self, exp: u32) -> (r: Self) {
        <Self as Integer>::checked_pow(self, exp).unwrap()
    }

    fn saturating_add(self, rhs: Self) -> (r: Self) {
        match self.checked_add(rhs) {
            Some(sum) => sum,
            None => if rhs < 0 {
                i16::MIN
            } else {
                i16::MAX
            },
        }
    }

    fn saturating_sub(self, rhs: Self) -> (r: Self) {
        match self.checked_sub(rhs) {
            Some(difference) => difference,
            None => if rhs < 0 {
                i16::MAX
            } else {
                i16::MIN
            },
        }
    }

    fn saturating_mul(self, rhs: Self) -> (r: Self) {
        match self.checked_mul(rhs) {
            Some(product) => product,
            None => {
                assert((self < 0) != (rhs < 0) <==> self * rhs < 0) by (nonlinear_arith)
                    requires
                        self * rhs < i16::MIN || self * rhs > i16::MAX,
                ;
                if (self < 0) != (rhs < 0) {
                    i16::MIN
                } else {
                    i16::MAX
                }
            },
        }
    }

    fn saturating_div(self, rhs: Self) -> (r: Self) {
        proof {
            lemma_div_trunc_bound(self as int, rhs as int);
        }
        if self == i16::MIN && rhs == -1 {
            i16::MAX
        } else {
            self.checked_div(rhs).unwrap()
        }
    }

    fn saturating_pow(self, exp: u32) -> (r: Self) {
        proof {
            lemma_pow_of_negative(self as int, exp as nat);
        }
        match <Self as Integer>::checked_pow(self, exp) {
            Some(power) => power,
            None => if self < 0 && exp % 2 == 1 {
                i16::MIN
            } else {
                i16::MAX
            },
        }
    }

    fn wrapping_add(self, rhs: Self) -> (r: Self) {
        proof {
            lemma_wrap_near(i16::MIN as int, i16::MAX as int, self + rhs);
        }
        self.wrapping_add(rhs)
    }

    fn wrapping_sub(self, rhs: Self) -> (r: Self) {
        proof {
            lemma_wrap_near(i16::MIN as int, i16::MAX as int, self - rhs);
        }
        self.wrapping_sub(rhs)
    }

    fn wrapping_mul(self, rhs: Self) -> (r: Self) {
        proof {
            lemma_wrap_signed(i16::MAX as int, self * rhs);
        }
        self.wrapping_mul(rhs)
    }

    fn wrapping_div(self, rhs: Self) -> (r: Self) {
        proof {
            lemma_div_trunc_bound(self as int, rhs as int);
            let quotient = div_trunc(self as int, rhs as int);
            lemma_wrap_near(i16::MIN as int, i16::MAX as int, quotient);
        }
        if self == i16::MIN && rhs == -1 {
            i16::MIN
        } else {
            self.checked_div(rhs).unwrap()
        }
    }

    fn wrapping_div_euclid(self, rhs: Self) -> (r: Self) {
        proof {
            lemma_div_euclid_bound(self as int, rhs as int);
            let quotient = div_euclid(self as int, rhs as int);
            lemma_wrap_near(i16::MIN as int, i16::MAX as int, quotient);
        }
        if self == i16::MIN && rhs == -1 {
            i16::MIN
        } else {
            self.checked_div_euclid(rhs).unwrap()
        }
    }

    fn wrapping_rem(self, rhs: Self) -> (r: Self) {
        proof {
            lemma_div_trunc_bound(self as int, rhs as int);
        }
        if rhs == -1 {
            0
        } else {
            self.checked_rem(rhs).unwrap()
        }
    }

    fn wrapping_rem_euclid(self, rhs: Self) -> (r: Self) {
        proof {
            lemma_div_euclid_bound(self as int, rhs as int);
        }
        if rhs == -1 {
            0
        } else {
            self.checked_rem_euclid(rhs).unwrap()
        }
    }

    fn wrapping_neg(self) -> (r: Self) {
        proof {
            lemma_wrap_near(i16::MIN as int, i16::MAX as int, -(self as int));
        }
        if self == i16::MIN {
            i16::MIN
        } else {
            -self
        }
    }

    fn wrapping_shl(self, rhs: u32) -> (r: Self) {
        <Self as Integer>::strict_shl(self, rhs % 16)
    }

    fn wrapping_shr(self, rhs: u32) -> (r: Self) {
        <Self as Integer>::strict_shr(self, rhs % 16)
    }

    fn wrapping_pow(self, exp: u32) -> (r: Self) {
        let unsigned = <Self as Integer>::to_unsigned(self);
        proof {
            lemma_width();
            let modulus = u16::MAX + 1;
            lemma_mod_of_value(self as int, modulus);
            lemma_pow_mod_noop(self as int, exp as nat, modulus);
            lemma_wrap_signed(i16::MAX as int, pow(self as int, exp as nat));
            lemma_wrap_unsigned(u16::MAX as int, pow(unsigned as int, exp as nat));
            lemma_mod_bound(pow(unsigned as int, exp as nat), modulus);
        }
        <Self as Integer>::from_unsigned(<u16 as Integer>::wrapping_pow(unsigned, exp))
    }

    fn overflowing_add(self, rhs: Self) -> (r: (Self, bool)) {
        (<Self as Integer>::wrapping_add(self, rhs), self.checked_add(rhs).is_none())
    }

    fn overflowing_sub(self, rhs: Self) -> (r: (Self, bool)) {
        (<Self as Integer>::wrapping_sub(self, rhs), self.checked_sub(rhs).is_none())
    }

    fn overflowing_mul(self, rhs: Self) -> (r: (Self, bool)) {
        (<Self as Integer>::wrapping_mul(self, rhs), self.checked_mul(rhs).is_none())
    }

    fn overflowing_shl(self, rhs: u32) -> (r: (Self, bool)) {
        (<Self as Integer>::wrapping_shl(self, rhs), rhs >= 16)
    }

    fn overflowing_shr(self, rhs: u32) -> (r: (Self, bool)) {
        (<Self as Integer>::wrapping_shr(self, rhs), rhs >= 16)
    }

    fn overflowing_pow(self, exp: u32) -> (r: (Self, bool)) {
        (
            <Self as Integer>::wrapping_pow(self, exp),
            <Self as Integer>::checked_pow(self, exp).is_none(),
        )
    }

    fn pow(self, exp: u32) -> (r: Self) {
        <Self as Integer>::checked_pow(self, exp).unwrap()
    }

    fn isqrt(self) -> (r: Self) {
        let root = isqrt(self as u128);
        assert(root <= self) by (nonlinear_arith)
            requires
                root * root <= self,
        ;
        root as i16
    }

    fn ilog(self, base: Self) -> (r: u32) {
        ilog(self as u128, base as u128)
    }

    fn ilog2(self) -> (r: u32) {
        ilog(self as u128, 2)
    }

    fn ilog10(self) -> (r: u32) {
        ilog(self as u128, 10)
    }

    fn checked_ilog(self, base: Self) -> (r: Option<u32>) {
        if self <= 0 || base < 2 {
            None
        } else {
            Some(ilog(self as u128, base as u128))
        }
    }

    fn checked_ilog2(self) -> (r: Option<u32>) {
        if self <= 0 {
            None
        } else {
            Some(ilog(self as u128, 2))
        }
    }

    fn checked_ilog10(self) -> (r: Option<u32>) {
        if self <= 0 {
            None
        } else {
            Some(ilog(self as u128, 10))
        }
    }

    fn overflowing_div(self, rhs: Self) -> (r: (Self, bool)) {
        proof {
            lemma_div_trunc_bound(self as int, rhs as int);
        }
        (<Self as Integer>::wrapping_div(self, rhs), self == i16::MIN && rhs == -1)
    }

    fn overflowing_div_euclid(self, rhs: Self) -> (r: (Self, bool)) {
        proof {
            lemma_div_euclid_bound(self as int, rhs as int);
        }
        (<Self as Integer>::wrapping_div_euclid(self, rhs), self == i16::MIN && rhs == -1)
    }

    fn overflowing_rem(self, rhs: Self) -> (r: (Self, bool)) {
        proof {
            lemma_div_trunc_bound(self as int, rhs as int);
        }
        (<Self as Integer>::wrapping_rem(self, rhs), self == i16::MIN && rhs == -1)
    }

    fn overflowing_rem_euclid(self, rhs: Self) -> (r: (Self, bool)) {
        proof {
            lemma_div_euclid_bound(self as int, rhs as int);
        }
        (<Self as Integer>::wrapping_rem_euclid(self, rhs), self == i16::MIN && rhs == -1)
    }

    fn overflowing_neg(self) -> (r: (Self, bool)) {
        (<Self as Integer>::wrapping_neg(self), self == i16::MIN)
    }

    fn abs_diff(self, other: Self) -> (r: u16) {
        let (low, high) = if self < other {
            (self, other)
        } else {
            (other, self)
        };
        if low >= 0 || high < 0 {
            (high - low) as u16
        } else {
            high as u16 + ((-(low + 1)) as u16 + 1)
        }
    }

    fn midpoint(self, rhs: Self) -> (r: Self) {
        let (low, high) = if self < rhs {
            (self, rhs)
        } else {
            (rhs, self)
        };
        let distance = <Self as Integer>::abs_diff(high, low);
        proof {
            lemma_midpoint(low as int, high as int);
        }
        let below = low + (distance / 2) as i16;
        let negative = high < 0 || (low < 0 && low + high < 0);
        if negative && distance % 2 == 1 {
            below + 1
        } else {
            below
        }
    }
}

impl Signed for i16 {
    proof fn signed_bounds() {
    }

    fn cast_unsigned(self) -> (r: u16) {
        <Self as Integer>::to_unsigned(self)
    }

    fn checked_add_unsigned(self, rhs: u16) -> (r: Option<Self>) {
        self.checked_add_unsigned(rhs)
    }

    fn strict_add_unsigned(self, rhs: u16) -> (r: Self) {
        self.checked_add_unsigned(rhs).unwrap()
    }

    fn checked_sub_unsigned(self, rhs: u16) -> (r: Option<Self>) {
        self.checked_sub_unsigned(rhs)
    }

    fn strict_sub_unsigned(self, rhs: u16) -> (r: Self) {
        self.checked_sub_unsigned(rhs).unwrap()
    }

    fn checked_abs(self) -> (r: Option<Self>) {
        if self == i16::MIN {
            None
        } else {
            Some(<Self as Number>::abs(self))
        }
    }

    fn strict_abs(self) -> (r: Self) {
        <Self as Number>::abs(self)
    }

    fn checked_isqrt(self) -> (r: Option<Self>) {
        if self < 0 {
            None
        } else {
            Some(<Self as Integer>::isqrt(self))
        }
    }

    fn saturating_add_unsigned(self, rhs: u16) -> (r: Self) {
        match self.checked_add_unsigned(rhs) {
            Some(sum) => sum,
            None => i16::MAX,
        }
    }

    fn saturating_sub_unsigned(self, rhs: u16) -> (r: Self) {
        match self.checked_sub_unsigned(rhs) {
            Some(difference) => difference,
            None => i16::MIN,
        }
    }

    fn saturating_neg(self) -> (r: Self) {
        if self == i16::MIN {
            i16::MAX
        } else {
            -self
        }
    }

    fn saturating_abs(self) -> (r: Self) {
        if self == i16::MIN {
            i16::MAX
        } else {
            <Self as Number>::abs(self)
        }
    }

    fn wrapping_add_unsigned(self, rhs: u16) -> (r: Self) {
        proof {
            lemma_wrap_near(i16::MIN as int, i16::MAX as int, self + rhs);
        }
        self.wrapping_add_unsigned(rhs)
    }

    fn wrapping_sub_unsigned(self, rhs: u16) -> (r: Self) {
        let subtrahend = <Self as Integer>::from_unsigned(rhs);
        proof {
            lemma_wrap_near(i16::MIN as int, i16::MAX as int, self - subtrahend);
            lemma_wrap_near(i16::MIN as int, i16::MAX as int, self - rhs);
        }
        self.wrapping_sub(subtrahend)
    }

    fn wrapping_abs(self) -> (r: Self) {
        proof {
            lemma_wrap_near(i16::MIN as int, i16::MAX as int, magnitude(self as int));
        }
        if self == i16::MIN {
            i16::MIN
        } else {
            <Self as Number>::abs(self)
        }
    }

    fn unsigned_abs(self) -> (r: u16) {
        if self < 0 {
            (-(self + 1)) as u16 + 1
        } else {
            self as u16
        }
    }

    fn overflowing_add_unsigned(self, rhs: u16) -> (r: (Self, bool)) {
        (
            <Self as Signed>::wrapping_add_unsigned(self, rhs),
            self.checked_add_unsigned(rhs).is_none(),
        )
    }

    fn overflowing_sub_unsigned(self, rhs: u16) -> (r: (Self, bool)) {
        (
            <Self as Signed>::wrapping_sub_unsigned(self, rhs),
            self.checked_sub_unsigned(rhs).is_none(),
        )
    }

    fn overflowing_abs(self) -> (r: (Self, bool)) {
        (<Self as Signed>::wrapping_abs(self), self == i16::MIN)
    }

    fn is_positive(self) -> (r: bool) {
        self > 0
    }

    fn is_negative(self) -> (r: bool) {
        self < 0
    }
}

} // verus!
