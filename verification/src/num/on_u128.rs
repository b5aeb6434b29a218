//! The capabilities of `u128`.

use vstd::prelude::*;
use core::num::ParseIntError;
use vstd::arithmetic::div_mod::lemma_fundamental_div_mod_converse;
use vstd::arithmetic::power::pow;
use vstd::arithmetic::power2::{lemma_pow2_pos, pow2};
use crate::num::arith::{
    lemma_div_ceil, lemma_midpoint, lemma_pow_of_negative, lemma_wrap_near, lemma_wrap_unsigned,
};
use crate::num::bits::{
    complement, count_length, count_low_ones, count_low_zeros, count_ones, lemma_bit_length_bound,
    lemma_pow2_128, lemma_reversed_bound, power_of_two, reverse, rotate_left, shift_left,
};
use crate::num::bytes::{
    from_be_array, from_le_array, lemma_from_be_bytes_bound, lemma_from_le_bytes_bound,
    lemma_pow256_values, native_is_little_endian, to_be_array, to_le_array,
};
use crate::num::integer::Integer;
use crate::num::number::Number;
use crate::num::number_like::NumberLike;
use crate::num::pattern::BitPattern;
use crate::num::radix::parse_u128;
use crate::num::unsigned::Unsigned;
use crate::num::value::IntegerValue;
use crate::num::wide::{
    checked_pow, ilog, is_power_of_two, isqrt, multiply_add, next_power_of_two, wrapping_pow,
};
use crate::primitive::Primitive;

verus! {

impl Primitive for u128 {}

impl BitPattern for u128 {
    open spec fn size() -> nat {
        16
    }

    open spec fn pattern(self) -> nat {
        self as nat
    }

    open spec fn is_pattern(bits: nat) -> bool {
        bits <= u128::MAX
    }

    open spec fn of_pattern(bits: nat) -> Self {
        bits as u128
    }

    proof fn pattern_of_value(self) {
    }

    proof fn value_of_pattern(bits: nat) {
        lemma_pow256_values();
    }
}

impl NumberLike for u128 {
    open spec fn least() -> Self {
        u128::MIN
    }

    open spec fn greatest() -> Self {
        u128::MAX
    }

    type Underlying = u128;

    type ByteArray = [u8; 16];

    proof fn underlying_holds(bits: nat) {
    }

    proof fn byte_array_len(bytes: [u8; 16]) {
    }

    fn min_value() -> (r: Self) {
        u128::MIN
    }

    fn max_value() -> (r: Self) {
        u128::MAX
    }

    fn to_underlying(self) -> (r: u128) {
        self
    }

    fn try_from_underlying(underlying: u128) -> (r: Option<Self>) {
        Some(underlying)
    }

    fn to_bytes(self) -> (r: [u8; 16]) {
        <Self as NumberLike>::to_ne_bytes(self)
    }

    fn try_from_bytes(bytes: [u8; 16]) -> (r: Option<Self>) {
        <Self as NumberLike>::try_from_ne_bytes(bytes)
    }

    fn to_be_bytes(self) -> (r: [u8; 16]) {
        to_be_array(self)
    }

    fn to_le_bytes(self) -> (r: [u8; 16]) {
        to_le_array(self)
    }

    fn to_bytes_in(self, little_endian: bool) -> (r: [u8; 16]) {
        if little_endian {
            <Self as NumberLike>::to_le_bytes(self)
        } else {
            <Self as NumberLike>::to_be_bytes(self)
        }
    }

    fn to_ne_bytes(self) -> (r: [u8; 16]) {
        <Self as NumberLike>::to_bytes_in(self, native_is_little_endian())
    }

    fn try_from_be_bytes(bytes: [u8; 16]) -> (r: Option<Self>) {
        proof {
            lemma_from_be_bytes_bound(bytes@);
            lemma_pow256_values();
        }
        Some(<Self as Number>::from_be_bytes(bytes))
    }

    fn try_from_le_bytes(bytes: [u8; 16]) -> (r: Option<Self>) {
        proof {
            lemma_from_le_bytes_bound(bytes@);
            lemma_pow256_values();
        }
        Some(<Self as Number>::from_le_bytes(bytes))
    }

    fn try_from_bytes_in(bytes: [u8; 16], little_endian: bool) -> (r: Option<Self>) {
        if little_endian {
            <Self as NumberLike>::try_from_le_bytes(bytes)
        } else {
            <Self as NumberLike>::try_from_be_bytes(bytes)
        }
    }

    fn try_from_ne_bytes(bytes: [u8; 16]) -> (r: Option<Self>) {
        <Self as NumberLike>::try_from_bytes_in(bytes, native_is_little_endian())
    }
}

impl Number for u128 {
    open spec fn small(n: nat) -> Self {
        n as u128
    }

    open spec fn has_abs(self) -> bool {
        true
    }

    open spec fn abs_spec(self) -> Self {
        self
    }

    open spec fn signum_spec(self) -> Self {
        if self == 0 {
            0
        } else {
            1
        }
    }

    fn zero() -> (r: Self) {
        0
    }

    fn one() -> (r: Self) {
        1
    }

    fn two() -> (r: Self) {
        2
    }

    fn from_bytes(bytes: [u8; 16]) -> (r: Self) {
        <Self as Number>::from_ne_bytes(bytes)
    }

    fn from_be_bytes(bytes: [u8; 16]) -> (r: Self) {
        let bits = from_be_array(&bytes);
        proof {
            lemma_from_be_bytes_bound(bytes@);
            lemma_pow256_values();
        }
        bits
    }

    fn from_le_bytes(bytes: [u8; 16]) -> (r: Self) {
        let bits = from_le_array(&bytes);
        proof {
            lemma_from_le_bytes_bound(bytes@);
            lemma_pow256_values();
        }
        bits
    }

    fn from_bytes_in(bytes: [u8; 16], little_endian: bool) -> (r: Self) {
        if little_endian {
            <Self as Number>::from_le_bytes(bytes)
        } else {
            <Self as Number>::from_be_bytes(bytes)
        }
    }

    fn from_ne_bytes(bytes: [u8; 16]) -> (r: Self) {
        <Self as Number>::from_bytes_in(bytes, native_is_little_endian())
    }

    fn abs(self) -> (r: Self) {
        self
    }

    fn signum(self) -> (r: Self) {
        if self == 0 {
            0
        } else {
            1
        }
    }
}

impl IntegerValue for u128 {
    open spec fn value(self) -> int {
        self as int
    }

    open spec fn from_value(i: int) -> Self {
        i as u128
    }

    open spec fn lower_bound() -> int {
        u128::MIN as int
    }

    open spec fn upper_bound() -> int {
        u128::MAX as int
    }

    open spec fn width() -> nat {
        128
    }

    proof fn value_fits(self) {
    }

    proof fn value_of_fitting(i: int) {
    }

    proof fn twos_complement(self) {
        lemma_pow2_128();
    }
}

/// The patterns of the type are the numbers below two to the power of its
/// width.
proof fn lemma_width()
    ensures
        pow2(128) == u128::MAX + 1,
{
    lemma_pow2_128();
}

impl Integer for u128 {
    type Unsigned = u128;

    type Signed = i128;

    proof fn constants() {
    }

    proof fn abs_and_sign(self) {
    }

    fn from_unsigned(v: u128) -> (r: Self) {
        v
    }

    fn from_signed(v: i128) -> (r: Self) {
        if v < 0 {
            (v - i128::MIN) as u128 + 0x8000_0000_0000_0000_0000_0000_0000_0000
        } else {
            v as u128
        }
    }

    fn to_unsigned(self) -> (r: u128) {
        self
    }

    fn to_signed(self) -> (r: i128) {
        if self > i128::MAX as u128 {
            (self - 0x8000_0000_0000_0000_0000_0000_0000_0000) as i128 + i128::MIN
        } else {
            self as i128
        }
    }

    fn from_str_radix(src: &str, radix: u32) -> (r: Result<Self, ParseIntError>) {
        parse_u128(src, radix)
    }

    fn count_ones(self) -> (r: u32) {
        count_ones(self)
    }

    fn count_zeros(self) -> (r: u32) {
        proof {
            lemma_width();
            lemma_bit_length_bound(self.pattern(), 128);
        }
        128 - count_ones(self)
    }

    fn leading_zeros(self) -> (r: u32) {
        proof {
            lemma_width();
            lemma_bit_length_bound(self.pattern(), 128);
        }
        128 - count_length(self)
    }

    fn trailing_zeros(self) -> (r: u32) {
        if self == 0 {
            128
        } else {
            count_low_zeros(self)
        }
    }

    fn leading_ones(self) -> (r: u32) {
        proof {
            lemma_width();
            let flipped = complement(self.pattern(), 128);
            lemma_bit_length_bound(flipped, 128);
        }
        128 - count_length(u128::MAX - self)
    }

    fn trailing_ones(self) -> (r: u32) {
        count_low_ones(self)
    }

    fn rotate_left(self, n: u32) -> (r: Self) {
        proof {
            lemma_width();
        }
        let rotated = rotate_left(self, n, 128);
        rotated
    }

    fn rotate_right(self, n: u32) -> (r: Self) {
        proof {
            lemma_width();
        }
        let rotated = rotate_left(self, 128 - n % 128, 128);
        rotated
    }

    fn swap_bytes(self) -> (r: Self) {
        <Self as Number>::from_be_bytes(<Self as NumberLike>::to_le_bytes(self))
    }

    fn reverse_bits(self) -> (r: Self) {
        proof {
            lemma_width();
            lemma_reversed_bound(self.pattern(), 128);
        }
        let reversed = reverse(self, 128);
        reversed
    }

    fn from_be_on(x: Self, little_endian: bool) -> (r: Self) {
        if little_endian {
            <Self as Integer>::swap_bytes(x)
        } else {
            x
        }
    }

    fn from_be(x: Self) -> (r: Self) {
        <Self as Integer>::from_be_on(x, native_is_little_endian())
    }

    fn from_le_on(x: Self, little_endian: bool) -> (r: Self) {
        if little_endian {
            x
        } else {
            <Self as Integer>::swap_bytes(x)
        }
    }

    fn from_le(x: Self) -> (r: Self) {
        <Self as Integer>::from_le_on(x, native_is_little_endian())
    }

    fn to_be_on(self, little_endian: bool) -> (r: Self) {
        if little_endian {
            <Self as Integer>::swap_bytes(self)
        } else {
            self
        }
    }

    fn to_be(self) -> (r: Self) {
        <Self as Integer>::to_be_on(self, native_is_little_endian())
    }

    fn to_le_on(self, little_endian: bool) -> (r: Self) {
        if little_endian {
            self
        } else {
            <Self as Integer>::swap_bytes(self)
        }
    }

    fn to_le(self) -> (r: Self) {
        <Self as Integer>::to_le_on(self, native_is_little_endian())
    }

    fn div_euclid(self, rhs: Self) -> (r: Self) {
        self / rhs
    }

    fn rem_euclid(self, rhs: Self) -> (r: Self) {
        self % rhs
    }

    fn checked_add(self, rhs: Self) -> (r: Option<Self>) {
        self.checked_add(rhs)
    }

    fn strict_add(self, rhs: Self) -> (r: Self) {
        self + rhs
    }

    fn checked_sub(self, rhs: Self) -> (r: Option<Self>) {
        self.checked_sub(rhs)
    }

    fn strict_sub(self, rhs: Self) -> (r: Self) {
        self - rhs
    }

    fn checked_mul(self, rhs: Self) -> (r: Option<Self>) {
        self.checked_mul(rhs)
    }

    fn strict_mul(self, rhs: Self) -> (r: Self) {
        self * rhs
    }

    fn checked_div(self, rhs: Self) -> (r: Option<Self>) {
        self.checked_div(rhs)
    }

    fn strict_div(self, rhs: Self) -> (r: Self) {
        self / rhs
    }

    fn checked_div_euclid(self, rhs: Self) -> (r: Option<Self>) {
        self.checked_div_euclid(rhs)
    }

    fn strict_div_euclid(self, rhs: Self) -> (r: Self) {
        self / rhs
    }

    fn checked_rem(self, rhs: Self) -> (r: Option<Self>) {
        self.checked_rem(rhs)
    }

    fn strict_rem(self, rhs: Self) -> (r: Self) {
        self % rhs
    }

    fn checked_rem_euclid(self, rhs: Self) -> (r: Option<Self>) {
        self.checked_rem_euclid(rhs)
    }

    fn strict_rem_euclid(self, rhs: Self) -> (r: Self) {
        self % rhs
    }

    fn checked_neg(self) -> (r: Option<Self>) {
        if self == 0 {
            Some(0)
        } else {
            None
        }
    }

    fn strict_neg(self) -> (r: Self) {
        self
    }

    fn checked_shl(self, rhs: u32) -> (r: Option<Self>) {
        if rhs < 128 {
            Some(<Self as Integer>::strict_shl(self, rhs))
        } else {
            None
        }
    }

    fn strict_shl(self, rhs: u32) -> (r: Self) {
        proof {
            lemma_width();
        }
        let shifted = shift_left(self, rhs, 128);
        shifted
    }

    fn unbounded_shl(self, rhs: u32) -> (r: Self) {
        if rhs < 128 {
            <Self as Integer>::strict_shl(self, rhs)
        } else {
            0
        }
    }

    fn checked_shr(self, rhs: u32) -> (r: Option<Self>) {
        if rhs < 128 {
            Some(<Self as Integer>::strict_shr(self, rhs))
        } else {
            None
        }
    }

    fn strict_shr(self, rhs: u32) -> (r: Self) {
        proof {
            lemma_width();
            lemma_pow2_pos(rhs as nat);
        }
        self / power_of_two(rhs)
    }

    fn unbounded_shr(self, rhs: u32) -> (r: Self) {
        if rhs < 128 {
            <Self as Integer>::strict_shr(self, rhs)
        } else {
            0
        }
    }
    fn checked_pow(self, exp: u32) -> (r: Option<Self>) {
        proof {
            lemma_pow_of_negative(self as int, exp as nat);
        }
        checked_pow(self, exp)
    }

    fn strict_pow(self, exp: u32) -> (r: Self) {
        <Self as Integer>::checked_pow(self, exp).unwrap()
    }

    fn saturating_add(self, rhs: Self) -> (r: Self) {
        self.saturating_add(rhs)
    }

    fn saturating_sub(self, rhs: Self) -> (r: Self) {
        self.saturating_sub(rhs)
    }

    fn saturating_mul(self, rhs: Self) -> (r: Self) {
        match self.checked_mul(rhs) {
            Some(product) => product,
            None => u128::MAX,
        }
    }

    fn saturating_div(self, rhs: Self) -> (r: Self) {
        self / rhs
    }

    fn saturating_pow(self, exp: u32) -> (r: Self) {
        proof {
            lemma_pow_of_negative(self as int, exp as nat);
        }
        match <Self as Integer>::checked_pow(self, exp) {
            Some(power) => power,
            None => u128::MAX,
        }
    }

    fn wrapping_add(self, rhs: Self) -> (r: Self) {
        proof {
            lemma_wrap_near(u128::MIN as int, u128::MAX as int, self + rhs);
        }
        self.wrapping_add(rhs)
    }

    fn wrapping_sub(self, rhs: Self) -> (r: Self) {
        proof {
            lemma_wrap_near(u128::MIN as int, u128::MAX as int, self - rhs);
        }
        self.wrapping_sub(rhs)
    }

    fn wrapping_mul(self, rhs: Self) -> (r: Self) {
        proof {
            lemma_wrap_unsigned(u128::MAX as int, self * rhs);
        }
        self.wrapping_mul(rhs)
    }

    fn wrapping_div(self, rhs: Self) -> (r: Self) {
        proof {
            lemma_wrap_near(u128::MIN as int, u128::MAX as int, (self / rhs) as int);
        }
        self / rhs
    }

    fn wrapping_div_euclid(self, rhs: Self) -> (r: Self) {
        proof {
            lemma_wrap_near(u128::MIN as int, u128::MAX as int, (self / rhs) as int);
        }
        self / rhs
    }

    fn wrapping_rem(self, rhs: Self) -> (r: Self) {
        self % rhs
    }

    fn wrapping_rem_euclid(self, rhs: Self) -> (r: Self) {
        self % rhs
    }

    fn wrapping_neg(self) -> (r: Self) {
        proof {
            lemma_wrap_near(u128::MIN as int, u128::MAX as int, -(self as int));
        }
        if self == 0 {
            0
        } else {
            u128::MAX - self + 1
        }
    }

    fn wrapping_shl(self, rhs: u32) -> (r: Self) {
        <Self as Integer>::strict_shl(self, rhs % 128)
    }

    fn wrapping_shr(self, rhs: u32) -> (r: Self) {
        <Self as Integer>::strict_shr(self, rhs % 128)
    }

    fn wrapping_pow(self, exp: u32) -> (r: Self) {
        proof {
            lemma_wrap_unsigned(u128::MAX as int, pow(self as int, exp as nat));
        }
        wrapping_pow(self, exp)
    }

    fn overflowing_add(self, rhs: Self) -> (r: (Self, bool)) {
        (<Self as Integer>::wrapping_add(self, rhs), self.checked_add(rhs).is_none())
    }

    fn overflowing_sub(self, rhs: Self) -> (r: (Self, bool)) {
        (<Self as Integer>::wrapping_sub(self, rhs), self.checked_sub(rhs).is_none())
    }

    fn overflowing_mul(self, rhs: Self) -> (r: (Self, bool)) {
        (<Self as Integer>::wrapping_mul(self, rhs), self.checked_mul(rhs).is_none())
    }

    fn overflowing_shl(self, rhs: u32) -> (r: (Self, bool)) {
        (<Self as Integer>::wrapping_shl(self, rhs), rhs >= 128)
    }

    fn overflowing_shr(self, rhs: u32) -> (r: (Self, bool)) {
        (<Self as Integer>::wrapping_shr(self, rhs), rhs >= 128)
    }

    fn overflowing_pow(self, exp: u32) -> (r: (Self, bool)) {
        (
            <Self as Integer>::wrapping_pow(self, exp),
            <Self as Integer>::checked_pow(self, exp).is_none(),
        )
    }

    fn pow(self, exp: u32) -> (r: Self) {
        <Self as Integer>::checked_pow(self, exp).unwrap()
    }

    fn isqrt(self) -> (r: Self) {
        let root = isqrt(self);
        assert(root <= self) by (nonlinear_arith)
            requires
                root * root <= self,
        ;
        root
    }

    fn ilog(self, base: Self) -> (r: u32) {
        ilog(self, base)
    }

    fn ilog2(self) -> (r: u32) {
        ilog(self, 2)
    }

    fn ilog10(self) -> (r: u32) {
        ilog(self, 10)
    }

    fn checked_ilog(self, base: Self) -> (r: Option<u32>) {
        if self <= 0 || base < 2 {
            None
        } else {
            Some(ilog(self, base))
        }
    }

    fn checked_ilog2(self) -> (r: Option<u32>) {
        if self <= 0 {
            None
        } else {
            Some(ilog(self, 2))
        }
    }

    fn checked_ilog10(self) -> (r: Option<u32>) {
        if self <= 0 {
            None
        } else {
            Some(ilog(self, 10))
        }
    }

    fn overflowing_div(self, rhs: Self) -> (r: (Self, bool)) {
        (<Self as Integer>::wrapping_div(self, rhs), false)
    }

    fn overflowing_div_euclid(self, rhs: Self) -> (r: (Self, bool)) {
        (<Self as Integer>::wrapping_div_euclid(self, rhs), false)
    }

    fn overflowing_rem(self, rhs: Self) -> (r: (Self, bool)) {
        (self % rhs, false)
    }

    fn overflowing_rem_euclid(self, rhs: Self) -> (r: (Self, bool)) {
        (self % rhs, false)
    }

    fn overflowing_neg(self) -> (r: (Self, bool)) {
        (<Self as Integer>::wrapping_neg(self), self != 0)
    }

    fn abs_diff(self, other: Self) -> (r: u128) {
        if self < other {
            other - self
        } else {
            self - other
        }
    }

    fn midpoint(self, rhs: Self) -> (r: Self) {
        proof {
            if self < rhs {
                lemma_midpoint(self as int, rhs as int);
            } else {
                lemma_midpoint(rhs as int, self as int);
            }
        }
        if self < rhs {
            self + (rhs - self) / 2
        } else {
            rhs + (self - rhs) / 2
        }
    }
}

impl Unsigned for u128 {
    proof fn unsigned_bounds() {
    }

    fn cast_signed(self) -> (r: i128) {
        <Self as Integer>::to_signed(self)
    }

    fn checked_add_signed(self, rhs: i128) -> (r: Option<Self>) {
        self.checked_add_signed(rhs)
    }

    fn strict_add_signed(self, rhs: i128) -> (r: Self) {
        self.checked_add_signed(rhs).unwrap()
    }

    fn checked_sub_signed(self, rhs: i128) -> (r: Option<Self>) {
        if rhs < 0 {
            self.checked_add((-(rhs + 1)) as u128 + 1)
        } else {
            self.checked_sub(rhs as u128)
        }
    }

    fn strict_sub_signed(self, rhs: i128) -> (r: Self) {
        <Self as Unsigned>::checked_sub_signed(self, rhs).unwrap()
    }

    fn checked_signed_diff(self, rhs: Self) -> (r: Option<i128>) {
        if self >= rhs {
            let distance = self - rhs;
            if distance <= i128::MAX as u128 {
                Some(distance as i128)
            } else {
                None
            }
        } else {
            let distance = rhs - self;
            if distance <= i128::MAX as u128 {
                Some(-(distance as i128))
            } else if distance - 1 == i128::MAX as u128 {
                Some(i128::MIN)
            } else {
                None
            }
        }
    }

    fn saturating_add_signed(self, rhs: i128) -> (r: Self) {
        match self.checked_add_signed(rhs) {
            Some(sum) => sum,
            None => if rhs < 0 {
                0
            } else {
                u128::MAX
            },
        }
    }

    fn saturating_sub_signed(self, rhs: i128) -> (r: Self) {
        match <Self as Unsigned>::checked_sub_signed(self, rhs) {
            Some(difference) => difference,
            None => if rhs < 0 {
                u128::MAX
            } else {
                0
            },
        }
    }

    fn wrapping_add_signed(self, rhs: i128) -> (r: Self) {
        proof {
            lemma_wrap_near(u128::MIN as int, u128::MAX as int, self + rhs);
        }
        self.wrapping_add_signed(rhs)
    }

    fn wrapping_sub_signed(self, rhs: i128) -> (r: Self) {
        let subtrahend = <Self as Integer>::from_signed(rhs);
        proof {
            lemma_wrap_near(u128::MIN as int, u128::MAX as int, self - subtrahend);
            lemma_wrap_near(u128::MIN as int, u128::MAX as int, self - rhs);
        }
        self.wrapping_sub(subtrahend)
    }

    fn carrying_add(self, rhs: Self, carry: bool) -> (r: (Self, bool)) {
        let one: u128 = if carry {
            1
        } else {
            0
        };
        let (partial, first) = <Self as Integer>::overflowing_add(self, rhs);
        let (sum, second) = <Self as Integer>::overflowing_add(partial, one);
        proof {
            lemma_wrap_near(u128::MIN as int, u128::MAX as int, self + rhs);
            lemma_wrap_near(u128::MIN as int, u128::MAX as int, partial + one);
            lemma_wrap_near(u128::MIN as int, u128::MAX as int, self + rhs + one);
        }
        (sum, first || second)
    }

    fn overflowing_add_signed(self, rhs: i128) -> (r: (Self, bool)) {
        (<Self as Unsigned>::wrapping_add_signed(self, rhs), self.checked_add_signed(rhs).is_none())
    }

    fn borrowing_sub(self, rhs: Self, borrow: bool) -> (r: (Self, bool)) {
        let one: u128 = if borrow {
            1
        } else {
            0
        };
        let (partial, first) = <Self as Integer>::overflowing_sub(self, rhs);
        let (difference, second) = <Self as Integer>::overflowing_sub(partial, one);
        proof {
            lemma_wrap_near(u128::MIN as int, u128::MAX as int, self - rhs);
            lemma_wrap_near(u128::MIN as int, u128::MAX as int, partial - one);
            lemma_wrap_near(u128::MIN as int, u128::MAX as int, self - rhs - one);
        }
        (difference, first || second)
    }

    fn overflowing_sub_signed(self, rhs: i128) -> (r: (Self, bool)) {
        (
            <Self as Unsigned>::wrapping_sub_signed(self, rhs),
            <Self as Unsigned>::checked_sub_signed(self, rhs).is_none(),
        )
    }

    fn carrying_mul(self, rhs: Self, carry: Self) -> (r: (Self, Self)) {
        <Self as Unsigned>::carrying_mul_add(self, rhs, carry, 0)
    }

    fn carrying_mul_add(self, rhs: Self, carry: Self, add: Self) -> (r: (Self, Self)) {
        let (low, high) = multiply_add(self, rhs, carry, add);
        proof {
            let total = self * rhs + carry + add;
            lemma_wrap_unsigned(u128::MAX as int, total);
            lemma_fundamental_div_mod_converse(total, u128::MAX + 1, high as int, low as int);
        }
        (low, high)
    }

    fn div_ceil(self, rhs: Self) -> (r: Self) {
        proof {
            lemma_div_ceil(self as int, rhs as int);
        }
        if self % rhs == 0 {
            self / rhs
        } else {
            self / rhs + 1
        }
    }

    fn next_multiple_of(self, rhs: Self) -> (r: Self) {
        let remainder = self % rhs;
        if remainder == 0 {
            self
        } else {
            self + (rhs - remainder)
        }
    }

    fn checked_next_multiple_of(self, rhs: Self) -> (r: Option<Self>) {
        if rhs == 0 {
            None
        } else {
            let remainder = self % rhs;
            if remainder == 0 {
                Some(self)
            } else {
                self.checked_add(rhs - remainder)
            }
        }
    }

    fn is_power_of_two(self) -> (r: bool) {
        is_power_of_two(self)
    }

    fn next_power_of_two(self) -> (r: Self) {
        <Self as Unsigned>::checked_next_power_of_two(self).unwrap()
    }

    fn checked_next_power_of_two(self) -> (r: Option<Self>) {
        next_power_of_two(self)
    }

    fn is_multiple_of(self, rhs: Self) -> (r: bool) {
        self.is_multiple_of(rhs)
    }
}

} // verus!
