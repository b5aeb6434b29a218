//! The capabilities of `u64`.

use vstd::prelude::*;
use core::num::ParseIntError;
use vstd::arithmetic::div_mod::{lemma_mod_bound, lemma_mod_mod, lemma_multiply_divide_lt};
use vstd::arithmetic::power::pow;
use vstd::arithmetic::power2::{lemma_pow2_adds, lemma_pow2_pos, pow2};
use crate::num::arith::{
    lemma_div_ceil, lemma_midpoint, lemma_pow_of_negative, lemma_wrap_near, lemma_wrap_unsigned,
};
use crate::num::bits::{
    complement, count_length, count_low_ones, count_low_zeros, count_ones, lemma_bit_length_bound,
    lemma_pow2_128, lemma_reversed_bound, power_of_two, reverse, rotate_left, shift_left,
};
use crate::num::bytes::{
    from_be_array, from_le_array, lemma_from_be_bytes_bound, lemma_from_le_bytes_bound,
    lemma_pow256_values, native_is_little_endian, to_be_array, to_le_array,
};
use crate::num::integer::Integer;
use crate::num::number::Number;
use crate::num::number_like::NumberLike;
use crate::num::pattern::BitPattern;
use crate::num::radix::parse_u64;
use crate::num::unsigned::Unsigned;
use crate::num::value::IntegerValue;
use crate::num::wide::{checked_pow, ilog, is_power_of_two, isqrt, next_power_of_two, wrapping_pow};
use crate::primitive::Primitive;

verus! {

impl Primitive for u64 {}

impl BitPattern for u64 {
    open spec fn size() -> nat {
        8
    }

    open spec fn pattern(self) -> nat {
        self as nat
    }

    open spec fn is_pattern(bits: nat) -> bool {
        bits <= u64::MAX
    }

    open spec fn of_pattern(bits: nat) -> Self {
        bits as u64
    }

    proof fn pattern_of_value(self) {
    }

    proof fn value_of_pattern(bits: nat) {
        lemma_pow256_values();
    }
}

impl NumberLike for u64 {
    open spec fn least() -> Self {
        u64::MIN
    }

    open spec fn greatest() -> Self {
        u64::MAX
    }

    type Underlying = u64;

    type ByteArray = [u8; 8];

    proof fn underlying_holds(bits: nat) {
    }

    proof fn byte_array_len(bytes: [u8; 8]) {
    }

    fn min_value() -> (r: Self) {
        u64::MIN
    }

    fn max_value() -> (r: Self) {
        u64::MAX
    }

    fn to_underlying(self) -> (r: u64) {
        self
    }

    fn try_from_underlying(underlying: u64) -> (r: Option<Self>) {
        Some(underlying)
    }

    fn to_bytes(self) -> (r: [u8; 8]) {
        <Self as NumberLike>::to_ne_bytes(self)
    }

    fn try_from_bytes(bytes: [u8; 8]) -> (r: Option<Self>) {
        <Self as NumberLike>::try_from_ne_bytes(bytes)
    }

    fn to_be_bytes(self) -> (r: [u8; 8]) {
        to_be_array(self as u128)
    }

    fn to_le_bytes(self) -> (r: [u8; 8]) {
        to_le_array(self as u128)
    }

    fn to_bytes_in(self, little_endian: bool) -> (r: [u8; 8]) {
        if little_endian {
            <Self as NumberLike>::to_le_bytes(self)
        } else {
            <Self as NumberLike>::to_be_bytes(self)
        }
    }

    fn to_ne_bytes(self) -> (r: [u8; 8]) {
        <Self as NumberLike>::to_bytes_in(self, native_is_little_endian())
    }

    fn try_from_be_bytes(bytes: [u8; 8]) -> (r: Option<Self>) {
        proof {
            lemma_from_be_bytes_bound(bytes@);
            lemma_pow256_values();
        }
        Some(<Self as Number>::from_be_bytes(bytes))
    }

    fn try_from_le_bytes(bytes: [u8; 8]) -> (r: Option<Self>) {
        proof {
            lemma_from_le_bytes_bound(bytes@);
            lemma_pow256_values();
        }
        Some(<Self as Number>::from_le_bytes(bytes))
    }

    fn try_from_bytes_in(bytes: [u8; 8], little_endian: bool) -> (r: Option<Self>) {
        if little_endian {
            <Self as NumberLike>::try_from_le_bytes(bytes)
        } else {
            <Self as NumberLike>::try_from_be_bytes(bytes)
        }
    }

    fn try_from_ne_bytes(bytes: [u8; 8]) -> (r: Option<Self>) {
        <Self as NumberLike>::try_from_bytes_in(bytes, native_is_little_endian())
    }
}

impl Number for u64 {
    open spec fn small(n: nat) -> Self {
        n as u64
    }

    open spec fn has_abs(self) -> bool {
        true
    }

    open spec fn abs_spec(self) -> Self {
        self
    }

    open spec fn signum_spec(self) -> Self {
        if self == 0 {
            0
        } else {
            1
        }
    }

    fn zero() -> (r: Self) {
        0
    }

    fn one() -> (r: Self) {
        1
    }

    fn two() -> (r: Self) {
        2
    }

    fn from_bytes(bytes: [u8; 8]) -> (r: Self) {
        <Self as Number>::from_ne_bytes(bytes)
    }

    fn from_be_bytes(bytes: [u8; 8]) -> (r: Self) {
        let bits = from_be_array(&bytes);
        proof {
            lemma_from_be_bytes_bound(bytes@);
            lemma_pow256_values();
        }
        bits as u64
    }

    fn from_le_bytes(bytes: [u8; 8]) -> (r: Self) {
        let bits = from_le_array(&bytes);
        proof {
            lemma_from_le_bytes_bound(bytes@);
            lemma_pow256_values();
        }
        bits as u64
    }

    fn from_bytes_in(bytes: [u8; 8], little_endian: bool) -> (r: Self) {
        if little_endian {
            <Self as Number>::from_le_bytes(bytes)
        } else {
            <Self as Number>::from_be_bytes(bytes)
        }
    }

    fn from_ne_bytes(bytes: [u8; 8]) -> (r: Self) {
        <Self as Number>::from_bytes_in(bytes, native_is_little_endian())
    }

    fn abs(self) -> (r: Self) {
        self
    }

    fn signum(self) -> (r: Self) {
        if self == 0 {
            0
        } else {
            1
        }
    }
}

impl IntegerValue for u64 {
    open spec fn value(self) -> int {
        self as int
    }

    open spec fn from_value(i: int) -> Self {
        i as u64
    }

    open spec fn lower_bound() -> int {
        u64::MIN as int
    }

    open spec fn upper_bound() -> int {
        u64::MAX as int
    }

    open spec fn width() -> nat {
        64
    }

    proof fn value_fits(self) {
    }

    proof fn value_of_fitting(i: int) {
    }

    proof fn twos_complement(self) {
        lemma_pow2_128();
    }
}

/// The patterns of the type are the numbers below two to the power of its
/// width.
proof fn lemma_width()
    ensures
        pow2(64) == u64::MAX + 1,
{
    lemma_pow2_128();
}

impl Integer for u64 {
    type Unsigned = u64;

    type Signed = i64;

    proof fn constants() {
    }

    proof fn abs_and_sign(self) {
    }

    fn from_unsigned(v: u64) -> (r: Self) {
        v
    }

    fn from_signed(v: i64) -> (r: Self) {
        if v < 0 {
            (v - i64::MIN) as u64 + 0x8000_0000_0000_0000
        } else {
            v as u64
        }
    }

    fn to_unsigned(self) -> (r: u64) {
        self
    }

    fn to_signed(self) -> (r: i64) {
        if self > i64::MAX as u64 {
            (self - 0x8000_0000_0000_0000) as i64 + i64::MIN
        } else {
            self as i64
        }
    }

    fn from_str_radix(src: &str, radix: u32) -> (r: Result<Self, ParseIntError>) {
        parse_u64(src, radix)
    }

    fn count_ones(self) -> (r: u32) {
        let bits = self as u128;
        count_ones(bits)
    }

    fn count_zeros(self) -> (r: u32) {
        let bits = self as u128;
        proof {
            lemma_width();
            lemma_bit_length_bound(self.pattern(), 64);
        }
        64 - count_ones(bits)
    }

    fn leading_zeros(self) -> (r: u32) {
        let bits = self as u128;
        proof {
            lemma_width();
            lemma_bit_length_bound(self.pattern(), 64);
        }
        64 - count_length(bits)
    }

    fn trailing_zeros(self) -> (r: u32) {
        let bits = self as u128;
        if self == 0 {
            64
        } else {
            count_low_zeros(bits)
        }
    }

    fn leading_ones(self) -> (r: u32) {
        let bits = self as u128;
        proof {
            lemma_width();
            let flipped = complement(self.pattern(), 64);
            lemma_bit_length_bound(flipped, 64);
        }
        64 - count_length(u64::MAX as u128 - bits)
    }

    fn trailing_ones(self) -> (r: u32) {
        let bits = self as u128;
        count_low_ones(bits)
    }

    fn rotate_left(self, n: u32) -> (r: Self) {
        let bits = self as u128;
        proof {
            lemma_width();
        }
        let rotated = rotate_left(bits, n, 64);
        rotated as u64
    }

    fn rotate_right(self, n: u32) -> (r: Self) {
        let bits = self as u128;
        proof {
            lemma_width();
        }
        let rotated = rotate_left(bits, 64 - n % 64, 64);
        rotated as u64
    }

    fn swap_bytes(self) -> (r: Self) {
        <Self as Number>::from_be_bytes(<Self as NumberLike>::to_le_bytes(self))
    }

    fn reverse_bits(self) -> (r: Self) {
        let bits = self as u128;
        proof {
            lemma_width();
            lemma_reversed_bound(self.pattern(), 64);
        }
        let reversed = reverse(bits, 64);
        reversed as u64
    }

    fn from_be_on(x: Self, little_endian: bool) -> (r: Self) {
        if little_endian {
            <Self as Integer>::swap_bytes(x)
        } else {
            x
        }
    }

    fn from_be(x: Self) -> (r: Self) {
        <Self as Integer>::from_be_on(x, native_is_little_endian())
    }

    fn from_le_on(x: Self, little_endian: bool) -> (r: Self) {
        if little_endian {
            x
        } else {
            <Self as Integer>::swap_bytes(x)
        }
    }

    fn from_le(x: Self) -> (r: Self) {
        <Self as Integer>::from_le_on(x, native_is_little_endian())
    }

    fn to_be_on(self, little_endian: bool) -> (r: Self) {
        if little_endian {
            <Self as Integer>::swap_bytes(self)
        } else {
            self
        }
    }

    fn to_be(self) -> (r: Self) {
        <Self as Integer>::to_be_on(self, native_is_little_endian())
    }

    fn to_le_on(self, little_endian: bool) -> (r: Self) {
        if little_endian {
            self
        } else {
            <Self as Integer>::swap_bytes(self)
        }
    }

    fn to_le(self) -> (r: Self) {
        <Self as Integer>::to_le_on(self, native_is_little_endian())
    }

    fn div_euclid(self, rhs: Self) -> (r: Self) {
        self / rhs
    }

    fn rem_euclid(self, rhs: Self) -> (r: Self) {
        self % rhs
    }

    fn checked_add(self, rhs: Self) -> (r: Option<Self>) {
        self.checked_add(rhs)
    }

    fn strict_add(self, rhs: Self) -> (r: Self) {
        self + rhs
    }

    fn checked_sub(self, rhs: Self) -> (r: Option<Self>) {
        self.checked_sub(rhs)
    }

    fn strict_sub(self, rhs: Self) -> (r: Self) {
        self - rhs
    }

    fn checked_mul(self, rhs: Self) -> (r: Option<Self>) {
        self.checked_mul(rhs)
    }

    fn strict_mul(self, rhs: Self) -> (r: Self) {
        self * rhs
    }

    fn checked_div(self, rhs: Self) -> (r: Option<Self>) {
        self.checked_div(rhs)
    }

    fn strict_div(self, rhs: Self) -> (r: Self) {
        self / rhs
    }

    fn checked_div_euclid(self, rhs: Self) -> (r: Option<Self>) {
        self.checked_div_euclid(rhs)
    }

    fn strict_div_euclid(self, rhs: Self) -> (r: Self) {
        self / rhs
    }

    fn checked_rem(self, rhs: Self) -> (r: Option<Self>) {
        self.checked_rem(rhs)
    }

    fn strict_rem(self, rhs: Self) -> (r: Self) {
        self % rhs
    }

    fn checked_rem_euclid(self, rhs: Self) -> (r: Option<Self>) {
        self.checked_rem_euclid(rhs)
    }

    fn strict_rem_euclid(self, rhs: Self) -> (r: Self) {
        self % rhs
    }

    fn checked_neg(self) -> (r: Option<Self>) {
        if self == 0 {
            Some(0)
        } else {
            None
        }
    }

    fn strict_neg(self) -> (r: Self) {
        self
    }

    fn checked_shl(self, rhs: u32) -> (r: Option<Self>) {
        if rhs < 64 {
            Some(<Self as Integer>::strict_shl(self, rhs))
        } else {
            None
        }
    }

    fn strict_shl(self, rhs: u32) -> (r: Self) {
        let bits = self as u128;
        proof {
            lemma_width();
        }
        let shifted = shift_left(bits, rhs, 64);
        shifted as u64
    }

    fn unbounded_shl(self, rhs: u32) -> (r: Self) {
        if rhs < 64 {
            <Self as Integer>::strict_shl(self, rhs)
        } else {
            0
        }
    }

    fn checked_shr(self, rhs: u32) -> (r: Option<Self>) {
        if rhs < 64 {
            Some(<Self as Integer>::strict_shr(self, rhs))
        } else {
            None
        }
    }

    fn strict_shr(self, rhs: u32) -> (r: Self) {
        proof {
            lemma_width();
            lemma_pow2_pos(rhs as nat);
        }
        ((self as u128) / power_of_two(rhs)) as u64
    }

    fn unbounded_shr(self, rhs: u32) -> (r: Self) {
        if rhs < 64 {
            <Self as Integer>::strict_shr(self, rhs)
        } else {
            0
        }
    }
    fn checked_pow(self, exp: u32) -> (r: Option<Self>) {
        proof {
            lemma_pow_of_negative(self as int, exp as nat);
        }
        match checked_pow(self as u128, exp) {
            Some(power) => if power <= u64::MAX as u128 {
                Some(power as u64)
            } else {
                None
            },
            None => None,
        }
    }

    fn strict_pow(self, exp: u32) -> (r: Self) {
        <Self as Integer>::checked_pow(self, exp).unwrap()
    }

    fn saturating_add(self, rhs: Self) -> (r: Self) {
        self.saturating_add(rhs)
    }

    fn saturating_sub(self, rhs: Self) -> (r: Self) {
        self.saturating_sub(rhs)
    }

    fn saturating_mul(self, rhs: Self) -> (r: Self) {
        match self.checked_mul(rhs) {
            Some(product) => product,
            None => u64::MAX,
        }
    }

    fn saturating_div(self, rhs: Self) -> (r: Self) {
        self / rhs
    }

    fn saturating_pow(self, exp: u32) -> (r: Self) {
        proof {
            lemma_pow_of_negative(self as int, exp as nat);
        }
        match <Self as Integer>::checked_pow(self, exp) {
            Some(power) => power,
            None => u64::MAX,
        }
    }

    fn wrapping_add(self, rhs: Self) -> (r: Self) {
        proof {
            lemma_wrap_near(u64::MIN as int, u64::MAX as int, self + rhs);
        }
        self.wrapping_add(rhs)
    }

    fn wrapping_sub(self, rhs: Self) -> (r: Self) {
        proof {
            lemma_wrap_near(u64::MIN as int, u64::MAX as int, self - rhs);
        }
        self.wrapping_sub(rhs)
    }

    fn wrapping_mul(self, rhs: Self) -> (r: Self) {
        proof {
            lemma_wrap_unsigned(u64::MAX as int, self * rhs);
        }
        self.wrapping_mul(rhs)
    }

    fn wrapping_div(self, rhs: Self) -> (r: Self) {
        proof {
            lemma_wrap_near(u64::MIN as int, u64::MAX as int, (self / rhs) as int);
        }
        self / rhs
    }

    fn wrapping_div_euclid(self, rhs: Self) -> (r: Self) {
        proof {
            lemma_wrap_near(u64::MIN as int, u64::MAX as int, (self / rhs) as int);
        }
        self / rhs
    }

    fn wrapping_rem(self, rhs: Self) -> (r: Self) {
        self % rhs
    }

    fn wrapping_rem_euclid(self, rhs: Self) -> (r: Self) {
        self % rhs
    }

    fn wrapping_neg(self) -> (r: Self) {
        proof {
            lemma_wrap_near(u64::MIN as int, u64::MAX as int, -(self as int));
        }
        if self == 0 {
            0
        } else {
            u64::MAX - self + 1
        }
    }

    fn wrapping_shl(self, rhs: u32) -> (r: Self) {
        <Self as Integer>::strict_shl(self, rhs % 64)
    }

    fn wrapping_shr(self, rhs: u32) -> (r: Self) {
        <Self as Integer>::strict_shr(self, rhs % 64)
    }

    fn wrapping_pow(self, exp: u32) -> (r: Self) {
        proof {
            lemma_width();
            lemma_pow2_128();
            lemma_pow2_adds(64, (128 - 64) as nat);
            lemma_pow2_pos((128 - 64) as nat);
            lemma_mod_mod(
                pow(self as int, exp as nat),
                pow2(64) as int,
                pow2((128 - 64) as nat) as int,
            );
            lemma_wrap_unsigned(u64::MAX as int, pow(self as int, exp as nat));
            lemma_mod_bound(pow(self as int, exp as nat), 0x1_0000_0000_0000_0000 as int);
        }
        (wrapping_pow(self as u128, exp) % 0x1_0000_0000_0000_0000) as u64
    }

    fn overflowing_add(self, rhs: Self) -> (r: (Self, bool)) {
        (<Self as Integer>::wrapping_add(self, rhs), self.checked_add(rhs).is_none())
    }

    fn overflowing_sub(self, rhs: Self) -> (r: (Self, bool)) {
        (<Self as Integer>::wrapping_sub(self, rhs), self.checked_sub(rhs).is_none())
    }

    fn overflowing_mul(self, rhs: Self) -> (r: (Self, bool)) {
        (<Self as Integer>::wrapping_mul(self, rhs), self.checked_mul(rhs).is_none())
    }

    fn overflowing_shl(self, rhs: u32) -> (r: (Self, bool)) {
        (<Self as Integer>::wrapping_shl(self, rhs), rhs >= 64)
    }

    fn overflowing_shr(self, rhs: u32) -> (r: (Self, bool)) {
        (<Self as Integer>::wrapping_shr(self, rhs), rhs >= 64)
    }

    fn overflowing_pow(self, exp: u32) -> (r: (Self, bool)) {
        (
            <Self as Integer>::wrapping_pow(self, exp),
            <Self as Integer>::checked_pow(self, exp).is_none(),
        )
    }

    fn pow(self, exp: u32) -> (r: Self) {
        <Self as Integer>::checked_pow(self, exp).unwrap()
    }

    fn isqrt(self) -> (r: Self) {
        let root = isqrt(self as u128);
        assert(root <= self) by (nonlinear_arith)
            requires
                root * root <= self,
        ;
        root as u64
    }

    fn ilog(self, base: Self) -> (r: u32) {
        ilog(self as u128, base as u128)
    }

    fn ilog2(self) -> (r: u32) {
        ilog(self as u128, 2)
    }

    fn ilog10(self) -> (r: u32) {
        ilog(self as u128, 10)
    }

    fn checked_ilog(self, base: Self) -> (r: Option<u32>) {
        if self <= 0 || base < 2 {
            None
        } else {
            Some(ilog(self as u128, base as u128))
        }
    }

    fn checked_ilog2(self) -> (r: Option<u32>) {
        if self <= 0 {
            None
        } else {
            Some(ilog(self as u128, 2))
        }
    }

    fn checked_ilog10(self) -> (r: Option<u32>) {
        if self <= 0 {
            None
        } else {
            Some(ilog(self as u128, 10))
        }
    }

    fn overflowing_div(self, rhs: Self) -> (r: (Self, bool)) {
        (<Self as Integer>::wrapping_div(self, rhs), false)
    }

    fn overflowing_div_euclid(self, rhs: Self) -> (r: (Self, bool)) {
        (<Self as Integer>::wrapping_div_euclid(self, rhs), false)
    }

    fn overflowing_rem(self, rhs: Self) -> (r: (Self, bool)) {
        (self % rhs, false)
    }

    fn overflowing_rem_euclid(self, rhs: Self) -> (r: (Self, bool)) {
        (self % rhs, false)
    }

    fn overflowing_neg(self) -> (r: (Self, bool)) {
        (<Self as Integer>::wrapping_neg(self), self != 0)
    }

    fn abs_diff(self, other: Self) -> (r: u64) {
        if self < other {
            other - self
        } else {
            self - other
        }
    }

    fn midpoint(self, rhs: Self) -> (r: Self) {
        proof {
            if self < rhs {
                lemma_midpoint(self as int, rhs as int);
            } else {
                lemma_midpoint(rhs as int, self as int);
            }
        }
        if self < rhs {
            self + (rhs - self) / 2
        } else {
            rhs + (self - rhs) / 2
        }
    }
}

impl Unsigned for u64 {
    proof fn unsigned_bounds() {
    }

    fn cast_signed(self) -> (r: i64) {
        <Self as Integer>::to_signed(self)
    }

    fn checked_add_signed(self, rhs: i64) -> (r: Option<Self>) {
        self.checked_add_signed(rhs)
    }

    fn strict_add_signed(self, rhs: i64) -> (r: Self) {
        self.checked_add_signed(rhs).unwrap()
    }

    fn checked_sub_signed(self, rhs: i64) -> (r: Option<Self>) {
        if rhs < 0 {
            self.checked_add((-(rhs + 1)) as u64 + 1)
        } else {
            self.checked_sub(rhs as u64)
        }
    }

    fn strict_sub_signed(self, rhs: i64) -> (r: Self) {
        <Self as Unsigned>::checked_sub_signed(self, rhs).unwrap()
    }

    fn checked_signed_diff(self, rhs: Self) -> (r: Option<i64>) {
        if self >= rhs {
            let distance = self - rhs;
            if distance <= i64::MAX as u64 {
                Some(distance as i64)
            } else {
                None
            }
        } else {
            let distance = rhs - self;
            if distance <= i64::MAX as u64 {
                Some(-(distance as i64))
            } else if distance - 1 == i64::MAX as u64 {
                Some(i64::MIN)
            } else {
                None
            }
        }
    }

    fn saturating_add_signed(self, rhs: i64) -> (r: Self) {
        match self.checked_add_signed(rhs) {
            Some(sum) => sum,
            None => if rhs < 0 {
                0
            } else {
                u64::MAX
            },
        }
    }

    fn saturating_sub_signed(self, rhs: i64) -> (r: Self) {
        match <Self as Unsigned>::checked_sub_signed(self, rhs) {
            Some(difference) => difference,
            None => if rhs < 0 {
                u64::MAX
            } else {
                0
            },
        }
    }

    fn wrapping_add_signed(self, rhs: i64) -> (r: Self) {
        proof {
            lemma_wrap_near(u64::MIN as int, u64::MAX as int, self + rhs);
        }
        self.wrapping_add_signed(rhs)
    }

    fn wrapping_sub_signed(self, rhs: i64) -> (r: Self) {
        let subtrahend = <Self as Integer>::from_signed(rhs);
        proof {
            lemma_wrap_near(u64::MIN as int, u64::MAX as int, self - subtrahend);
            lemma_wrap_near(u64::MIN as int, u64::MAX as int, self - rhs);
        }
        self.wrapping_sub(subtrahend)
    }

    fn carrying_add(self, rhs: Self, carry: bool) -> (r: (Self, bool)) {
        let one: u64 = if carry {
            1
        } else {
            0
        };
        let (partial, first) = <Self as Integer>::overflowing_add(self, rhs);
        let (sum, second) = <Self as Integer>::overflowing_add(partial, one);
        proof {
            lemma_wrap_near(u64::MIN as int, u64::MAX as int, self + rhs);
            lemma_wrap_near(u64::MIN as int, u64::MAX as int, partial + one);
            lemma_wrap_near(u64::MIN as int, u64::MAX as int, self + rhs + one);
        }
        (sum, first || second)
    }

    fn overflowing_add_signed(self, rhs: i64) -> (r: (Self, bool)) {
        (<Self as Unsigned>::wrapping_add_signed(self, rhs), self.checked_add_signed(rhs).is_none())
    }

    fn borrowing_sub(self, rhs: Self, borrow: bool) -> (r: (Self, bool)) {
        let one: u64 = if borrow {
            1
        } else {
            0
        };
        let (partial, first) = <Self as Integer>::overflowing_sub(self, rhs);
        let (difference, second) = <Self as Integer>::overflowing_sub(partial, one);
        proof {
            lemma_wrap_near(u64::MIN as int, u64::MAX as int, self - rhs);
            lemma_wrap_near(u64::MIN as int, u64::MAX as int, partial - one);
            lemma_wrap_near(u64::MIN as int, u64::MAX as int, self - rhs - one);
        }
        (difference, first || second)
    }

    fn overflowing_sub_signed(self, rhs: i64) -> (r: (Self, bool)) {
        (
            <Self as Unsigned>::wrapping_sub_signed(self, rhs),
            <Self as Unsigned>::checked_sub_signed(self, rhs).is_none(),
        )
    }

    fn carrying_mul(self, rhs: Self, carry: Self) -> (r: (Self, Self)) {
        <Self as Unsigned>::carrying_mul_add(self, rhs, carry, 0)
    }

    fn carrying_mul_add(self, rhs: Self, carry: Self, add: Self) -> (r: (Self, Self)) {
        assert(self * rhs <= u64::MAX * u64::MAX) by (nonlinear_arith)
            requires
                self <= u64::MAX,
                rhs <= u64::MAX,
        ;
        assert((u64::MAX + 1) * (u64::MAX + 1) == u64::MAX * u64::MAX + 2 * u64::MAX + 1
            && u64::MAX * u64::MAX + 2 * u64::MAX <= u128::MAX) by (nonlinear_arith)
            requires
                u64::MAX <= 0xffff_ffff_ffff_ffff,
        ;
        let total = self as u128 * rhs as u128 + carry as u128 + add as u128;
        proof {
            lemma_wrap_unsigned(u64::MAX as int, total as int);
            lemma_multiply_divide_lt(total as int, u64::MAX + 1, u64::MAX + 1);
            lemma_mod_bound(total as int, u64::MAX + 1);
        }
        ((total % 0x1_0000_0000_0000_0000) as u64, (total / 0x1_0000_0000_0000_0000) as u64)
    }

    fn div_ceil(self, rhs: Self) -> (r: Self) {
        proof {
            lemma_div_ceil(self as int, rhs as int);
        }
        if self % rhs == 0 {
            self / rhs
        } else {
            self / rhs + 1
        }
    }

    fn next_multiple_of(self, rhs: Self) -> (r: Self) {
        let remainder = self % rhs;
        if remainder == 0 {
            self
        } else {
            self + (rhs - remainder)
        }
    }

    fn checked_next_multiple_of(self, rhs: Self) -> (r: Option<Self>) {
        if rhs == 0 {
            None
        } else {
            let remainder = self % rhs;
            if remainder == 0 {
                Some(self)
            } else {
                self.checked_add(rhs - remainder)
            }
        }
    }

    fn is_power_of_two(self) -> (r: bool) {
        is_power_of_two(self as u128)
    }

    fn next_power_of_two(self) -> (r: Self) {
        <Self as Unsigned>::checked_next_power_of_two(self).unwrap()
    }

    fn checked_next_power_of_two(self) -> (r: Option<Self>) {
        match next_power_of_two(self as u128) {
            Some(power) => if power <= u64::MAX as u128 {
                Some(power as u64)
            } else {
                None
            },
            None => None,
        }
    }

    fn is_multiple_of(self, rhs: Self) -> (r: bool) {
        self.is_multiple_of(rhs)
    }
}

} // verus!
