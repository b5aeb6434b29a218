//! The capabilities of `usize`.
//!
//! A `usize` is held in eight bytes, whatever the width of a pointer. The
//! bytes above that width are zero going out. Coming in, bytes that denote
//! more than the type holds are no `usize` for the fallible conversions, and
//! lose what lies above the width for the others.

use vstd::prelude::*;
use core::num::ParseIntError;
use vstd::arithmetic::div_mod::{lemma_mod_bound, lemma_mod_mod, lemma_multiply_divide_lt};
use vstd::arithmetic::power::pow;
use vstd::arithmetic::power2::{lemma_pow2_adds, lemma_pow2_pos, pow2};
use crate::num::arith::{
    lemma_div_ceil, lemma_midpoint, lemma_pow_of_negative, lemma_wrap_near, lemma_wrap_unsigned,
};
use crate::num::bits::{
    complement, count_length, count_low_ones, count_low_zeros, count_ones, lemma_bit_length_bound,
    lemma_pow2_128, lemma_reversed_bound, power_of_two, reverse, rotate_left, shift_left,
};
use crate::num::bytes::{
    from_be_array, from_le_array, lemma_pow256_values, native_is_little_endian, to_be_array,
    to_le_array,
};
use crate::num::integer::Integer;
use crate::num::number::Number;
use crate::num::number_like::NumberLike;
use crate::num::pattern::BitPattern;
use crate::num::radix::parse_usize;
use crate::num::unsigned::Unsigned;
use crate::num::value::IntegerValue;
use crate::num::wide::{checked_pow, ilog, is_power_of_two, isqrt, next_power_of_two, wrapping_pow};
use crate::primitive::Primitive;

verus! {

impl Primitive for usize {}

impl BitPattern for usize {
    open spec fn size() -> nat {
        8
    }

    open spec fn pattern(self) -> nat {
        self as nat
    }

    open spec fn is_pattern(bits: nat) -> bool {
        bits <= usize::MAX
    }

    open spec fn of_pattern(bits: nat) -> Self {
        bits as usize
    }

    proof fn pattern_of_value(self) {
    }

    proof fn value_of_pattern(bits: nat) {
        lemma_pow256_values();
    }
}

impl NumberLike for usize {
    open spec fn least() -> Self {
        usize::MIN
    }

    open spec fn greatest() -> Self {
        usize::MAX
    }

    type Underlying = usize;

    type ByteArray = [u8; 8];

    proof fn underlying_holds(bits: nat) {
    }

    proof fn byte_array_len(bytes: [u8; 8]) {
    }

    fn min_value() -> (r: Self) {
        usize::MIN
    }

    fn max_value() -> (r: Self) {
        usize::MAX
    }

    fn to_underlying(self) -> (r: usize) {
        self
    }

    fn try_from_underlying(underlying: usize) -> (r: Option<Self>) {
        Some(underlying)
    }

    fn to_bytes(self) -> (r: [u8; 8]) {
        <Self as NumberLike>::to_ne_bytes(self)
    }

    fn try_from_bytes(bytes: [u8; 8]) -> (r: Option<Self>) {
        <Self as NumberLike>::try_from_ne_bytes(bytes)
    }

    fn to_be_bytes(self) -> (r: [u8; 8]) {
        to_be_array(self as u128)
    }

    fn to_le_bytes(self) -> (r: [u8; 8]) {
        to_le_array(self as u128)
    }

    fn to_bytes_in(self, little_endian: bool) -> (r: [u8; 8]) {
        if little_endian {
            <Self as NumberLike>::to_le_bytes(self)
        } else {
            <Self as NumberLike>::to_be_bytes(self)
        }
    }

    fn to_ne_bytes(self) -> (r: [u8; 8]) {
        <Self as NumberLike>::to_bytes_in(self, native_is_little_endian())
    }

    fn try_from_be_bytes(bytes: [u8; 8]) -> (r: Option<Self>) {
        let bits = from_be_array(&bytes);
        if bits <= usize::MAX as u128 {
            Some(bits as usize)
        } else {
            None
        }
    }

    fn try_from_le_bytes(bytes: [u8; 8]) -> (r: Option<Self>) {
        let bits = from_le_array(&bytes);
        if bits <= usize::MAX as u128 {
            Some(bits as usize)
        } else {
            None
        }
    }

    fn try_from_bytes_in(bytes: [u8; 8], little_endian: bool) -> (r: Option<Self>) {
        if little_endian {
            <Self as NumberLike>::try_from_le_bytes(bytes)
        } else {
            <Self as NumberLike>::try_from_be_bytes(bytes)
        }
    }

    fn try_from_ne_bytes(bytes: [u8; 8]) -> (r: Option<Self>) {
        <Self as NumberLike>::try_from_bytes_in(bytes, native_is_little_endian())
    }
}

impl Number for usize {
    open spec fn small(n: nat) -> Self {
        n as usize
    }

    open spec fn has_abs(self) -> bool {
        true
    }

    open spec fn abs_spec(self) -> Self {
        self
    }

    open spec fn signum_spec(self) -> Self {
        if self == 0 {
            0
        } else {
            1
        }
    }

    fn zero() -> (r: Self) {
        0
    }

    fn one() -> (r: Self) {
        1
    }

    fn two() -> (r: Self) {
        2
    }

    fn from_bytes(bytes: [u8; 8]) -> (r: Self) {
        <Self as Number>::from_ne_bytes(bytes)
    }

    fn from_be_bytes(bytes: [u8; 8]) -> (r: Self) {
        let bits = from_be_array(&bytes);
        let low = #[verifier::truncate] (bits as usize);
        low
    }

    fn from_le_bytes(bytes: [u8; 8]) -> (r: Self) {
        let bits = from_le_array(&bytes);
        let low = #[verifier::truncate] (bits as usize);
        low
    }

    fn from_bytes_in(bytes: [u8; 8], little_endian: bool) -> (r: Self) {
        if little_endian {
            <Self as Number>::from_le_bytes(bytes)
        } else {
            <Self as Number>::from_be_bytes(bytes)
        }
    }

    fn from_ne_bytes(bytes: [u8; 8]) -> (r: Self) {
        <Self as Number>::from_bytes_in(bytes, native_is_little_endian())
    }

    fn abs(self) -> (r: Self) {
        self
    }

    fn signum(self) -> (r: Self) {
        if self == 0 {
            0
        } else {
            1
        }
    }
}

impl IntegerValue for usize {
    open spec fn value(self) -> int {
        self as int
    }

    open spec fn from_value(i: int) -> Self {
        i as usize
    }

    open spec fn lower_bound() -> int {
        usize::MIN as int
    }

    open spec fn upper_bound() -> int {
        usize::MAX as int
    }

    open spec fn width() -> nat {
        usize::BITS as nat
    }

    proof fn value_fits(self) {
    }

    proof fn value_of_fitting(i: int) {
    }

    proof fn twos_complement(self) {
        lemma_pow2_128();
    }
}

/// The patterns of the type are the numbers below two to the power of its
/// width.
proof fn lemma_width()
    ensures
        pow2(usize::BITS as nat) == usize::MAX + 1,
        0 < usize::BITS <= 128,
{
    lemma_pow2_128();
}

impl Integer for usize {
    type Unsigned = usize;

    type Signed = isize;

    proof fn constants() {
    }

    proof fn abs_and_sign(self) {
    }

    fn from_unsigned(v: usize) -> (r: Self) {
        v
    }

    fn from_signed(v: isize) -> (r: Self) {
        if v < 0 {
            (v - isize::MIN) as usize + (isize::MAX as usize + 1)
        } else {
            v as usize
        }
    }

    fn to_unsigned(self) -> (r: usize) {
        self
    }

    fn to_signed(self) -> (r: isize) {
        if self > isize::MAX as usize {
            (self - (isize::MAX as usize + 1)) as isize + isize::MIN
        } else {
            self as isize
        }
    }

    fn from_str_radix(src: &str, radix: u32) -> (r: Result<Self, ParseIntError>) {
        parse_usize(src, radix)
    }

    fn count_ones(self) -> (r: u32) {
        let bits = self as u128;
        count_ones(bits)
    }

    fn count_zeros(self) -> (r: u32) {
        let bits = self as u128;
        proof {
            lemma_width();
            lemma_bit_length_bound(self.pattern(), usize::BITS as nat);
        }
        usize::BITS - count_ones(bits)
    }

    fn leading_zeros(self) -> (r: u32) {
        let bits = self as u128;
        proof {
            lemma_width();
            lemma_bit_length_bound(self.pattern(), usize::BITS as nat);
        }
        usize::BITS - count_length(bits)
    }

    fn trailing_zeros(self) -> (r: u32) {
        let bits = self as u128;
        if self == 0 {
            usize::BITS
        } else {
            count_low_zeros(bits)
        }
    }

    fn leading_ones(self) -> (r: u32) {
        let bits = self as u128;
        proof {
            lemma_width();
            let flipped = complement(self.pattern(), usize::BITS as nat);
            lemma_bit_length_bound(flipped, usize::BITS as nat);
        }
        usize::BITS - count_length(usize::MAX as u128 - bits)
    }

    fn trailing_ones(self) -> (r: u32) {
        let bits = self as u128;
        count_low_ones(bits)
    }

    fn rotate_left(self, n: u32) -> (r: Self) {
        let bits = self as u128;
        proof {
            lemma_width();
        }
        let rotated = rotate_left(bits, n, usize::BITS);
        rotated as usize
    }

    fn rotate_right(self, n: u32) -> (r: Self) {
        let bits = self as u128;
        proof {
            lemma_width();
        }
        let rotated = rotate_left(bits, usize::BITS - n % usize::BITS, usize::BITS);
        rotated as usize
    }

    fn swap_bytes(self) -> (r: Self) {
        <Self as Number>::from_be_bytes(<Self as NumberLike>::to_le_bytes(self))
    }

    fn reverse_bits(self) -> (r: Self) {
        let bits = self as u128;
        proof {
            lemma_width();
            lemma_reversed_bound(self.pattern(), usize::BITS as nat);
        }
        let reversed = reverse(bits, usize::BITS);
        reversed as usize
    }

    fn from_be_on(x: Self, little_endian: bool) -> (r: Self) {
        if little_endian {
            <Self as Integer>::swap_bytes(x)
        } else {
            x
        }
    }

    fn from_be(x: Self) -> (r: Self) {
        <Self as Integer>::from_be_on(x, native_is_little_endian())
    }

    fn from_le_on(x: Self, little_endian: bool) -> (r: Self) {
        if little_endian {
            x
        } else {
            <Self as Integer>::swap_bytes(x)
        }
    }

    fn from_le(x: Self) -> (r: Self) {
        <Self as Integer>::from_le_on(x, native_is_little_endian())
    }

    fn to_be_on(self, little_endian: bool) -> (r: Self) {
        if little_endian {
            <Self as Integer>::swap_bytes(self)
        } else {
            self
        }
    }

    fn to_be(self) -> (r: Self) {
        <Self as Integer>::to_be_on(self, native_is_little_endian())
    }

    fn to_le_on(self, little_endian: bool) -> (r: Self) {
        if little_endian {
            self
        } else {
            <Self as Integer>::swap_bytes(self)
        }
    }

    fn to_le(self) -> (r: Self) {
        <Self as Integer>::to_le_on(self, native_is_little_endian())
    }

    fn div_euclid(self, rhs: Self) -> (r: Self) {
        self / rhs
    }

    fn rem_euclid(self, rhs: Self) -> (r: Self) {
        self % rhs
    }

    fn checked_add(self, rhs: Self) -> (r: Option<Self>) {
        self.checked_add(rhs)
    }

    fn strict_add(self, rhs: Self) -> (r: Self) {
        self + rhs
    }

    fn checked_sub(self, rhs: Self) -> (r: Option<Self>) {
        self.checked_sub(rhs)
    }

    fn strict_sub(self, rhs: Self) -> (r: Self) {
        self - rhs
    }

    fn checked_mul(self, rhs: Self) -> (r: Option<Self>) {
        self.checked_mul(rhs)
    }

    fn strict_mul(self, rhs: Self) -> (r: Self) {
        self * rhs
    }

    fn checked_div(self, rhs: Self) -> (r: Option<Self>) {
        self.checked_div(rhs)
    }

    fn strict_div(self, rhs: Self) -> (r: Self) {
        self / rhs
    }

    fn checked_div_euclid(self, rhs: Self) -> (r: Option<Self>) {
        self.checked_div_euclid(rhs)
    }

    fn strict_div_euclid(self, rhs: Self) -> (r: Self) {
        self / rhs
    }

    fn checked_rem(self, rhs: Self) -> (r: Option<Self>) {
        self.checked_rem(rhs)
    }

    fn strict_rem(self, rhs: Self) -> (r: Self) {
        self % rhs
    }

    fn checked_rem_euclid(self, rhs: Self) -> (r: Option<Self>) {
        self.checked_rem_euclid(rhs)
    }

    fn strict_rem_euclid(self, rhs: Self) -> (r: Self) {
        self % rhs
    }

    fn checked_neg(self) -> (r: Option<Self>) {
        if self == 0 {
            Some(0)
        } else {
            None
        }
    }

    fn strict_neg(self) -> (r: Self) {
        self
    }

    fn checked_shl(self, rhs: u32) -> (r: Option<Self>) {
        if rhs < usize::BITS {
            Some(<Self as Integer>::strict_shl(self, rhs))
        } else {
            None
        }
    }

    fn strict_shl(self, rhs: u32) -> (r: Self) {
        let bits = self as u128;
        proof {
            lemma_width();
        }
        let shifted = shift_left(bits, rhs, usize::BITS);
        shifted as usize
    }

    fn unbounded_shl(self, rhs: u32) -> (r: Self) {
        if rhs < usize::BITS {
            <Self as Integer>::strict_shl(self, rhs)
        } else {
            0
        }
    }

    fn checked_shr(self, rhs: u32) -> (r: Option<Self>) {
        if rhs < usize::BITS {
            Some(<Self as Integer>::strict_shr(self, rhs))
        } else {
            None
        }
    }

    fn strict_shr(self, rhs: u32) -> (r: Self) {
        proof {
            lemma_width();
            lemma_pow2_pos(rhs as nat);
        }
        ((self as u128) / power_of_two(rhs)) as usize
    }

    fn unbounded_shr(self, rhs: u32) -> (r: Self) {
        if rhs < usize::BITS {
            <Self as Integer>::strict_shr(self, rhs)
        } else {
            0
        }
    }
    fn checked_pow(self, exp: u32) -> (r: Option<Self>) {
        proof {
            lemma_pow_of_negative(self as int, exp as nat);
        }
        match checked_pow(self as u128, exp) {
            Some(power) => if power <= usize::MAX as u128 {
                Some(power as usize)
            } else {
                None
            },
            None => None,
        }
    }

    fn strict_pow(self, exp: u32) -> (r: Self) {
        <Self as Integer>::checked_pow(self, exp).unwrap()
    }

    fn saturating_add(self, rhs: Self) -> (r: Self) {
        self.saturating_add(rhs)
    }

    fn saturating_sub(self, rhs: Self) -> (r: Self) {
        self.saturating_sub(rhs)
    }

    fn saturating_mul(self, rhs: Self) -> (r: Self) {
        match self.checked_mul(rhs) {
            Some(product) => product,
            None => usize::MAX,
        }
    }

    fn saturating_div(self, rhs: Self) -> (r: Self) {
        self / rhs
    }

    fn saturating_pow(self, exp: u32) -> (r: Self) {
        proof {
            lemma_pow_of_negative(self as int, exp as nat);
        }
        match <Self as Integer>::checked_pow(self, exp) {
            Some(power) => power,
            None => usize::MAX,
        }
    }

    fn wrapping_add(self, rhs: Self) -> (r: Self) {
        proof {
            lemma_wrap_near(usize::MIN as int, usize::MAX as int, self + rhs);
        }
        self.wrapping_add(rhs)
    }

    fn wrapping_sub(self, rhs: Self) -> (r: Self) {
        proof {
            lemma_wrap_near(usize::MIN as int, usize::MAX as int, self - rhs);
        }
        self.wrapping_sub(rhs)
    }

    fn wrapping_mul(self, rhs: Self) -> (r: Self) {
        proof {
            lemma_wrap_unsigned(usize::MAX as int, self * rhs);
        }
        self.wrapping_mul(rhs)
    }

    fn wrapping_div(self, rhs: Self) -> (r: Self) {
        proof {
            lemma_wrap_near(usize::MIN as int, usize::MAX as int, (self / rhs) as int);
        }
        self / rhs
    }

    fn wrapping_div_euclid(self, rhs: Self) -> (r: Self) {
        proof {
            lemma_wrap_near(usize::MIN as int, usize::MAX as int, (self / rhs) as int);
        }
        self / rhs
    }

    fn wrapping_rem(self, rhs: Self) -> (r: Self) {
        self % rhs
    }

    fn wrapping_rem_euclid(self, rhs: Self) -> (r: Self) {
        self % rhs
    }

    fn wrapping_neg(self) -> (r: Self) {
        proof {
            lemma_wrap_near(usize::MIN as int, usize::MAX as int, -(self as int));
        }
        if self == 0 {
            0
        } else {
            usize::MAX - self + 1
        }
    }

    fn wrapping_shl(self, rhs: u32) -> (r: Self) {
        <Self as Integer>::strict_shl(self, rhs % usize::BITS)
    }

    fn wrapping_shr(self, rhs: u32) -> (r: Self) {
        <Self as Integer>::strict_shr(self, rhs % usize::BITS)
    }

    fn wrapping_pow(self, exp: u32) -> (r: Self) {
        proof {
            lemma_width();
            lemma_pow2_128();
            lemma_pow2_adds(usize::BITS as nat, (128 - usize::BITS as nat) as nat);
            lemma_pow2_pos((128 - usize::BITS as nat) as nat);
            lemma_mod_mod(
                pow(self as int, exp as nat),
                pow2(usize::BITS as nat) as int,
                pow2((128 - usize::BITS as nat) as nat) as int,
            );
            lemma_wrap_unsigned(usize::MAX as int, pow(self as int, exp as nat));
            lemma_mod_bound(pow(self as int, exp as nat), (usize::MAX + 1) as int);
        }
        (wrapping_pow(self as u128, exp) % (usize::MAX as u128 + 1)) as usize
    }

    fn overflowing_add(self, rhs: Self) -> (r: (Self, bool)) {
        (<Self as Integer>::wrapping_add(self, rhs), self.checked_add(rhs).is_none())
    }

    fn overflowing_sub(self, rhs: Self) -> (r: (Self, bool)) {
        (<Self as Integer>::wrapping_sub(self, rhs), self.checked_sub(rhs).is_none())
    }

    fn overflowing_mul(self, rhs: Self) -> (r: (Self, bool)) {
        (<Self as Integer>::wrapping_mul(self, rhs), self.checked_mul(rhs).is_none())
    }

    fn overflowing_shl(self, rhs: u32) -> (r: (Self, bool)) {
        (<Self as Integer>::wrapping_shl(self, rhs), rhs >= usize::BITS)
    }

    fn overflowing_shr(self, rhs: u32) -> (r: (Self, bool)) {
        (<Self as Integer>::wrapping_shr(self, rhs), rhs >= usize::BITS)
    }

    fn overflowing_pow(self, exp: u32) -> (r: (Self, bool)) {
        (
            <Self as Integer>::wrapping_pow(self, exp),
            <Self as Integer>::checked_pow(self, exp).is_none(),
        )
    }

    fn pow(self, exp: u32) -> (r: Self) {
        <Self as Integer>::checked_pow(self, exp).unwrap()
    }

    fn isqrt(self) -> (r: Self) {
        let root = isqrt(self as u128);
        assert(root <= self) by (nonlinear_arith)
            requires
                root * root <= self,
        ;
        root as usize
    }

    fn ilog(self, base: Self) -> (r: u32) {
        ilog(self as u128, base as u128)
    }

    fn ilog2(self) -> (r: u32) {
        ilog(self as u128, 2)
    }

    fn ilog10(self) -> (r: u32) {
        ilog(self as u128, 10)
    }

    fn checked_ilog(self, base: Self) -> (r: Option<u32>) {
        if self <= 0 || base < 2 {
            None
        } else {
            Some(ilog(self as u128, base as u128))
        }
    }

    fn checked_ilog2(self) -> (r: Option<u32>) {
        if self <= 0 {
            None
        } else {
            Some(ilog(self as u128, 2))
        }
    }

    fn checked_ilog10(self) -> (r: Option<u32>) {
        if self <= 0 {
            None
        } else {
            Some(ilog(self as u128, 10))
        }
    }

    fn overflowing_div(self, rhs: Self) -> (r: (Self, bool)) {
        (<Self as Integer>::wrapping_div(self, rhs), false)
    }

    fn overflowing_div_euclid(self, rhs: Self) -> (r: (Self, bool)) {
        (<Self as Integer>::wrapping_div_euclid(self, rhs), false)
    }

    fn overflowing_rem(self, rhs: Self) -> (r: (Self, bool)) {
        (self % rhs, false)
    }

    fn overflowing_rem_euclid(self, rhs: Self) -> (r: (Self, bool)) {
        (self % rhs, false)
    }

    fn overflowing_neg(self) -> (r: (Self, bool)) {
        (<Self as Integer>::wrapping_neg(self), self != 0)
    }

    fn abs_diff(self, other: Self) -> (r: usize) {
        if self < other {
            other - self
        } else {
            self - other
        }
    }

    fn midpoint(self, rhs: Self) -> (r: Self) {
        proof {
            if self < rhs {
                lemma_midpoint(self as int, rhs as int);
            } else {
                lemma_midpoint(rhs as int, self as int);
            }
        }
        if self < rhs {
            self + (rhs - self) / 2
        } else {
            rhs + (self - rhs) / 2
        }
    }
}

impl Unsigned for usize {
    proof fn unsigned_bounds() {
    }

    fn cast_signed(self) -> (r: isize) {
        <Self as Integer>::to_signed(self)
    }

    fn checked_add_signed(self, rhs: isize) -> (r: Option<Self>) {
        self.checked_add_signed(rhs)
    }

    fn strict_add_signed(self, rhs: isize) -> (r: Self) {
        self.checked_add_signed(rhs).unwrap()
    }

    fn checked_sub_signed(self, rhs: isize) -> (r: Option<Self>) {
        if rhs < 0 {
            self.checked_add((-(rhs + 1)) as usize + 1)
        } else {
            self.checked_sub(rhs as usize)
        }
    }

    fn strict_sub_signed(self, rhs: isize) -> (r: Self) {
        <Self as Unsigned>::checked_sub_signed(self, rhs).unwrap()
    }

    fn checked_signed_diff(self, rhs: Self) -> (r: Option<isize>) {
        if self >= rhs {
            let distance = self - rhs;
            if distance <= isize::MAX as usize {
                Some(distance as isize)
            } else {
                None
            }
        } else {
            let distance = rhs - self;
            if distance <= isize::MAX as usize {
                Some(-(distance as isize))
            } else if distance - 1 == isize::MAX as usize {
                Some(isize::MIN)
            } else {
                None
            }
        }
    }

    fn saturating_add_signed(self, rhs: isize) -> (r: Self) {
        match self.checked_add_signed(rhs) {
            Some(sum) => sum,
            None => if rhs < 0 {
                0
            } else {
                usize::MAX
            },
        }
    }

    fn saturating_sub_signed(self, rhs: isize) -> (r: Self) {
        match <Self as Unsigned>::checked_sub_signed(self, rhs) {
            Some(difference) => difference,
            None => if rhs < 0 {
                usize::MAX
            } else {
                0
            },
        }
    }

    fn wrapping_add_signed(self, rhs: isize) -> (r: Self) {
        proof {
            lemma_wrap_near(usize::MIN as int, usize::MAX as int, self + rhs);
        }
        self.wrapping_add_signed(rhs)
    }

    fn wrapping_sub_signed(self, rhs: isize) -> (r: Self) {
        let subtrahend = <Self as Integer>::from_signed(rhs);
        proof {
            lemma_wrap_near(usize::MIN as int, usize::MAX as int, self - subtrahend);
            lemma_wrap_near(usize::MIN as int, usize::MAX as int, self - rhs);
        }
        self.wrapping_sub(subtrahend)
    }

    fn carrying_add(self, rhs: Self, carry: bool) -> (r: (Self, bool)) {
        let one: usize = if carry {
            1
        } else {
            0
        };
        let (partial, first) = <Self as Integer>::overflowing_add(self, rhs);
        let (sum, second) = <Self as Integer>::overflowing_add(partial, one);
        proof {
            lemma_wrap_near(usize::MIN as int, usize::MAX as int, self + rhs);
            lemma_wrap_near(usize::MIN as int, usize::MAX as int, partial + one);
            lemma_wrap_near(usize::MIN as int, usize::MAX as int, self + rhs + one);
        }
        (sum, first || second)
    }

    fn overflowing_add_signed(self, rhs: isize) -> (r: (Self, bool)) {
        (<Self as Unsigned>::wrapping_add_signed(self, rhs), self.checked_add_signed(rhs).is_none())
    }

    fn borrowing_sub(self, rhs: Self, borrow: bool) -> (r: (Self, bool)) {
        let one: usize = if borrow {
            1
        } else {
            0
        };
        let (partial, first) = <Self as Integer>::overflowing_sub(self, rhs);
        let (difference, second) = <Self as Integer>::overflowing_sub(partial, one);
        proof {
            lemma_wrap_near(usize::MIN as int, usize::MAX as int, self - rhs);
            lemma_wrap_near(usize::MIN as int, usize::MAX as int, partial - one);
            lemma_wrap_near(usize::MIN as int, usize::MAX as int, self - rhs - one);
        }
        (difference, first || second)
    }

    fn overflowing_sub_signed(self, rhs: isize) -> (r: (Self, bool)) {
        (
            <Self as Unsigned>::wrapping_sub_signed(self, rhs),
            <Self as Unsigned>::checked_sub_signed(self, rhs).is_none(),
        )
    }

    fn carrying_mul(self, rhs: Self, carry: Self) -> (r: (Self, Self)) {
        <Self as Unsigned>::carrying_mul_add(self, rhs, carry, 0)
    }

    fn carrying_mul_add(self, rhs: Self, carry: Self, add: Self) -> (r: (Self, Self)) {
        assert(self * rhs <= usize::MAX * usize::MAX) by (nonlinear_arith)
            requires
                self <= usize::MAX,
                rhs <= usize::MAX,
        ;
        assert((usize::MAX + 1) * (usize::MAX + 1) == usize::MAX * usize::MAX + 2 * usize::MAX + 1
            && usize::MAX * usize::MAX + 2 * usize::MAX <= u128::MAX) by (nonlinear_arith)
            requires
                usize::MAX <= 0xffff_ffff_ffff_ffff,
        ;
        let total = self as u128 * rhs as u128 + carry as u128 + add as u128;
        proof {
            lemma_wrap_unsigned(usize::MAX as int, total as int);
            lemma_multiply_divide_lt(total as int, usize::MAX + 1, usize::MAX + 1);
            lemma_mod_bound(total as int, usize::MAX + 1);
        }
        ((total % (usize::MAX as u128 + 1)) as usize, (total / (usize::MAX as u128 + 1)) as usize)
    }

    fn div_ceil(self, rhs: Self) -> (r: Self) {
        proof {
            lemma_div_ceil(self as int, rhs as int);
        }
        if self % rhs == 0 {
            self / rhs
        } else {
            self / rhs + 1
        }
    }

    fn next_multiple_of(self, rhs: Self) -> (r: Self) {
        let remainder = self % rhs;
        if remainder == 0 {
            self
        } else {
            self + (rhs - remainder)
        }
    }

    fn checked_next_multiple_of(self, rhs: Self) -> (r: Option<Self>) {
        if rhs == 0 {
            None
        } else {
            let remainder = self % rhs;
            if remainder == 0 {
                Some(self)
            } else {
                self.checked_add(rhs - remainder)
            }
        }
    }

    fn is_power_of_two(self) -> (r: bool) {
        is_power_of_two(self as u128)
    }

    fn next_power_of_two(self) -> (r: Self) {
        <Self as Unsigned>::checked_next_power_of_two(self).unwrap()
    }

    fn checked_next_power_of_two(self) -> (r: Option<Self>) {
        match next_power_of_two(self as u128) {
            Some(power) => if power <= usize::MAX as u128 {
                Some(power as usize)
            } else {
                None
            },
            None => None,
        }
    }

    fn is_multiple_of(self, rhs: Self) -> (r: bool) {
        self.is_multiple_of(rhs)
    }
}

} // verus!
