//! The capability of the integer types.

use vstd::prelude::*;
use core::num::ParseIntError;
use vstd::arithmetic::power::pow;
use crate::num::arith::{div_euclid, div_trunc, magnitude, rem_euclid, rem_trunc};
use crate::num::bits::{bit_length, complement, low_ones, low_zeros, ones, reversed, rotated_left};
use crate::num::number::Number;
use crate::num::number_like::NumberLike;
use crate::num::pattern::BitPattern;
use crate::num::radix::numeral;
use crate::num::value::{
    byte_swapped, checked, fits, overflowing, saturated, shifted_left, shifted_right, wrapped,
    IntegerValue,
};

verus! {

/// An integer of fixed width.
///
/// The contracts speak of an integer by its mathematical value. An
/// operation is stated as what it does to a result that may lie outside
/// the type: [`checked`] gives it up, [`wrapped`] reduces it modulo the
/// number of values, [`saturated`] replaces it with the nearer bound,
/// [`overflowing`] wraps it and says so. The strict operations ask that it
/// fits.
pub trait Integer:
    Number
    + IntegerValue
    + Ord
    + Eq
    + core::hash::Hash
    + core::fmt::Display
    + core::ops::Not
    + From<bool>
    + core::ops::Add<Self>
    + for<'a> core::ops::Add<&'a Self>
    + core::ops::Sub<Self>
    + for<'a> core::ops::Sub<&'a Self>
    + core::ops::Mul<Self>
    + for<'a> core::ops::Mul<&'a Self>
    + core::ops::Div<Self>
    + for<'a> core::ops::Div<&'a Self>
    + core::ops::Rem<Self>
    + for<'a> core::ops::Rem<&'a Self>
    + core::ops::BitAnd<Self>
    + for<'a> core::ops::BitAnd<&'a Self>
    + core::ops::BitOr<Self>
    + for<'a> core::ops::BitOr<&'a Self>
    + core::ops::BitXor<Self>
    + for<'a> core::ops::BitXor<&'a Self>
    + core::ops::Shl<Self>
    + for<'a> core::ops::Shl<&'a Self>
    + core::ops::Shr<Self>
    + for<'a> core::ops::Shr<&'a Self>
    + TryFrom<u8>
    + TryFrom<u16>
    + TryFrom<u32>
    + TryFrom<u64>
    + TryFrom<u128>
    + TryFrom<usize>
    + TryFrom<i8>
    + TryFrom<i16>
    + TryFrom<i32>
    + TryFrom<i64>
    + TryFrom<i128>
    + TryFrom<isize>
    + TryInto<u8>
    + TryInto<u16>
    + TryInto<u32>
    + TryInto<u64>
    + TryInto<u128>
    + TryInto<usize>
    + TryInto<i8>
    + TryInto<i16>
    + TryInto<i32>
    + TryInto<i64>
    + TryInto<i128>
    + TryInto<isize>
{
    /// The unsigned type of the same width.
    type Unsigned: Number + IntegerValue;

    /// The signed type of the same width.
    type Signed: Number + IntegerValue;

    /// The constants of the type have the values that their names say.
    proof fn constants()
        ensures
            Self::least().value() == Self::lower_bound(),
            Self::greatest().value() == Self::upper_bound(),
            Self::small(0).value() == 0,
            Self::small(1).value() == 1,
            Self::small(2).value() == 2,
            Self::lower_bound() <= 0,
            Self::upper_bound() >= 2;

    /// The absolute value and the sign of an integer are those of its value.
    proof fn abs_and_sign(self)
        ensures
            self.has_abs() == fits::<Self>(magnitude(self.value())),
            self.has_abs() ==> self.abs_spec().value() == magnitude(self.value()),
            self.signum_spec().value() == crate::num::arith::sign(self.value());

    /// The integer with the bit pattern of `v`.
    fn from_unsigned(v: Self::Unsigned) -> (r: Self)
        ensures
            r == Self::of_pattern(v.pattern());

    /// The integer with the bit pattern of `v`.
    fn from_signed(v: Self::Signed) -> (r: Self)
        ensures
            r == Self::of_pattern(v.pattern());

    /// The unsigned integer with the bit pattern of `self`.
    fn to_unsigned(self) -> (r: Self::Unsigned)
        ensures
            r == Self::Unsigned::of_pattern(self.pattern());

    /// The signed integer with the bit pattern of `self`.
    fn to_signed(self) -> (r: Self::Signed)
        ensures
            r == Self::Signed::of_pattern(self.pattern());

    fn div_euclid(self, rhs: Self) -> (r: Self)
        requires
            rhs.value() != 0,
            fits::<Self>(div_euclid(self.value(), rhs.value())),
        ensures
            r == Self::from_value(div_euclid(self.value(), rhs.value()));

    fn rem_euclid(self, rhs: Self) -> (r: Self)
        requires
            rhs.value() != 0,
            fits::<Self>(div_euclid(self.value(), rhs.value())),
        ensures
            r == Self::from_value(rem_euclid(self.value(), rhs.value()));

    /// The integer that a text denotes in a radix from 2 to 36, or an error
    /// where the text denotes none that the type holds.
    fn from_str_radix(src: &str, radix: u32) -> (r: Result<Self, ParseIntError>)
        requires
            2 <= radix <= 36,
        ensures
            match r {
                Ok(v) => numeral(src@, radix as nat, Self::lower_bound() < 0) == Some(v.value()),
                Err(_) => match numeral(src@, radix as nat, Self::lower_bound() < 0) {
                    Some(i) => !fits::<Self>(i),
                    None => true,
                },
            };

    fn count_ones(self) -> (r: u32)
        ensures
            r == ones(self.pattern());

    fn count_zeros(self) -> (r: u32)
        ensures
            r == Self::width() - ones(self.pattern());

    /// The number of zeros above the highest one.
    fn leading_zeros(self) -> (r: u32)
        ensures
            r == Self::width() - bit_length(self.pattern());

    /// The number of zeros below the lowest one.
    fn trailing_zeros(self) -> (r: u32)
        ensures
            r == if self.pattern() == 0 {
                Self::width()
            } else {
                low_zeros(self.pattern())
            };

    /// The number of ones above the highest zero.
    fn leading_ones(self) -> (r: u32)
        ensures
            r == Self::width() - bit_length(complement(self.pattern(), Self::width()));

    /// The number of ones below the lowest zero.
    fn trailing_ones(self) -> (r: u32)
        ensures
            r == low_ones(self.pattern());

    fn rotate_left(self, n: u32) -> (r: Self)
        ensures
            r == Self::of_pattern(rotated_left(self.pattern(), n as nat, Self::width()));

    /// A rotation down by `n` places is one up by what `n` leaves of the width.
    fn rotate_right(self, n: u32) -> (r: Self)
        ensures
            r == Self::of_pattern(
                rotated_left(
                    self.pattern(),
                    (Self::width() - n as nat % Self::width()) as nat,
                    Self::width(),
                ),
            );

    fn swap_bytes(self) -> (r: Self)
        ensures
            r == byte_swapped(self);

    fn reverse_bits(self) -> (r: Self)
        ensures
            r == Self::of_pattern(reversed(self.pattern(), Self::width()));

    /// The integer that a big-endian machine holds as `x`, on a machine that
    /// stores the least significant byte first or on one that stores it
    /// last: `x` with its bytes swapped on the first, `x` on the second.
    fn from_be_on(x: Self, little_endian: bool) -> (r: Self)
        ensures
            r == if little_endian {
                byte_swapped(x)
            } else {
                x
            };

    /// The integer that a big-endian machine holds as `x`, on this machine:
    /// what `from_be_on` gives for its byte order.
    fn from_be(x: Self) -> (r: Self)
        ensures
            r == x || r == byte_swapped(x);

    /// The integer that a little-endian machine holds as `x`, on a machine
    /// that stores the least significant byte first or on one that stores
    /// it last: `x` on the first, `x` with its bytes swapped on the second.
    fn from_le_on(x: Self, little_endian: bool) -> (r: Self)
        ensures
            r == if little_endian {
                x
            } else {
                byte_swapped(x)
            };

    /// The integer that a little-endian machine holds as `x`, on this
    /// machine: what `from_le_on` gives for its byte order.
    fn from_le(x: Self) -> (r: Self)
        ensures
            r == x || r == byte_swapped(x);

    /// What a big-endian machine holds as `self`, on a machine that stores
    /// the least significant byte first or on one that stores it last:
    /// `self` with its bytes swapped on the first, `self` on the second.
    fn to_be_on(self, little_endian: bool) -> (r: Self)
        ensures
            r == if little_endian {
                byte_swapped(self)
            } else {
                self
            };

    /// What a big-endian machine holds as `self`, on this machine: what
    /// `to_be_on` gives for its byte order.
    fn to_be(self) -> (r: Self)
        ensures
            r == self || r == byte_swapped(self);

    /// What a little-endian machine holds as `self`, on a machine that
    /// stores the least significant byte first or on one that stores it
    /// last: `self` on the first, `self` with its bytes swapped on the
    /// second.
    fn to_le_on(self, little_endian: bool) -> (r: Self)
        ensures
            r == if little_endian {
                self
            } else {
                byte_swapped(self)
            };

    /// What a little-endian machine holds as `self`, on this machine: what
    /// `to_le_on` gives for its byte order.
    fn to_le(self) -> (r: Self)
        ensures
            r == self || r == byte_swapped(self);

    fn checked_add(self, rhs: Self) -> (r: Option<Self>)
        ensures
            r == checked::<Self>(self.value() + rhs.value());

    fn strict_add(self, rhs: Self) -> (r: Self)
        requires
            fits::<Self>(self.value() + rhs.value()),
        ensures
            r == Self::from_value(self.value() + rhs.value());

    fn checked_sub(self, rhs: Self) -> (r: Option<Self>)
        ensures
            r == checked::<Self>(self.value() - rhs.value());

    fn strict_sub(self, rhs: Self) -> (r: Self)
        requires
            fits::<Self>(self.value() - rhs.value()),
        ensures
            r == Self::from_value(self.value() - rhs.value());

    fn checked_mul(self, rhs: Self) -> (r: Option<Self>)
        ensures
            r == checked::<Self>(self.value() * rhs.value());

    fn strict_mul(self, rhs: Self) -> (r: Self)
        requires
            fits::<Self>(self.value() * rhs.value()),
        ensures
            r == Self::from_value(self.value() * rhs.value());

    fn checked_div(self, rhs: Self) -> (r: Option<Self>)
        ensures
            r == if rhs.value() == 0 {
                None
            } else {
                checked::<Self>(div_trunc(self.value(), rhs.value()))
            };

    fn strict_div(self, rhs: Self) -> (r: Self)
        requires
            rhs.value() != 0,
            fits::<Self>(div_trunc(self.value(), rhs.value())),
        ensures
            r == Self::from_value(div_trunc(self.value(), rhs.value()));

    fn checked_div_euclid(self, rhs: Self) -> (r: Option<Self>)
        ensures
            r == if rhs.value() == 0 {
                None
            } else {
                checked::<Self>(div_euclid(self.value(), rhs.value()))
            };

    fn strict_div_euclid(self, rhs: Self) -> (r: Self)
        requires
            rhs.value() != 0,
            fits::<Self>(div_euclid(self.value(), rhs.value())),
        ensures
            r == Self::from_value(div_euclid(self.value(), rhs.value()));

    /// The remainder overflows where the division does.
    fn checked_rem(self, rhs: Self) -> (r: Option<Self>)
        ensures
            r == if rhs.value() == 0 || !fits::<Self>(div_trunc(self.value(), rhs.value())) {
                None
            } else {
                Some(Self::from_value(rem_trunc(self.value(), rhs.value())))
            };

    fn strict_rem(self, rhs: Self) -> (r: Self)
        requires
            rhs.value() != 0,
            fits::<Self>(div_trunc(self.value(), rhs.value())),
        ensures
            r == Self::from_value(rem_trunc(self.value(), rhs.value()));

    /// The remainder overflows where the division does.
    fn checked_rem_euclid(self, rhs: Self) -> (r: Option<Self>)
        ensures
            r == if rhs.value() == 0 || !fits::<Self>(div_euclid(self.value(), rhs.value())) {
                None
            } else {
                Some(Self::from_value(rem_euclid(self.value(), rhs.value())))
            };

    fn strict_rem_euclid(self, rhs: Self) -> (r: Self)
        requires
            rhs.value() != 0,
            fits::<Self>(div_euclid(self.value(), rhs.value())),
        ensures
            r == Self::from_value(rem_euclid(self.value(), rhs.value()));

    fn checked_neg(self) -> (r: Option<Self>)
        ensures
            r == checked::<Self>(-self.value());

    fn strict_neg(self) -> (r: Self)
        requires
            fits::<Self>(-self.value()),
        ensures
            r == Self::from_value(-self.value());

    /// The shift by `rhs` places, unless there are not that many.
    fn checked_shl(self, rhs: u32) -> (r: Option<Self>)
        ensures
            r == if rhs < Self::width() {
                Some(shifted_left(self, rhs as nat))
            } else {
                None
            };

    fn strict_shl(self, rhs: u32) -> (r: Self)
        requires
            rhs < Self::width(),
        ensures
            r == shifted_left(self, rhs as nat);

    /// The shift by `rhs` places, which leaves nothing where there are not
    /// that many.
    fn unbounded_shl(self, rhs: u32) -> (r: Self)
        ensures
            r == if rhs < Self::width() {
                shifted_left(self, rhs as nat)
            } else {
                Self::from_value(0)
            };

    /// The shift by `rhs` places, unless there are not that many.
    fn checked_shr(self, rhs: u32) -> (r: Option<Self>)
        ensures
            r == if rhs < Self::width() {
                Some(shifted_right(self, rhs as nat))
            } else {
                None
            };

    fn strict_shr(self, rhs: u32) -> (r: Self)
        requires
            rhs < Self::width(),
        ensures
            r == shifted_right(self, rhs as nat);

    /// The shift by `rhs` places, which leaves nothing but the sign where
    /// there are not that many.
    fn unbounded_shr(self, rhs: u32) -> (r: Self)
        ensures
            r == if rhs < Self::width() {
                shifted_right(self, rhs as nat)
            } else if self.value() < 0 {
                Self::from_value(-1)
            } else {
                Self::from_value(0)
            };

    fn checked_pow(self, exp: u32) -> (r: Option<Self>)
        ensures
            r == checked::<Self>(pow(self.value(), exp as nat));

    fn strict_pow(self, exp: u32) -> (r: Self)
        requires
            fits::<Self>(pow(self.value(), exp as nat)),
        ensures
            r == Self::from_value(pow(self.value(), exp as nat));

    fn saturating_add(self, rhs: Self) -> (r: Self)
        ensures
            r == saturated::<Self>(self.value() + rhs.value());

    fn saturating_sub(self, rhs: Self) -> (r: Self)
        ensures
            r == saturated::<Self>(self.value() - rhs.value());

    fn saturating_mul(self, rhs: Self) -> (r: Self)
        ensures
            r == saturated::<Self>(self.value() * rhs.value());

    fn saturating_div(self, rhs: Self) -> (r: Self)
        requires
            rhs.value() != 0,
        ensures
            r == saturated::<Self>(div_trunc(self.value(), rhs.value()));

    fn saturating_pow(self, exp: u32) -> (r: Self)
        ensures
            r == saturated::<Self>(pow(self.value(), exp as nat));

    fn wrapping_add(self, rhs: Self) -> (r: Self)
        ensures
            r == wrapped::<Self>(self.value() + rhs.value());

    fn wrapping_sub(self, rhs: Self) -> (r: Self)
        ensures
            r == wrapped::<Self>(self.value() - rhs.value());

    fn wrapping_mul(self, rhs: Self) -> (r: Self)
        ensures
            r == wrapped::<Self>(self.value() * rhs.value());

    fn wrapping_div(self, rhs: Self) -> (r: Self)
        requires
            rhs.value() != 0,
        ensures
            r == wrapped::<Self>(div_trunc(self.value(), rhs.value()));

    fn wrapping_div_euclid(self, rhs: Self) -> (r: Self)
        requires
            rhs.value() != 0,
        ensures
            r == wrapped::<Self>(div_euclid(self.value(), rhs.value()));

    fn wrapping_rem(self, rhs: Self) -> (r: Self)
        requires
            rhs.value() != 0,
        ensures
            r == Self::from_value(rem_trunc(self.value(), rhs.value()));

    fn wrapping_rem_euclid(self, rhs: Self) -> (r: Self)
        requires
            rhs.value() != 0,
        ensures
            r == Self::from_value(rem_euclid(self.value(), rhs.value()));

    fn wrapping_neg(self) -> (r: Self)
        ensures
            r == wrapped::<Self>(-self.value());

    /// The shift by what `rhs` leaves of the width.
    fn wrapping_shl(self, rhs: u32) -> (r: Self)
        ensures
            r == shifted_left(self, rhs as nat % Self::width());

    /// The shift by what `rhs` leaves of the width.
    fn wrapping_shr(self, rhs: u32) -> (r: Self)
        ensures
            r == shifted_right(self, rhs as nat % Self::width());

    fn wrapping_pow(self, exp: u32) -> (r: Self)
        ensures
            r == wrapped::<Self>(pow(self.value(), exp as nat));

    fn overflowing_add(self, rhs: Self) -> (r: (Self, bool))
        ensures
            r == overflowing::<Self>(self.value() + rhs.value());

    fn overflowing_sub(self, rhs: Self) -> (r: (Self, bool))
        ensures
            r == overflowing::<Self>(self.value() - rhs.value());

    fn overflowing_mul(self, rhs: Self) -> (r: (Self, bool))
        ensures
            r == overflowing::<Self>(self.value() * rhs.value());

    fn overflowing_div(self, rhs: Self) -> (r: (Self, bool))
        requires
            rhs.value() != 0,
        ensures
            r == overflowing::<Self>(div_trunc(self.value(), rhs.value()));

    fn overflowing_div_euclid(self, rhs: Self) -> (r: (Self, bool))
        requires
            rhs.value() != 0,
        ensures
            r == overflowing::<Self>(div_euclid(self.value(), rhs.value()));

    /// The remainder overflows where the division does.
    fn overflowing_rem(self, rhs: Self) -> (r: (Self, bool))
        requires
            rhs.value() != 0,
        ensures
            r == (
                Self::from_value(rem_trunc(self.value(), rhs.value())),
                !fits::<Self>(div_trunc(self.value(), rhs.value())),
            );

    /// The remainder overflows where the division does.
    fn overflowing_rem_euclid(self, rhs: Self) -> (r: (Self, bool))
        requires
            rhs.value() != 0,
        ensures
            r == (
                Self::from_value(rem_euclid(self.value(), rhs.value())),
                !fits::<Self>(div_euclid(self.value(), rhs.value())),
            );

    fn overflowing_neg(self) -> (r: (Self, bool))
        ensures
            r == overflowing::<Self>(-self.value());

    /// The shift by what `rhs` leaves of the width, with the mark of an
    /// `rhs` that is the width or more.
    fn overflowing_shl(self, rhs: u32) -> (r: (Self, bool))
        ensures
            r == (shifted_left(self, rhs as nat % Self::width()), rhs >= Self::width());

    /// The shift by what `rhs` leaves of the width, with the mark of an
    /// `rhs` that is the width or more.
    fn overflowing_shr(self, rhs: u32) -> (r: (Self, bool))
        ensures
            r == (shifted_right(self, rhs as nat % Self::width()), rhs >= Self::width());

    fn overflowing_pow(self, exp: u32) -> (r: (Self, bool))
        ensures
            r == overflowing::<Self>(pow(self.value(), exp as nat));

    fn pow(self, exp: u32) -> (r: Self)
        requires
            fits::<Self>(pow(self.value(), exp as nat)),
        ensures
            r == Self::from_value(pow(self.value(), exp as nat));

    /// The square root, rounded down.
    fn isqrt(self) -> (r: Self)
        requires
            self.value() >= 0,
        ensures
            r.value() >= 0,
            r.value() * r.value() <= self.value() < (r.value() + 1) * (r.value() + 1);

    /// The logarithm to the base `base`, rounded down.
    fn ilog(self, base: Self) -> (r: u32)
        requires
            self.value() > 0,
            base.value() >= 2,
        ensures
            pow(base.value(), r as nat) <= self.value() < pow(base.value(), (r + 1) as nat);

    fn ilog2(self) -> (r: u32)
        requires
            self.value() > 0,
        ensures
            pow(2, r as nat) <= self.value() < pow(2, (r + 1) as nat);

    fn ilog10(self) -> (r: u32)
        requires
            self.value() > 0,
        ensures
            pow(10, r as nat) <= self.value() < pow(10, (r + 1) as nat);

    fn checked_ilog(self, base: Self) -> (r: Option<u32>)
        ensures
            match r {
                Some(log) => self.value() > 0 && base.value() >= 2 && pow(base.value(), log as nat)
                    <= self.value() < pow(base.value(), (log + 1) as nat),
                None => self.value() <= 0 || base.value() < 2,
            };

    fn checked_ilog2(self) -> (r: Option<u32>)
        ensures
            match r {
                Some(log) => self.value() > 0 && pow(2, log as nat) <= self.value() < pow(
                    2,
                    (log + 1) as nat,
                ),
                None => self.value() <= 0,
            };

    fn checked_ilog10(self) -> (r: Option<u32>)
        ensures
            match r {
                Some(log) => self.value() > 0 && pow(10, log as nat) <= self.value() < pow(
                    10,
                    (log + 1) as nat,
                ),
                None => self.value() <= 0,
            };

    /// The distance between the two values, which always fits the unsigned type.
    fn abs_diff(self, other: Self) -> (r: Self::Unsigned)
        ensures
            r == Self::Unsigned::of_pattern(magnitude(self.value() - other.value()) as nat);

    /// The mean of the two values, rounded towards zero.
    fn midpoint(self, rhs: Self) -> (r: Self)
        ensures
            r == Self::from_value(div_trunc(self.value() + rhs.value(), 2));
}

} // verus!
