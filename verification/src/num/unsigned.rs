//! The capability of the unsigned integer types.

use vstd::prelude::*;
use vstd::arithmetic::power2::is_pow2;
use crate::num::arith::{div_ceil, next_multiple};
use crate::num::integer::Integer;
use crate::num::pattern::BitPattern;
use crate::num::value::{checked, fits, modulus, overflowing, saturated, signed_value, wrapped};
use crate::num::wide::next_power;

verus! {

/// An unsigned integer. An operand of the signed sibling type counts with
/// the value that its bit pattern has in two's complement.
pub trait Unsigned: Integer<Unsigned = Self> {
    /// The type is its own unsigned sibling, and its least value is zero.
    proof fn unsigned_bounds()
        ensures
            Self::lower_bound() == 0;

    /// The signed integer with the bit pattern of `self`.
    fn cast_signed(self) -> (r: Self::Signed)
        ensures
            r == Self::Signed::of_pattern(self.pattern());

    fn checked_add_signed(self, rhs: Self::Signed) -> (r: Option<Self>)
        ensures
            r == checked::<Self>(self.value() + signed_value::<Self>(rhs.pattern()));

    fn strict_add_signed(self, rhs: Self::Signed) -> (r: Self)
        requires
            fits::<Self>(self.value() + signed_value::<Self>(rhs.pattern())),
        ensures
            r == Self::from_value(self.value() + signed_value::<Self>(rhs.pattern()));

    fn checked_sub_signed(self, rhs: Self::Signed) -> (r: Option<Self>)
        ensures
            r == checked::<Self>(self.value() - signed_value::<Self>(rhs.pattern()));

    fn strict_sub_signed(self, rhs: Self::Signed) -> (r: Self)
        requires
            fits::<Self>(self.value() - signed_value::<Self>(rhs.pattern())),
        ensures
            r == Self::from_value(self.value() - signed_value::<Self>(rhs.pattern()));

    /// The difference as a signed integer, where the signed type holds it:
    /// where it lies within half the number of values on either side of zero.
    fn checked_signed_diff(self, rhs: Self) -> (r: Option<Self::Signed>)
        ensures
            r == if -modulus::<Self>() <= 2 * (self.value() - rhs.value()) < modulus::<Self>() {
                Some(
                    Self::Signed::of_pattern(
                        (if self.value() < rhs.value() {
                            self.value() - rhs.value() + modulus::<Self>()
                        } else {
                            self.value() - rhs.value()
                        }) as nat,
                    ),
                )
            } else {
                None
            };

    fn saturating_add_signed(self, rhs: Self::Signed) -> (r: Self)
        ensures
            r == saturated::<Self>(self.value() + signed_value::<Self>(rhs.pattern()));

    fn saturating_sub_signed(self, rhs: Self::Signed) -> (r: Self)
        ensures
            r == saturated::<Self>(self.value() - signed_value::<Self>(rhs.pattern()));

    fn wrapping_add_signed(self, rhs: Self::Signed) -> (r: Self)
        ensures
            r == wrapped::<Self>(self.value() + signed_value::<Self>(rhs.pattern()));

    fn wrapping_sub_signed(self, rhs: Self::Signed) -> (r: Self)
        ensures
            r == wrapped::<Self>(self.value() - signed_value::<Self>(rhs.pattern()));

    /// The sum of the two integers and a carry of one, as one limb of a
    /// longer sum: the limb, and the carry into the next.
    fn carrying_add(self, rhs: Self, carry: bool) -> (r: (Self, bool))
        ensures
            r == overflowing::<Self>(
                self.value() + rhs.value() + if carry {
                    1int
                } else {
                    0int
                },
            );

    fn overflowing_add_signed(self, rhs: Self::Signed) -> (r: (Self, bool))
        ensures
            r == overflowing::<Self>(self.value() + signed_value::<Self>(rhs.pattern()));

    /// The difference of the two integers less a borrow of one, as one limb
    /// of a longer difference: the limb, and the borrow from the next.
    fn borrowing_sub(self, rhs: Self, borrow: bool) -> (r: (Self, bool))
        ensures
            r == overflowing::<Self>(
                self.value() - rhs.value() - if borrow {
                    1int
                } else {
                    0int
                },
            );

    fn overflowing_sub_signed(self, rhs: Self::Signed) -> (r: (Self, bool))
        ensures
            r == overflowing::<Self>(self.value() - signed_value::<Self>(rhs.pattern()));

    /// The product of the two integers and a carry, as one limb of a longer
    /// product: the limb, and the carry into the next.
    fn carrying_mul(self, rhs: Self, carry: Self) -> (r: (Self, Self))
        ensures
            r == (
                wrapped::<Self>(self.value() * rhs.value() + carry.value()),
                Self::from_value((self.value() * rhs.value() + carry.value()) / modulus::<Self>()),
            );

    /// The product of the two integers, a carry and one more integer, as
    /// one limb of a longer product: the limb, and the carry into the next.
    fn carrying_mul_add(self, rhs: Self, carry: Self, add: Self) -> (r: (Self, Self))
        ensures
            r == (
                wrapped::<Self>(self.value() * rhs.value() + carry.value() + add.value()),
                Self::from_value(
                    (self.value() * rhs.value() + carry.value() + add.value()) / modulus::<Self>(),
                ),
            );

    /// The quotient, rounded up.
    fn div_ceil(self, rhs: Self) -> (r: Self)
        requires
            rhs.value() != 0,
        ensures
            r == Self::from_value(div_ceil(self.value(), rhs.value()));

    /// The least multiple of `rhs` that is not below `self`.
    fn next_multiple_of(self, rhs: Self) -> (r: Self)
        requires
            rhs.value() != 0,
            fits::<Self>(next_multiple(self.value(), rhs.value())),
        ensures
            r == Self::from_value(next_multiple(self.value(), rhs.value()));

    fn checked_next_multiple_of(self, rhs: Self) -> (r: Option<Self>)
        ensures
            r == if rhs.value() == 0 {
                None
            } else {
                checked::<Self>(next_multiple(self.value(), rhs.value()))
            };

    fn is_power_of_two(self) -> (r: bool)
        ensures
            r == is_pow2(self.value());

    /// The least power of two that is not below `self`.
    fn next_power_of_two(self) -> (r: Self)
        requires
            fits::<Self>(next_power(self.value())),
        ensures
            r == Self::from_value(next_power(self.value()));

    fn checked_next_power_of_two(self) -> (r: Option<Self>)
        ensures
            r == checked::<Self>(next_power(self.value()));

    /// Whether `self` is a multiple of `rhs`. Zero has no multiple but itself.
    fn is_multiple_of(self, rhs: Self) -> (r: bool)
        ensures
            r == if rhs.value() == 0 {
                self.value() == 0
            } else {
                self.value() % rhs.value() == 0
            };
}

} // verus!
