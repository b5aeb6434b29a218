//! The capability of the signed integer types.

use vstd::prelude::*;
use crate::num::arith::magnitude;
use crate::num::integer::Integer;
use crate::num::pattern::BitPattern;
use crate::num::value::{checked, fits, overflowing, saturated, wrapped};

verus! {

/// A signed integer. An operand of the unsigned sibling type counts with
/// the value of its bit pattern.
pub trait Signed: Integer<Signed = Self> {
    /// The type is its own signed sibling, and its bounds lie about zero as
    /// two's complement has them.
    proof fn signed_bounds()
        ensures
            Self::lower_bound() == -Self::upper_bound() - 1;

    /// The unsigned integer with the bit pattern of `self`.
    fn cast_unsigned(self) -> (r: Self::Unsigned)
        ensures
            r == Self::Unsigned::of_pattern(self.pattern());

    fn checked_add_unsigned(self, rhs: Self::Unsigned) -> (r: Option<Self>)
        ensures
            r == checked::<Self>(self.value() + rhs.pattern());

    fn strict_add_unsigned(self, rhs: Self::Unsigned) -> (r: Self)
        requires
            fits::<Self>(self.value() + rhs.pattern()),
        ensures
            r == Self::from_value(self.value() + rhs.pattern());

    fn checked_sub_unsigned(self, rhs: Self::Unsigned) -> (r: Option<Self>)
        ensures
            r == checked::<Self>(self.value() - rhs.pattern());

    fn strict_sub_unsigned(self, rhs: Self::Unsigned) -> (r: Self)
        requires
            fits::<Self>(self.value() - rhs.pattern()),
        ensures
            r == Self::from_value(self.value() - rhs.pattern());

    fn checked_abs(self) -> (r: Option<Self>)
        ensures
            r == checked::<Self>(magnitude(self.value()));

    fn strict_abs(self) -> (r: Self)
        requires
            fits::<Self>(magnitude(self.value())),
        ensures
            r == Self::from_value(magnitude(self.value()));

    /// The square root, rounded down, of an integer that is not negative.
    fn checked_isqrt(self) -> (r: Option<Self>)
        ensures
            match r {
                Some(root) => root.value() >= 0 && root.value() * root.value() <= self.value() < (
                root.value() + 1) * (root.value() + 1),
                None => self.value() < 0,
            };

    fn saturating_add_unsigned(self, rhs: Self::Unsigned) -> (r: Self)
        ensures
            r == saturated::<Self>(self.value() + rhs.pattern());

    fn saturating_sub_unsigned(self, rhs: Self::Unsigned) -> (r: Self)
        ensures
            r == saturated::<Self>(self.value() - rhs.pattern());

    fn saturating_neg(self) -> (r: Self)
        ensures
            r == saturated::<Self>(-self.value());

    fn saturating_abs(self) -> (r: Self)
        ensures
            r == saturated::<Self>(magnitude(self.value()));

    fn wrapping_add_unsigned(self, rhs: Self::Unsigned) -> (r: Self)
        ensures
            r == wrapped::<Self>(self.value() + rhs.pattern());

    fn wrapping_sub_unsigned(self, rhs: Self::Unsigned) -> (r: Self)
        ensures
            r == wrapped::<Self>(self.value() - rhs.pattern());

    fn wrapping_abs(self) -> (r: Self)
        ensures
            r == wrapped::<Self>(magnitude(self.value()));

    /// The absolute value, which always fits the unsigned type.
    fn unsigned_abs(self) -> (r: Self::Unsigned)
        ensures
            r == Self::Unsigned::of_pattern(magnitude(self.value()) as nat);

    fn overflowing_add_unsigned(self, rhs: Self::Unsigned) -> (r: (Self, bool))
        ensures
            r == overflowing::<Self>(self.value() + rhs.pattern());

    fn overflowing_sub_unsigned(self, rhs: Self::Unsigned) -> (r: (Self, bool))
        ensures
            r == overflowing::<Self>(self.value() - rhs.pattern());

    fn overflowing_abs(self) -> (r: (Self, bool))
        ensures
            r == overflowing::<Self>(magnitude(self.value()));

    fn is_positive(self) -> (r: bool)
        ensures
            r == (self.value() > 0);

    fn is_negative(self) -> (r: bool)
        ensures
            r == (self.value() < 0);
}

} // verus!
