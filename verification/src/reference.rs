//! Shared and mutable references behind one capability.

use vstd::prelude::*;
use crate::primitive::Primitive;

verus! {

/// A reference, shared or mutable, to a value of any type.
pub trait Reference: Primitive + Sized {
    fn as_ref(&self) -> (r: &Self)
        ensures
            r == self;
}

impl<T: ?Sized> Primitive for &T {}

impl<T: ?Sized> Reference for &T {
    fn as_ref(&self) -> (r: &Self) {
        self
    }
}

impl<T: ?Sized> Primitive for &mut T {}

impl<T: ?Sized> Reference for &mut T {
    fn as_ref(&self) -> (r: &Self) {
        self
    }
}

} // verus!
