//! Slices and string slices behind one capability.

use vstd::prelude::*;
use vstd::string::StringSliceAdditionalSpecFns;
use crate::primitive::Primitive;

verus! {

/// An unsized run of elements that can be read as a slice.
pub trait Slice: Primitive {
    type Item;

    /// The elements, in order.
    spec fn elems(&self) -> Seq<Self::Item>;

    fn as_slice(&self) -> (r: &[Self::Item])
        ensures
            r@ == self.elems();
}

impl<T> Primitive for [T] {}

impl<T> Slice for [T] {
    type Item = T;

    open spec fn elems(&self) -> Seq<T> {
        self@
    }

    fn as_slice(&self) -> (r: &[T]) {
        self
    }
}

impl Primitive for str {}

/// A string slice is the slice of the bytes of its UTF-8 encoding.
impl Slice for str {
    type Item = u8;

    open spec fn elems(&self) -> Seq<u8> {
        self.spec_bytes()
    }

    fn as_slice(&self) -> (r: &[u8]) {
        self.as_bytes()
    }
}

} // verus!
