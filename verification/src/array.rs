//! Arrays of any length behind one capability.

use vstd::prelude::*;
use crate::primitive::Primitive;

verus! {

/// A fixed-length container whose elements are reached by position.
pub trait Array: Primitive + Sized {
    type Item;

    /// The number of elements.
    const N: usize;

    /// The elements, in order.
    spec fn elems(&self) -> Seq<Self::Item>;

    /// Every array of the type holds `N` elements.
    proof fn elems_len(&self)
        ensures
            self.elems().len() == Self::N;

    /// An array is determined by its elements.
    proof fn elems_determine(&self, other: &Self)
        requires
            self.elems() == other.elems(),
        ensures
            self == other;

    fn as_slice(&self) -> (r: &[Self::Item])
        ensures
            r@ == self.elems();

    fn as_mut_slice(&mut self) -> (r: &mut [Self::Item])
        ensures
            r@ == old(self).elems(),
            final(self).elems() == final(r)@;
}

impl<T, const N: usize> Primitive for [T; N] {}

impl<T, const N: usize> Array for [T; N] {
    type Item = T;

    const N: usize = N;

    open spec fn elems(&self) -> Seq<T> {
        self@
    }

    proof fn elems_len(&self) {
    }

    proof fn elems_determine(&self, other: &Self) {
        assert(*self =~= *other);
    }

    fn as_slice(&self) -> (r: &[T]) {
        self.as_slice()
    }

    fn as_mut_slice(&mut self) -> (r: &mut [T]) {
        self
    }
}

/// `<[T; N]>::map`: the array of what `f` makes of each element, in the
/// order of the elements.
#[verifier::external_body]
fn map_elements<T, U, F: Fn(T) -> U, const N: usize>(array: [T; N], f: F) -> (r: [U; N])
    requires
        forall|i: int| 0 <= i < N ==> call_requires(f, (#[trigger] array@[i],)),
    ensures
        forall|i: int| 0 <= i < N ==> call_ensures(f, (array@[i],), #[trigger] r@[i]),
{
    array.map(f)
}

/// `<[T; N]>::each_ref`: the array of the references to the elements, in
/// the order of the elements.
#[verifier::external_body]
fn element_refs<T, const N: usize>(array: &[T; N]) -> (r: [&T; N])
    ensures
        forall|i: int| 0 <= i < N ==> *(#[trigger] r@[i]) == array@[i],
{
    array.each_ref()
}

/// The array of what `f` makes of each element of `array`, in the order of
/// the elements.
pub fn map<T, U, F: Fn(T) -> U, const N: usize>(array: [T; N], f: F) -> (r: [U; N])
    requires
        forall|i: int| 0 <= i < N ==> call_requires(f, (#[trigger] array@[i],)),
    ensures
        forall|i: int| 0 <= i < N ==> call_ensures(f, (array@[i],), #[trigger] r@[i]),
{
    map_elements(array, f)
}

/// The array of the references to the elements of `array`, in the order of
/// the elements.
pub fn each_ref<T, const N: usize>(array: &[T; N]) -> (r: [&T; N])
    ensures
        forall|i: int| 0 <= i < N ==> *(#[trigger] r@[i]) == array@[i],
{
    element_refs(array)
}

/// `<[T; N]>::each_mut`: the array of the mutable references to the
/// elements, in the order of the elements.
#[verifier::external_body]
fn element_muts<T, const N: usize>(array: &mut [T; N]) -> (r: [&mut T; N])
    ensures
        forall|i: int| 0 <= i < N ==> *(#[trigger] r@[i]) == old(array)@[i],
        forall|i: int| 0 <= i < N ==> final(array)@[i] == *final(#[trigger] r@[i]),
{
    array.each_mut()
}

/// The array of the mutable references to the elements of `array`, in the
/// order of the elements.
pub fn each_mut<T, const N: usize>(array: &mut [T; N]) -> (r: [&mut T; N])
    ensures
        forall|i: int| 0 <= i < N ==> *(#[trigger] r@[i]) == old(array)@[i],
        forall|i: int| 0 <= i < N ==> final(array)@[i] == *final(#[trigger] r@[i]),
{
    element_muts(array)
}

} // verus!
