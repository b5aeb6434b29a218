//! Tuples, and the bridge between a tuple of one element type and an array.

use vstd::prelude::*;
use crate::array::Array;
use crate::primitive::Primitive;

verus! {

/// A tuple of any element types.
pub trait Tuple: Primitive {
    /// The number of elements.
    const N: usize;
}

/// A tuple whose elements all have the type `Item`, convertible to and from
/// the array of the same length. Both directions move every element once
/// and keep the order.
pub trait HomogeneousTuple<Item>: Tuple + Sized {
    type Array: Array<Item = Item>;

    /// The elements, in order.
    spec fn elems(&self) -> Seq<Item>;

    /// A tuple holds as many elements as its type says.
    proof fn elems_len(&self)
        ensures
            self.elems().len() == <Self as Tuple>::N;

    /// A tuple is determined by its elements.
    proof fn elems_determine(&self, other: &Self)
        requires
            self.elems() == other.elems(),
        ensures
            self == other;

    fn into_array(self) -> (r: Self::Array)
        ensures
            r.elems() == self.elems();

    fn from_array(array: Self::Array) -> (r: Self)
        ensures
            r.elems() == array.elems();
}

/// `Vec::from` on an array: the elements of the array, moved into a vector
/// in their order.
#[verifier::external_body]
fn into_vec<T, const N: usize>(array: [T; N]) -> (items: Vec<T>)
    ensures
        items@ == array@,
{
    Vec::from(array)
}

impl Primitive for () {}

impl Tuple for () {
    const N: usize = 0;
}

impl<T> HomogeneousTuple<T> for () {
    type Array = [T; 0];

    open spec fn elems(&self) -> Seq<T> {
        Seq::empty()
    }

    proof fn elems_len(&self) {
    }

    proof fn elems_determine(&self, other: &Self) {
    }

    fn into_array(self) -> (r: [T; 0]) {
        let r: [T; 0] = [];
        assert(r@ =~= Seq::empty());
        r
    }

    fn from_array(array: [T; 0]) -> (r: Self) {
        assert(array@ =~= Seq::empty());
        ()
    }
}

impl<T1: ?Sized> Primitive for (T1,) {}

impl<T1: ?Sized> Tuple for (T1,) {
    const N: usize = 1;
}

impl<T> HomogeneousTuple<T> for (T,) {
    type Array = [T; 1];

    open spec fn elems(&self) -> Seq<T> {
        seq![self.0]
    }

    proof fn elems_len(&self) {
    }

    proof fn elems_determine(&self, other: &Self) {
        assert(self.0 == self.elems()[0]);
    }

    fn into_array(self) -> (r: [T; 1]) {
        let r = [self.0];
        assert(r@ =~= self.elems());
        r
    }

    fn from_array(array: [T; 1]) -> (r: Self) {
        let mut items = into_vec(array);
        let t1 = items.pop().unwrap();
        let r = (t1,);
        assert(r.elems() =~= array@);
        r
    }
}

impl<T1, T2: ?Sized> Primitive for (T1, T2) {}

impl<T1, T2: ?Sized> Tuple for (T1, T2) {
    const N: usize = 2;
}

impl<T> HomogeneousTuple<T> for (T, T) {
    type Array = [T; 2];

    open spec fn elems(&self) -> Seq<T> {
        seq![self.0, self.1]
    }

    proof fn elems_len(&self) {
    }

    proof fn elems_determine(&self, other: &Self) {
        assert(self.0 == self.elems()[0]);
        assert(self.1 == self.elems()[1]);
    }

    fn into_array(self) -> (r: [T; 2]) {
        let r = [self.0, self.1];
        assert(r@ =~= self.elems());
        r
    }

    fn from_array(array: [T; 2]) -> (r: Self) {
        let mut items = into_vec(array);
        let t2 = items.pop().unwrap();
        let t1 = items.pop().unwrap();
        let r = (t1, t2);
        assert(r.elems() =~= array@);
        r
    }
}

impl<T1, T2, T3: ?Sized> Primitive for (T1, T2, T3) {}

impl<T1, T2, T3: ?Sized> Tuple for (T1, T2, T3) {
    const N: usize = 3;
}

impl<T> HomogeneousTuple<T> for (T, T, T) {
    type Array = [T; 3];

    open spec fn elems(&self) -> Seq<T> {
        seq![self.0, self.1, self.2]
    }

    proof fn elems_len(&self) {
    }

    proof fn elems_determine(&self, other: &Self) {
        assert(self.0 == self.elems()[0]);
        assert(self.1 == self.elems()[1]);
        assert(self.2 == self.elems()[2]);
    }

    fn into_array(self) -> (r: [T; 3]) {
        let r = [self.0, self.1, self.2];
        assert(r@ =~= self.elems());
        r
    }

    fn from_array(array: [T; 3]) -> (r: Self) {
        let mut items = into_vec(array);
        let t3 = items.pop().unwrap();
        let t2 = items.pop().unwrap();
        let t1 = items.pop().unwrap();
        let r = (t1, t2, t3);
        assert(r.elems() =~= array@);
        r
    }
}

impl<T1, T2, T3, T4: ?Sized> Primitive for (T1, T2, T3, T4) {}

impl<T1, T2, T3, T4: ?Sized> Tuple for (T1, T2, T3, T4) {
    const N: usize = 4;
}

impl<T> HomogeneousTuple<T> for (T, T, T, T) {
    type Array = [T; 4];

    open spec fn elems(&self) -> Seq<T> {
        seq![self.0, self.1, self.2, self.3]
    }

    proof fn elems_len(&self) {
    }

    proof fn elems_determine(&self, other: &Self) {
        assert(self.0 == self.elems()[0]);
        assert(self.1 == self.elems()[1]);
        assert(self.2 == self.elems()[2]);
        assert(self.3 == self.elems()[3]);
    }

    fn into_array(self) -> (r: [T; 4]) {
        let r = [self.0, self.1, self.2, self.3];
        assert(r@ =~= self.elems());
        r
    }

    fn from_array(array: [T; 4]) -> (r: Self) {
        let mut items = into_vec(array);
        let t4 = items.pop().unwrap();
        let t3 = items.pop().unwrap();
        let t2 = items.pop().unwrap();
        let t1 = items.pop().unwrap();
        let r = (t1, t2, t3, t4);
        assert(r.elems() =~= array@);
        r
    }
}

impl<T1, T2, T3, T4, T5: ?Sized> Primitive for (T1, T2, T3, T4, T5) {}

impl<T1, T2, T3, T4, T5: ?Sized> Tuple for (T1, T2, T3, T4, T5) {
    const N: usize = 5;
}

impl<T> HomogeneousTuple<T> for (T, T, T, T, T) {
    type Array = [T; 5];

    open spec fn elems(&self) -> Seq<T> {
        seq![self.0, self.1, self.2, self.3, self.4]
    }

    proof fn elems_len(&self) {
    }

    proof fn elems_determine(&self, other: &Self) {
        assert(self.0 == self.elems()[0]);
        assert(self.1 == self.elems()[1]);
        assert(self.2 == self.elems()[2]);
        assert(self.3 == self.elems()[3]);
        assert(self.4 == self.elems()[4]);
    }

    fn into_array(self) -> (r: [T; 5]) {
        let r = [self.0, self.1, self.2, self.3, self.4];
        assert(r@ =~= self.elems());
        r
    }

    fn from_array(array: [T; 5]) -> (r: Self) {
        let mut items = into_vec(array);
        let t5 = items.pop().unwrap();
        let t4 = items.pop().unwrap();
        let t3 = items.pop().unwrap();
        let t2 = items.pop().unwrap();
        let t1 = items.pop().unwrap();
        let r = (t1, t2, t3, t4, t5);
        assert(r.elems() =~= array@);
        r
    }
}

impl<T1, T2, T3, T4, T5, T6: ?Sized> Primitive for (T1, T2, T3, T4, T5, T6) {}

impl<T1, T2, T3, T4, T5, T6: ?Sized> Tuple for (T1, T2, T3, T4, T5, T6) {
    const N: usize = 6;
}

impl<T> HomogeneousTuple<T> for (T, T, T, T, T, T) {
    type Array = [T; 6];

    open spec fn elems(&self) -> Seq<T> {
        seq![self.0, self.1, self.2, self.3, self.4, self.5]
    }

    proof fn elems_len(&self) {
    }

    proof fn elems_determine(&self, other: &Self) {
        assert(self.0 == self.elems()[0]);
        assert(self.1 == self.elems()[1]);
        assert(self.2 == self.elems()[2]);
        assert(self.3 == self.elems()[3]);
        assert(self.4 == self.elems()[4]);
        assert(self.5 == self.elems()[5]);
    }

    fn into_array(self) -> (r: [T; 6]) {
        let r = [self.0, self.1, self.2, self.3, self.4, self.5];
        assert(r@ =~= self.elems());
        r
    }

    fn from_array(array: [T; 6]) -> (r: Self) {
        let mut items = into_vec(array);
        let t6 = items.pop().unwrap();
        let t5 = items.pop().unwrap();
        let t4 = items.pop().unwrap();
        let t3 = items.pop().unwrap();
        let t2 = items.pop().unwrap();
        let t1 = items.pop().unwrap();
        let r = (t1, t2, t3, t4, t5, t6);
        assert(r.elems() =~= array@);
        r
    }
}

impl<T1, T2, T3, T4, T5, T6, T7: ?Sized> Primitive for (T1, T2, T3, T4, T5, T6, T7) {}

impl<T1, T2, T3, T4, T5, T6, T7: ?Sized> Tuple for (T1, T2, T3, T4, T5, T6, T7) {
    const N: usize = 7;
}

impl<T> HomogeneousTuple<T> for (T, T, T, T, T, T, T) {
    type Array = [T; 7];

    open spec fn elems(&self) -> Seq<T> {
        seq![self.0, self.1, self.2, self.3, self.4, self.5, self.6]
    }

    proof fn elems_len(&self) {
    }

    proof fn elems_determine(&self, other: &Self) {
        assert(self.0 == self.elems()[0]);
        assert(self.1 == self.elems()[1]);
        assert(self.2 == self.elems()[2]);
        assert(self.3 == self.elems()[3]);
        assert(self.4 == self.elems()[4]);
        assert(self.5 == self.elems()[5]);
        assert(self.6 == self.elems()[6]);
    }

    fn into_array(self) -> (r: [T; 7]) {
        let r = [self.0, self.1, self.2, self.3, self.4, self.5, self.6];
        assert(r@ =~= self.elems());
        r
    }

    fn from_array(array: [T; 7]) -> (r: Self) {
        let mut items = into_vec(array);
        let t7 = items.pop().unwrap();
        let t6 = items.pop().unwrap();
        let t5 = items.pop().unwrap();
        let t4 = items.pop().unwrap();
        let t3 = items.pop().unwrap();
        let t2 = items.pop().unwrap();
        let t1 = items.pop().unwrap();
        let r = (t1, t2, t3, t4, t5, t6, t7);
        assert(r.elems() =~= array@);
        r
    }
}

impl<T1, T2, T3, T4, T5, T6, T7, T8: ?Sized> Primitive for (T1, T2, T3, T4, T5, T6, T7, T8) {}

impl<T1, T2, T3, T4, T5, T6, T7, T8: ?Sized> Tuple for (T1, T2, T3, T4, T5, T6, T7, T8) {
    const N: usize = 8;
}

impl<T> HomogeneousTuple<T> for (T, T, T, T, T, T, T, T) {
    type Array = [T; 8];

    open spec fn elems(&self) -> Seq<T> {
        seq![self.0, self.1, self.2, self.3, self.4, self.5, self.6, self.7]
    }

    proof fn elems_len(&self) {
    }

    proof fn elems_determine(&self, other: &Self) {
        assert(self.0 == self.elems()[0]);
        assert(self.1 == self.elems()[1]);
        assert(self.2 == self.elems()[2]);
        assert(self.3 == self.elems()[3]);
        assert(self.4 == self.elems()[4]);
        assert(self.5 == self.elems()[5]);
        assert(self.6 == self.elems()[6]);
        assert(self.7 == self.elems()[7]);
    }

    fn into_array(self) -> (r: [T; 8]) {
        let r = [self.0, self.1, self.2, self.3, self.4, self.5, self.6, self.7];
        assert(r@ =~= self.elems());
        r
    }

    fn from_array(array: [T; 8]) -> (r: Self) {
        let mut items = into_vec(array);
        let t8 = items.pop().unwrap();
        let t7 = items.pop().unwrap();
        let t6 = items.pop().unwrap();
        let t5 = items.pop().unwrap();
        let t4 = items.pop().unwrap();
        let t3 = items.pop().unwrap();
        let t2 = items.pop().unwrap();
        let t1 = items.pop().unwrap();
        let r = (t1, t2, t3, t4, t5, t6, t7, t8);
        assert(r.elems() =~= array@);
        r
    }
}

impl<T1, T2, T3, T4, T5, T6, T7, T8, T9: ?Sized> Primitive for (
    T1, T2, T3, T4, T5, T6, T7, T8, T9,
) {}

impl<T1, T2, T3, T4, T5, T6, T7, T8, T9: ?Sized> Tuple for (T1, T2, T3, T4, T5, T6, T7, T8, T9) {
    const N: usize = 9;
}

impl<T> HomogeneousTuple<T> for (T, T, T, T, T, T, T, T, T) {
    type Array = [T; 9];

    open spec fn elems(&self) -> Seq<T> {
        seq![self.0, self.1, self.2, self.3, self.4, self.5, self.6, self.7, self.8]
    }

    proof fn elems_len(&self) {
    }

    proof fn elems_determine(&self, other: &Self) {
        assert(self.0 == self.elems()[0]);
        assert(self.1 == self.elems()[1]);
        assert(self.2 == self.elems()[2]);
        assert(self.3 == self.elems()[3]);
        assert(self.4 == self.elems()[4]);
        assert(self.5 == self.elems()[5]);
        assert(self.6 == self.elems()[6]);
        assert(self.7 == self.elems()[7]);
        assert(self.8 == self.elems()[8]);
    }

    fn into_array(self) -> (r: [T; 9]) {
        let r = [self.0, self.1, self.2, self.3, self.4, self.5, self.6, self.7, self.8];
        assert(r@ =~= self.elems());
        r
    }

    fn from_array(array: [T; 9]) -> (r: Self) {
        let mut items = into_vec(array);
        let t9 = items.pop().unwrap();
        let t8 = items.pop().unwrap();
        let t7 = items.pop().unwrap();
        let t6 = items.pop().unwrap();
        let t5 = items.pop().unwrap();
        let t4 = items.pop().unwrap();
        let t3 = items.pop().unwrap();
        let t2 = items.pop().unwrap();
        let t1 = items.pop().unwrap();
        let r = (t1, t2, t3, t4, t5, t6, t7, t8, t9);
        assert(r.elems() =~= array@);
        r
    }
}

impl<T1, T2, T3, T4, T5, T6, T7, T8, T9, T10: ?Sized> Primitive for (
    T1, T2, T3, T4, T5, T6, T7, T8, T9, T10,
) {}

impl<T1, T2, T3, T4, T5, T6, T7, T8, T9, T10: ?Sized> Tuple for (
    T1, T2, T3, T4, T5, T6, T7, T8, T9, T10,
) {
    const N: usize = 10;
}

impl<T> HomogeneousTuple<T> for (T, T, T, T, T, T, T, T, T, T) {
    type Array = [T; 10];

    open spec fn elems(&self) -> Seq<T> {
        seq![self.0, self.1, self.2, self.3, self.4, self.5, self.6, self.7, self.8, self.9]
    }

    proof fn elems_len(&self) {
    }

    proof fn elems_determine(&self, other: &Self) {
        assert(self.0 == self.elems()[0]);
        assert(self.1 == self.elems()[1]);
        assert(self.2 == self.elems()[2]);
        assert(self.3 == self.elems()[3]);
        assert(self.4 == self.elems()[4]);
        assert(self.5 == self.elems()[5]);
        assert(self.6 == self.elems()[6]);
        assert(self.7 == self.elems()[7]);
        assert(self.8 == self.elems()[8]);
        assert(self.9 == self.elems()[9]);
    }

    fn into_array(self) -> (r: [T; 10]) {
        let r = [self.0, self.1, self.2, self.3, self.4, self.5, self.6, self.7, self.8, self.9];
        assert(r@ =~= self.elems());
        r
    }

    fn from_array(array: [T; 10]) -> (r: Self) {
        let mut items = into_vec(array);
        let t10 = items.pop().unwrap();
        let t9 = items.pop().unwrap();
        let t8 = items.pop().unwrap();
        let t7 = items.pop().unwrap();
        let t6 = items.pop().unwrap();
        let t5 = items.pop().unwrap();
        let t4 = items.pop().unwrap();
        let t3 = items.pop().unwrap();
        let t2 = items.pop().unwrap();
        let t1 = items.pop().unwrap();
        let r = (t1, t2, t3, t4, t5, t6, t7, t8, t9, t10);
        assert(r.elems() =~= array@);
        r
    }
}

impl<T1, T2, T3, T4, T5, T6, T7, T8, T9, T10, T11: ?Sized> Primitive for (
    T1, T2, T3, T4, T5, T6, T7, T8, T9, T10, T11,
) {}

impl<T1, T2, T3, T4, T5, T6, T7, T8, T9, T10, T11: ?Sized> Tuple for (
    T1, T2, T3, T4, T5, T6, T7, T8, T9, T10, T11,
) {
    const N: usize = 11;
}

impl<T> HomogeneousTuple<T> for (T, T, T, T, T, T, T, T, T, T, T) {
    type Array = [T; 11];

    open spec fn elems(&self) -> Seq<T> {
        seq![
            self.0, self.1, self.2, self.3, self.4, self.5, self.6, self.7, self.8, self.9,
            self.10,
        ]
    }

    proof fn elems_len(&self) {
    }

    proof fn elems_determine(&self, other: &Self) {
        assert(self.0 == self.elems()[0]);
        assert(self.1 == self.elems()[1]);
        assert(self.2 == self.elems()[2]);
        assert(self.3 == self.elems()[3]);
        assert(self.4 == self.elems()[4]);
        assert(self.5 == self.elems()[5]);
        assert(self.6 == self.elems()[6]);
        assert(self.7 == self.elems()[7]);
        assert(self.8 == self.elems()[8]);
        assert(self.9 == self.elems()[9]);
        assert(self.10 == self.elems()[10]);
    }

    fn into_array(self) -> (r: [T; 11]) {
        let r = [
            self.0, self.1, self.2, self.3, self.4, self.5, self.6, self.7, self.8, self.9,
            self.10,
        ];
        assert(r@ =~= self.elems());
        r
    }

    fn from_array(array: [T; 11]) -> (r: Self) {
        let mut items = into_vec(array);
        let t11 = items.pop().unwrap();
        let t10 = items.pop().unwrap();
        let t9 = items.pop().unwrap();
        let t8 = items.pop().unwrap();
        let t7 = items.pop().unwrap();
        let t6 = items.pop().unwrap();
        let t5 = items.pop().unwrap();
        let t4 = items.pop().unwrap();
        let t3 = items.pop().unwrap();
        let t2 = items.pop().unwrap();
        let t1 = items.pop().unwrap();
        let r = (t1, t2, t3, t4, t5, t6, t7, t8, t9, t10, t11);
        assert(r.elems() =~= array@);
        r
    }
}

impl<T1, T2, T3, T4, T5, T6, T7, T8, T9, T10, T11, T12: ?Sized> Primitive for (
    T1, T2, T3, T4, T5, T6, T7, T8, T9, T10, T11, T12,
) {}

impl<T1, T2, T3, T4, T5, T6, T7, T8, T9, T10, T11, T12: ?Sized> Tuple for (
    T1, T2, T3, T4, T5, T6, T7, T8, T9, T10, T11, T12,
) {
    const N: usize = 12;
}

impl<T> HomogeneousTuple<T> for (T, T, T, T, T, T, T, T, T, T, T, T) {
    type Array = [T; 12];

    open spec fn elems(&self) -> Seq<T> {
        seq![
            self.0, self.1, self.2, self.3, self.4, self.5, self.6, self.7, self.8, self.9,
            self.10, self.11,
        ]
    }

    proof fn elems_len(&self) {
    }

    proof fn elems_determine(&self, other: &Self) {
        assert(self.0 == self.elems()[0]);
        assert(self.1 == self.elems()[1]);
        assert(self.2 == self.elems()[2]);
        assert(self.3 == self.elems()[3]);
        assert(self.4 == self.elems()[4]);
        assert(self.5 == self.elems()[5]);
        assert(self.6 == self.elems()[6]);
        assert(self.7 == self.elems()[7]);
        assert(self.8 == self.elems()[8]);
        assert(self.9 == self.elems()[9]);
        assert(self.10 == self.elems()[10]);
        assert(self.11 == self.elems()[11]);
    }

    fn into_array(self) -> (r: [T; 12]) {
        let r = [
            self.0, self.1, self.2, self.3, self.4, self.5, self.6, self.7, self.8, self.9,
            self.10, self.11,
        ];
        assert(r@ =~= self.elems());
        r
    }

    fn from_array(array: [T; 12]) -> (r: Self) {
        let mut items = into_vec(array);
        let t12 = items.pop().unwrap();
        let t11 = items.pop().unwrap();
        let t10 = items.pop().unwrap();
        let t9 = items.pop().unwrap();
        let t8 = items.pop().unwrap();
        let t7 = items.pop().unwrap();
        let t6 = items.pop().unwrap();
        let t5 = items.pop().unwrap();
        let t4 = items.pop().unwrap();
        let t3 = items.pop().unwrap();
        let t2 = items.pop().unwrap();
        let t1 = items.pop().unwrap();
        let r = (t1, t2, t3, t4, t5, t6, t7, t8, t9, t10, t11, t12);
        assert(r.elems() =~= array@);
        r
    }
}

impl<T1, T2, T3, T4, T5, T6, T7, T8, T9, T10, T11, T12, T13: ?Sized> Primitive for (
    T1, T2, T3, T4, T5, T6, T7, T8, T9, T10, T11, T12, T13,
) {}

impl<T1, T2, T3, T4, T5, T6, T7, T8, T9, T10, T11, T12, T13: ?Sized> Tuple for (
    T1, T2, T3, T4, T5, T6, T7, T8, T9, T10, T11, T12, T13,
) {
    const N: usize = 13;
}

impl<T> HomogeneousTuple<T> for (T, T, T, T, T, T, T, T, T, T, T, T, T) {
    type Array = [T; 13];

    open spec fn elems(&self) -> Seq<T> {
        seq![
            self.0, self.1, self.2, self.3, self.4, self.5, self.6, self.7, self.8, self.9,
            self.10, self.11, self.12,
        ]
    }

    proof fn elems_len(&self) {
    }

    proof fn elems_determine(&self, other: &Self) {
        assert(self.0 == self.elems()[0]);
        assert(self.1 == self.elems()[1]);
        assert(self.2 == self.elems()[2]);
        assert(self.3 == self.elems()[3]);
        assert(self.4 == self.elems()[4]);
        assert(self.5 == self.elems()[5]);
        assert(self.6 == self.elems()[6]);
        assert(self.7 == self.elems()[7]);
        assert(self.8 == self.elems()[8]);
        assert(self.9 == self.elems()[9]);
        assert(self.10 == self.elems()[10]);
        assert(self.11 == self.elems()[11]);
        assert(self.12 == self.elems()[12]);
    }

    fn into_array(self) -> (r: [T; 13]) {
        let r = [
            self.0, self.1, self.2, self.3, self.4, self.5, self.6, self.7, self.8, self.9,
            self.10, self.11, self.12,
        ];
        assert(r@ =~= self.elems());
        r
    }

    fn from_array(array: [T; 13]) -> (r: Self) {
        let mut items = into_vec(array);
        let t13 = items.pop().unwrap();
        let t12 = items.pop().unwrap();
        let t11 = items.pop().unwrap();
        let t10 = items.pop().unwrap();
        let t9 = items.pop().unwrap();
        let t8 = items.pop().unwrap();
        let t7 = items.pop().unwrap();
        let t6 = items.pop().unwrap();
        let t5 = items.pop().unwrap();
        let t4 = items.pop().unwrap();
        let t3 = items.pop().unwrap();
        let t2 = items.pop().unwrap();
        let t1 = items.pop().unwrap();
        let r = (t1, t2, t3, t4, t5, t6, t7, t8, t9, t10, t11, t12, t13);
        assert(r.elems() =~= array@);
        r
    }
}

impl<T1, T2, T3, T4, T5, T6, T7, T8, T9, T10, T11, T12, T13, T14: ?Sized> Primitive for (
    T1, T2, T3, T4, T5, T6, T7, T8, T9, T10, T11, T12, T13, T14,
) {}

impl<T1, T2, T3, T4, T5, T6, T7, T8, T9, T10, T11, T12, T13, T14: ?Sized> Tuple for (
    T1, T2, T3, T4, T5, T6, T7, T8, T9, T10, T11, T12, T13, T14,
) {
    const N: usize = 14;
}

impl<T> HomogeneousTuple<T> for (T, T, T, T, T, T, T, T, T, T, T, T, T, T) {
    type Array = [T; 14];

    open spec fn elems(&self) -> Seq<T> {
        seq![
            self.0, self.1, self.2, self.3, self.4, self.5, self.6, self.7, self.8, self.9,
            self.10, self.11, self.12, self.13,
        ]
    }

    proof fn elems_len(&self) {
    }

    proof fn elems_determine(&self, other: &Self) {
        assert(self.0 == self.elems()[0]);
        assert(self.1 == self.elems()[1]);
        assert(self.2 == self.elems()[2]);
        assert(self.3 == self.elems()[3]);
        assert(self.4 == self.elems()[4]);
        assert(self.5 == self.elems()[5]);
        assert(self.6 == self.elems()[6]);
        assert(self.7 == self.elems()[7]);
        assert(self.8 == self.elems()[8]);
        assert(self.9 == self.elems()[9]);
        assert(self.10 == self.elems()[10]);
        assert(self.11 == self.elems()[11]);
        assert(self.12 == self.elems()[12]);
        assert(self.13 == self.elems()[13]);
    }

    fn into_array(self) -> (r: [T; 14]) {
        let r = [
            self.0, self.1, self.2, self.3, self.4, self.5, self.6, self.7, self.8, self.9,
            self.10, self.11, self.12, self.13,
        ];
        assert(r@ =~= self.elems());
        r
    }

    fn from_array(array: [T; 14]) -> (r: Self) {
        let mut items = into_vec(array);
        let t14 = items.pop().unwrap();
        let t13 = items.pop().unwrap();
        let t12 = items.pop().unwrap();
        let t11 = items.pop().unwrap();
        let t10 = items.pop().unwrap();
        let t9 = items.pop().unwrap();
        let t8 = items.pop().unwrap();
        let t7 = items.pop().unwrap();
        let t6 = items.pop().unwrap();
        let t5 = items.pop().unwrap();
        let t4 = items.pop().unwrap();
        let t3 = items.pop().unwrap();
        let t2 = items.pop().unwrap();
        let t1 = items.pop().unwrap();
        let r = (t1, t2, t3, t4, t5, t6, t7, t8, t9, t10, t11, t12, t13, t14);
        assert(r.elems() =~= array@);
        r
    }
}

impl<T1, T2, T3, T4, T5, T6, T7, T8, T9, T10, T11, T12, T13, T14, T15: ?Sized> Primitive for (
    T1, T2, T3, T4, T5, T6, T7, T8, T9, T10, T11, T12, T13, T14, T15,
) {}

impl<T1, T2, T3, T4, T5, T6, T7, T8, T9, T10, T11, T12, T13, T14, T15: ?Sized> Tuple for (
    T1, T2, T3, T4, T5, T6, T7, T8, T9, T10, T11, T12, T13, T14, T15,
) {
    const N: usize = 15;
}

impl<T> HomogeneousTuple<T> for (T, T, T, T, T, T, T, T, T, T, T, T, T, T, T) {
    type Array = [T; 15];

    open spec fn elems(&self) -> Seq<T> {
        seq![
            self.0, self.1, self.2, self.3, self.4, self.5, self.6, self.7, self.8, self.9,
            self.10, self.11, self.12, self.13, self.14,
        ]
    }

    proof fn elems_len(&self) {
    }

    proof fn elems_determine(&self, other: &Self) {
        assert(self.0 == self.elems()[0]);
        assert(self.1 == self.elems()[1]);
        assert(self.2 == self.elems()[2]);
        assert(self.3 == self.elems()[3]);
        assert(self.4 == self.elems()[4]);
        assert(self.5 == self.elems()[5]);
        assert(self.6 == self.elems()[6]);
        assert(self.7 == self.elems()[7]);
        assert(self.8 == self.elems()[8]);
        assert(self.9 == self.elems()[9]);
        assert(self.10 == self.elems()[10]);
        assert(self.11 == self.elems()[11]);
        assert(self.12 == self.elems()[12]);
        assert(self.13 == self.elems()[13]);
        assert(self.14 == self.elems()[14]);
    }

    fn into_array(self) -> (r: [T; 15]) {
        let r = [
            self.0, self.1, self.2, self.3, self.4, self.5, self.6, self.7, self.8, self.9,
            self.10, self.11, self.12, self.13, self.14,
        ];
        assert(r@ =~= self.elems());
        r
    }

    fn from_array(array: [T; 15]) -> (r: Self) {
        let mut items = into_vec(array);
        let t15 = items.pop().unwrap();
        let t14 = items.pop().unwrap();
        let t13 = items.pop().unwrap();
        let t12 = items.pop().unwrap();
        let t11 = items.pop().unwrap();
        let t10 = items.pop().unwrap();
        let t9 = items.pop().unwrap();
        let t8 = items.pop().unwrap();
        let t7 = items.pop().unwrap();
        let t6 = items.pop().unwrap();
        let t5 = items.pop().unwrap();
        let t4 = items.pop().unwrap();
        let t3 = items.pop().unwrap();
        let t2 = items.pop().unwrap();
        let t1 = items.pop().unwrap();
        let r = (t1, t2, t3, t4, t5, t6, t7, t8, t9, t10, t11, t12, t13, t14, t15);
        assert(r.elems() =~= array@);
        r
    }
}

impl<T1, T2, T3, T4, T5, T6, T7, T8, T9, T10, T11, T12, T13, T14, T15, T16: ?Sized> Primitive for (
    T1, T2, T3, T4, T5, T6, T7, T8, T9, T10, T11, T12, T13, T14, T15, T16,
) {}

impl<T1, T2, T3, T4, T5, T6, T7, T8, T9, T10, T11, T12, T13, T14, T15, T16: ?Sized> Tuple for (
    T1, T2, T3, T4, T5, T6, T7, T8, T9, T10, T11, T12, T13, T14, T15, T16,
) {
    const N: usize = 16;
}

impl<T> HomogeneousTuple<T> for (T, T, T, T, T, T, T, T, T, T, T, T, T, T, T, T) {
    type Array = [T; 16];

    open spec fn elems(&self) -> Seq<T> {
        seq![
            self.0, self.1, self.2, self.3, self.4, self.5, self.6, self.7, self.8, self.9,
            self.10, self.11, self.12, self.13, self.14, self.15,
        ]
    }

    proof fn elems_len(&self) {
    }

    proof fn elems_determine(&self, other: &Self) {
        assert(self.0 == self.elems()[0]);
        assert(self.1 == self.elems()[1]);
        assert(self.2 == self.elems()[2]);
        assert(self.3 == self.elems()[3]);
        assert(self.4 == self.elems()[4]);
        assert(self.5 == self.elems()[5]);
        assert(self.6 == self.elems()[6]);
        assert(self.7 == self.elems()[7]);
        assert(self.8 == self.elems()[8]);
        assert(self.9 == self.elems()[9]);
        assert(self.10 == self.elems()[10]);
        assert(self.11 == self.elems()[11]);
        assert(self.12 == self.elems()[12]);
        assert(self.13 == self.elems()[13]);
        assert(self.14 == self.elems()[14]);
        assert(self.15 == self.elems()[15]);
    }

    fn into_array(self) -> (r: [T; 16]) {
        let r = [
            self.0, self.1, self.2, self.3, self.4, self.5, self.6, self.7, self.8, self.9,
            self.10, self.11, self.12, self.13, self.14, self.15,
        ];
        assert(r@ =~= self.elems());
        r
    }

    fn from_array(array: [T; 16]) -> (r: Self) {
        let mut items = into_vec(array);
        let t16 = items.pop().unwrap();
        let t15 = items.pop().unwrap();
        let t14 = items.pop().unwrap();
        let t13 = items.pop().unwrap();
        let t12 = items.pop().unwrap();
        let t11 = items.pop().unwrap();
        let t10 = items.pop().unwrap();
        let t9 = items.pop().unwrap();
        let t8 = items.pop().unwrap();
        let t7 = items.pop().unwrap();
        let t6 = items.pop().unwrap();
        let t5 = items.pop().unwrap();
        let t4 = items.pop().unwrap();
        let t3 = items.pop().unwrap();
        let t2 = items.pop().unwrap();
        let t1 = items.pop().unwrap();
        let r = (t1, t2, t3, t4, t5, t6, t7, t8, t9, t10, t11, t12, t13, t14, t15, t16);
        assert(r.elems() =~= array@);
        r
    }
}

} // verus!
