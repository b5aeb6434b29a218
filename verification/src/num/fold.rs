//! Sums and products of the integers of one type.

use vstd::prelude::*;
use crate::num::integer::Integer;
use crate::num::number::Number;
use crate::num::value::{fits, IntegerValue};

verus! {

/// The sum of the values of a list of integers.
pub open spec fn sum_of<T: IntegerValue>(values: Seq<T>) -> int
    decreases values.len(),
{
    if values.len() == 0 {
        0
    } else {
        sum_of(values.drop_last()) + values.last().value()
    }
}

/// The product of the values of a list of integers.
pub open spec fn product_of<T: IntegerValue>(values: Seq<T>) -> int
    decreases values.len(),
{
    if values.len() == 0 {
        1
    } else {
        product_of(values.drop_last()) * values.last().value()
    }
}

/// Whether the sum of a list fits the type at every step from the left.
pub open spec fn sums_fit<T: IntegerValue>(values: Seq<T>) -> bool {
    forall|k: int| 0 <= k <= values.len() ==> fits::<T>(#[trigger] sum_of(values.take(k)))
}

/// Whether the product of a list fits the type at every step from the left.
pub open spec fn products_fit<T: IntegerValue>(values: Seq<T>) -> bool {
    forall|k: int| 0 <= k <= values.len() ==> fits::<T>(#[trigger] product_of(values.take(k)))
}

/// The sum of a list of integers, unless it leaves the type at some step
/// from the left.
pub fn checked_sum<T: Integer>(values: &[T]) -> (r: Option<T>)
    ensures
        r == if sums_fit(values@) {
            Some(T::from_value(sum_of(values@)))
        } else {
            None
        },
{
    let mut sum = T::zero();
    let mut i: usize = 0;
    proof {
        T::constants();
        T::small(0).value_fits();
        assert(values@.take(0) =~= Seq::<T>::empty());
    }
    while i < values.len()
        invariant
            i <= values.len(),
            sum.value() == sum_of(values@.take(i as int)),
            forall|k: int| 0 <= k <= i ==> fits::<T>(#[trigger] sum_of(values@.take(k))),
        decreases values.len() - i,
    {
        proof {
            assert(values@.take(i + 1).drop_last() =~= values@.take(i as int));
            sum.value_fits();
        }
        match sum.checked_add(values[i]) {
            Some(next) => {
                proof {
                    T::value_of_fitting(sum.value() + values@[i as int].value());
                }
                sum = next;
            },
            None => {
                assert(!fits::<T>(sum_of(values@.take(i + 1))));
                return None;
            },
        }
        i += 1;
    }
    proof {
        assert(values@.take(values@.len() as int) =~= values@);
        sum.value_fits();
    }
    Some(sum)
}

/// The sum of a list of integers that fits the type at every step.
pub fn sum<T: Integer>(values: &[T]) -> (r: T)
    requires
        sums_fit(values@),
    ensures
        r == T::from_value(sum_of(values@)),
{
    checked_sum(values).unwrap()
}

/// The product of a list of integers, unless it leaves the type at some
/// step from the left.
pub fn checked_product<T: Integer>(values: &[T]) -> (r: Option<T>)
    ensures
        r == if products_fit(values@) {
            Some(T::from_value(product_of(values@)))
        } else {
            None
        },
{
    let mut product = T::one();
    let mut i: usize = 0;
    proof {
        T::constants();
        T::small(1).value_fits();
        assert(values@.take(0) =~= Seq::<T>::empty());
    }
    while i < values.len()
        invariant
            i <= values.len(),
            product.value() == product_of(values@.take(i as int)),
            forall|k: int| 0 <= k <= i ==> fits::<T>(#[trigger] product_of(values@.take(k))),
        decreases values.len() - i,
    {
        proof {
            assert(values@.take(i + 1).drop_last() =~= values@.take(i as int));
            product.value_fits();
        }
        match product.checked_mul(values[i]) {
            Some(next) => {
                proof {
                    T::value_of_fitting(product.value() * values@[i as int].value());
                }
                product = next;
            },
            None => {
                assert(!fits::<T>(product_of(values@.take(i + 1))));
                return None;
            },
        }
        i += 1;
    }
    proof {
        assert(values@.take(values@.len() as int) =~= values@);
        product.value_fits();
    }
    Some(product)
}

/// The product of a list of integers that fits the type at every step.
pub fn product<T: Integer>(values: &[T]) -> (r: T)
    requires
        products_fit(values@),
    ensures
        r == T::from_value(product_of(values@)),
{
    checked_product(values).unwrap()
}

} // verus!
