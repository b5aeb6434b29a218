//! What holds of every type with a capability, whichever type it is.

use vstd::prelude::*;
use core::cmp::Ordering;
use vstd::arithmetic::power2::is_pow2;
use crate::array::Array;
use crate::num::arith::{
    div_euclid, div_trunc, lemma_div_rem_euclid, lemma_div_rem_trunc, magnitude, rem_euclid,
    rem_trunc,
};
use crate::num::bytes::{
    be_bytes, from_be_bytes, from_le_bytes, le_bytes, lemma_be_bytes_of_value, lemma_be_round_trip,
    lemma_le_bytes_of_value, lemma_le_round_trip,
};
use crate::num::float::ordering;
use crate::num::format::{
    is_infinite, is_nan, is_zero, less_than, magnitude_bits, order_key, sign_negative, FloatFormat,
};
use crate::num::integer::Integer;
use crate::num::number::Number;
use crate::num::number_like::NumberLike;
use crate::num::pattern::{decode, BitPattern};
use crate::num::unsigned::Unsigned;
use crate::num::value::{checked, overflowing, saturated, wrapped, IntegerValue};
use crate::num::wide::{lemma_next_power, next_power};
use crate::tuple::{HomogeneousTuple, Tuple};

verus! {

/// A scalar that goes to its underlying type and back is the scalar it was:
/// what `try_from_underlying` makes of the result of `to_underlying`.
pub proof fn lemma_underlying_round_trip<T: NumberLike>(v: T)
    ensures
        decode::<T>(T::Underlying::of_pattern(v.pattern()).pattern()) == Some(v),
{
    v.pattern_of_value();
    T::underlying_holds(v.pattern());
    T::Underlying::value_of_pattern(v.pattern());
}

/// A scalar that goes to little-endian bytes and back is the scalar it
/// was: what `try_from_le_bytes` makes of the result of `to_le_bytes`.
pub proof fn lemma_le_bytes_round_trip<T: NumberLike>(v: T)
    ensures
        decode::<T>(from_le_bytes(le_bytes(v.pattern(), T::size()))) == Some(v),
{
    v.pattern_of_value();
    T::value_of_pattern(v.pattern());
    lemma_le_round_trip(v.pattern(), T::size());
}

/// A scalar that goes to big-endian bytes and back is the scalar it was:
/// what `try_from_be_bytes` makes of the result of `to_be_bytes`.
pub proof fn lemma_be_bytes_round_trip<T: NumberLike>(v: T)
    ensures
        decode::<T>(from_be_bytes(be_bytes(v.pattern(), T::size()))) == Some(v),
{
    v.pattern_of_value();
    T::value_of_pattern(v.pattern());
    lemma_be_round_trip(v.pattern(), T::size());
}

/// A scalar that goes to bytes in the order of a machine and back is the
/// scalar it was, whichever of the two orders that machine has: what
/// `try_from_bytes_in` makes of the result of `to_bytes_in` for one order,
/// and so what `try_from_ne_bytes` makes of the result of `to_ne_bytes`
/// where both run on one machine.
pub proof fn lemma_ne_bytes_round_trip<T: NumberLike>(v: T, little_endian: bool)
    ensures
        decode::<T>(
            if little_endian {
                from_le_bytes(le_bytes(v.pattern(), T::size()))
            } else {
                from_be_bytes(be_bytes(v.pattern(), T::size()))
            },
        ) == Some(v),
{
    lemma_le_bytes_round_trip(v);
    lemma_be_bytes_round_trip(v);
}

/// A number that goes to bytes and back, in either order, is the number it
/// was: what `from_le_bytes` and `from_be_bytes` make of the results of
/// `to_le_bytes` and `to_be_bytes`.
pub proof fn lemma_number_bytes_round_trip<T: Number>(v: T)
    ensures
        T::of_pattern(from_le_bytes(le_bytes(v.pattern(), T::size()))) == v,
        T::of_pattern(from_be_bytes(be_bytes(v.pattern(), T::size()))) == v,
{
    lemma_le_bytes_round_trip(v);
    lemma_be_bytes_round_trip(v);
}

/// Bytes that go to a scalar and back are the bytes they were, in either
/// order: what `to_le_bytes` and `to_be_bytes` make of the scalars that
/// `try_from_le_bytes` and `try_from_be_bytes` give.
pub proof fn lemma_bytes_round_trip_from_bytes<T: NumberLike>(bytes: Seq<u8>)
    ensures
        decode::<T>(from_le_bytes(bytes)) matches Some(v) ==> le_bytes(v.pattern(), bytes.len())
            == bytes,
        decode::<T>(from_be_bytes(bytes)) matches Some(v) ==> be_bytes(v.pattern(), bytes.len())
            == bytes,
{
    lemma_le_bytes_of_value(bytes);
    lemma_be_bytes_of_value(bytes);
    if T::is_pattern(from_le_bytes(bytes)) {
        T::value_of_pattern(from_le_bytes(bytes));
    }
    if T::is_pattern(from_be_bytes(bytes)) {
        T::value_of_pattern(from_be_bytes(bytes));
    }
}

/// An integer that goes to its sibling of the other signedness and back is
/// the integer it was, where the sibling has the patterns of the integer.
pub proof fn lemma_sibling_round_trip<T: Integer, Sibling: BitPattern>(v: T)
    requires
        Sibling::is_pattern(v.pattern()),
    ensures
        T::of_pattern(Sibling::of_pattern(v.pattern()).pattern()) == v,
{
    v.pattern_of_value();
    Sibling::value_of_pattern(v.pattern());
}

/// The overflowing form of an operation gives the result of the wrapping
/// form, and marks the results for which the checked form gives nothing.
pub proof fn lemma_overflowing_is_wrapping_and_checked<T: Integer>(i: int)
    ensures
        overflowing::<T>(i) == (wrapped::<T>(i), checked::<T>(i) is None),
{
}

/// The saturating form of an operation gives the result of the checked
/// form where there is one, else the bound on the side of the result.
pub proof fn lemma_saturating_is_checked_or_bound<T: Integer>(i: int)
    ensures
        saturated::<T>(i) == match checked::<T>(i) {
            Some(v) => v,
            None => if i > 0 {
                T::greatest()
            } else {
                T::least()
            },
        },
{
    T::constants();
    T::greatest().value_fits();
    T::least().value_fits();
}

/// A sum overflows on the side of its terms: where it does not fit, both
/// terms lie on one side of zero, and the saturating sum is the bound on
/// that side.
pub proof fn lemma_saturating_add<T: Integer>(a: T, b: T)
    ensures
        saturated::<T>(a.value() + b.value()) == match checked::<T>(a.value() + b.value()) {
            Some(v) => v,
            None => if a.value() > 0 {
                T::greatest()
            } else {
                T::least()
            },
        },
        checked::<T>(a.value() + b.value()) is None ==> (a.value() > 0 <==> b.value() > 0),
{
    T::constants();
    a.value_fits();
    b.value_fits();
    lemma_saturating_is_checked_or_bound::<T>(a.value() + b.value());
}

/// The checked form of an operation gives its result where the wrapping
/// form gives the true one.
pub proof fn lemma_checked_is_wrapping_when_it_fits<T: Integer>(i: int)
    ensures
        checked::<T>(i) is Some <==> wrapped::<T>(i).value() == i,
        checked::<T>(i) is Some ==> checked::<T>(i) == Some(wrapped::<T>(i)),
{
    T::constants();
    crate::num::arith::lemma_wrap_near(T::lower_bound(), T::upper_bound(), i);
    T::value_of_fitting(crate::num::arith::wrap(T::lower_bound(), T::upper_bound(), i));
}

/// A quotient and its remainder give back the dividend, for the division
/// that rounds towards zero and for the Euclidean one, and the remainder is
/// smaller than the divisor.
pub proof fn lemma_division_gives_back_dividend<T: Integer>(a: T, b: T)
    requires
        b.value() != 0,
    ensures
        a.value() == b.value() * div_trunc(a.value(), b.value()) + rem_trunc(
            a.value(),
            b.value(),
        ),
        magnitude(rem_trunc(a.value(), b.value())) < magnitude(b.value()),
        a.value() == b.value() * div_euclid(a.value(), b.value()) + rem_euclid(
            a.value(),
            b.value(),
        ),
        0 <= rem_euclid(a.value(), b.value()) < magnitude(b.value()),
{
    lemma_div_rem_trunc(a.value(), b.value());
    lemma_div_rem_euclid(a.value(), b.value());
}

/// What `next_power_of_two` gives is a power of two that is not below the
/// integer, and the least such: it is below twice the integer.
pub proof fn lemma_next_power_of_two_is_least<T: Unsigned>(v: T)
    ensures
        is_pow2(next_power(v.value())),
        v.value() <= next_power(v.value()),
        v.value() >= 1 ==> next_power(v.value()) < 2 * v.value(),
{
    lemma_next_power(v.value());
}

/// A tuple that goes to its array and back is the tuple it was: `back`
/// stands for what `from_array` makes of `array`, which stands for what
/// `into_array` made of `tuple`.
pub proof fn lemma_tuple_round_trip<Item, T: HomogeneousTuple<Item>>(
    tuple: T,
    array: T::Array,
    back: T,
)
    requires
        array.elems() == tuple.elems(),
        back.elems() == array.elems(),
    ensures
        back == tuple,
{
    back.elems_determine(&tuple);
}

/// An array that goes to its tuple and back is the array it was: `back`
/// stands for what `into_array` makes of `tuple`, which stands for what
/// `from_array` made of `array`.
pub proof fn lemma_array_round_trip<Item, T: HomogeneousTuple<Item>>(
    array: T::Array,
    tuple: T,
    back: T::Array,
)
    requires
        tuple.elems() == array.elems(),
        back.elems() == tuple.elems(),
    ensures
        back == array,
{
    back.elems_determine(&array);
}

/// A tuple holds as many elements as its type says and as its array holds,
/// each once and in its place.
pub proof fn lemma_tuple_array_same_elements<Item, T: HomogeneousTuple<Item>>(
    tuple: T,
    array: T::Array,
)
    requires
        array.elems() == tuple.elems(),
    ensures
        tuple.elems().len() == <T as Tuple>::N,
        array.elems().len() == <T as Tuple>::N,
        tuple.elems().len() == T::Array::N,
        forall|i: int| 0 <= i < T::Array::N ==> array.elems()[i] == tuple.elems()[i],
{
    array.elems_len();
    tuple.elems_len();
}

/// The place of the class of a float in the sequence of the total order:
/// negative NaN, negative infinity, negative finite numbers, negative zero,
/// positive zero, positive finite numbers, positive infinity, positive NaN.
pub open spec fn class_rank<T: FloatFormat>(x: T) -> int {
    let side: int = if is_nan(x) {
        3
    } else if is_infinite(x) {
        2
    } else if is_zero(x) {
        0
    } else {
        1
    };
    if sign_negative(x) {
        -side - 1
    } else {
        side
    }
}

/// Two floats have one place in the total order only if they are one float.
pub proof fn lemma_total_order_tells_apart<T: FloatFormat>(a: T, b: T)
    ensures
        order_key(a) == order_key(b) <==> a == b,
{
    T::layout();
    a.pattern_of_value();
    b.pattern_of_value();
    vstd::arithmetic::div_mod::lemma_fundamental_div_mod(a.pattern() as int, T::sign_bit() as int);
    vstd::arithmetic::div_mod::lemma_fundamental_div_mod(b.pattern() as int, T::sign_bit() as int);
    let s = T::sign_bit() as int;
    let (qa, qb) = (a.pattern() as int / s, b.pattern() as int / s);
    assert((sign_negative(a) <==> qa == 1) && (sign_negative(b) <==> qb == 1) && 0 <= qa <= 1 && 0
        <= qb <= 1) by (nonlinear_arith)
        requires
            a.pattern() == s * qa + magnitude_bits(a),
            b.pattern() == s * qb + magnitude_bits(b),
            0 <= magnitude_bits(a) < s,
            0 <= magnitude_bits(b) < s,
            a.pattern() < 2 * s,
            b.pattern() < 2 * s,
            sign_negative(a) <==> a.pattern() >= s,
            sign_negative(b) <==> b.pattern() >= s,
    ;
}

/// `total_cmp` is a strict total order: of two floats one comes before the
/// other unless they are one float, each way round says the same, and what
/// comes before a float comes before all that the float comes before.
pub proof fn lemma_total_order<T: FloatFormat>(a: T, b: T, c: T)
    ensures
        ordering(order_key(a), order_key(b)) == Ordering::Equal <==> a == b,
        ordering(order_key(a), order_key(b)) == Ordering::Less <==> ordering(
            order_key(b),
            order_key(a),
        ) == Ordering::Greater,
        ordering(order_key(a), order_key(b)) == Ordering::Less && ordering(
            order_key(b),
            order_key(c),
        ) == Ordering::Less ==> ordering(order_key(a), order_key(c)) == Ordering::Less,
{
    lemma_total_order_tells_apart(a, b);
}

/// The total order follows the sequence of the classes: a float of an
/// earlier class comes before a float of a later one.
pub proof fn lemma_total_order_of_classes<T: FloatFormat>(a: T, b: T)
    requires
        class_rank(a) < class_rank(b),
    ensures
        order_key(a) < order_key(b),
{
    T::layout();
}

/// Among the floats that are no NaN the total order is that of the
/// numbers, with negative zero before positive zero.
pub proof fn lemma_total_order_of_numbers<T: FloatFormat>(a: T, b: T)
    requires
        less_than(a, b),
    ensures
        order_key(a) < order_key(b),
{
}

/// Two NaNs of one sign are ordered by their payloads: the lesser payload
/// comes first, on either side of the sign.
pub proof fn lemma_total_order_of_nans<T: FloatFormat>(a: T, b: T)
    requires
        is_nan(a),
        is_nan(b),
        sign_negative(a) == sign_negative(b),
        magnitude_bits(a) < magnitude_bits(b),
    ensures
        order_key(a) < order_key(b),
{
}

} // verus!
