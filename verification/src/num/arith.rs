//! Integer arithmetic on mathematical integers, as the contracts speak of it.

use vstd::prelude::*;

verus! {

/// The distance of `i` from zero.
pub open spec fn magnitude(i: int) -> int {
    if i < 0 {
        -i
    } else {
        i
    }
}

/// The sign of `i`: -1, 0 or 1.
pub open spec fn sign(i: int) -> int {
    if i < 0 {
        -1
    } else if i == 0 {
        0
    } else {
        1
    }
}

/// The quotient of `a` by `b`, rounded towards zero.
pub open spec fn div_trunc(a: int, b: int) -> int {
    if (a < 0) == (b < 0) {
        magnitude(a) / magnitude(b)
    } else {
        -(magnitude(a) / magnitude(b))
    }
}

/// The remainder that `div_trunc` leaves: it has the sign of `a`.
pub open spec fn rem_trunc(a: int, b: int) -> int {
    if a < 0 {
        -(magnitude(a) % magnitude(b))
    } else {
        magnitude(a) % magnitude(b)
    }
}

/// The quotient of `a` by `b` that leaves a remainder which is not
/// negative: rounded down for a positive `b`, up for a negative one.
pub open spec fn div_euclid(a: int, b: int) -> int {
    a / b
}

/// The remainder that `div_euclid` leaves: it lies in `0..|b|`.
pub open spec fn rem_euclid(a: int, b: int) -> int {
    a % b
}

/// The quotient of `a` by a positive `b`, rounded up.
pub open spec fn div_ceil(a: int, b: int) -> int {
    if a % b == 0 {
        a / b
    } else {
        a / b + 1
    }
}

/// The least multiple of a positive `b` that is not below `a`.
pub open spec fn next_multiple(a: int, b: int) -> int {
    if a % b == 0 {
        a
    } else {
        a + (b - a % b)
    }
}

/// `i` brought into `lo..=hi` by adding or taking away a multiple of the
/// number of values in that range.
pub open spec fn wrap(lo: int, hi: int, i: int) -> int {
    lo + (i - lo) % (hi - lo + 1)
}

/// `i` brought into `lo..=hi` by replacing it with the nearer bound.
pub open spec fn clamp(lo: int, hi: int, i: int) -> int {
    if i < lo {
        lo
    } else if i > hi {
        hi
    } else {
        i
    }
}

/// Division rounded towards zero gives back the dividend, with a remainder
/// that is smaller than the divisor.
pub proof fn lemma_div_rem_trunc(a: int, b: int)
    requires
        b != 0,
    ensures
        a == b * div_trunc(a, b) + rem_trunc(a, b),
        magnitude(rem_trunc(a, b)) < magnitude(b),
        rem_trunc(a, b) != 0 ==> sign(rem_trunc(a, b)) == sign(a),
{
    let x = magnitude(a);
    let d = magnitude(b);
    vstd::arithmetic::div_mod::lemma_fundamental_div_mod(x, d);
    vstd::arithmetic::div_mod::lemma_mod_bound(x, d);
    let q = x / d;
    assert(b * div_trunc(a, b) == if a < 0 {
        -(d * q)
    } else {
        d * q
    }) by (nonlinear_arith)
        requires
            d == magnitude(b),
            q == magnitude(a) / magnitude(b),
            b != 0,
    ;
}

/// Euclidean division gives back the dividend, with a remainder in `0..|b|`.
pub proof fn lemma_div_rem_euclid(a: int, b: int)
    requires
        b != 0,
    ensures
        a == b * div_euclid(a, b) + rem_euclid(a, b),
        0 <= rem_euclid(a, b) < magnitude(b),
{
    vstd::arithmetic::div_mod::lemma_fundamental_div_mod(a, b);
    assert(0 <= a % b < magnitude(b)) by (nonlinear_arith)
        requires
            b != 0,
    ;
}

/// What `wrap` does to a number that is off the range by less than its length.
pub proof fn lemma_wrap_near(lo: int, hi: int, i: int)
    requires
        lo <= hi,
    ensures
        lo <= wrap(lo, hi, i) <= hi,
        lo <= i <= hi ==> wrap(lo, hi, i) == i,
        hi < i <= hi + (hi - lo + 1) ==> wrap(lo, hi, i) == i - (hi - lo + 1),
        lo - (hi - lo + 1) <= i < lo ==> wrap(lo, hi, i) == i + (hi - lo + 1),
{
    let m = hi - lo + 1;
    vstd::arithmetic::div_mod::lemma_mod_bound(i - lo, m);
    if lo <= i <= hi {
        vstd::arithmetic::div_mod::lemma_small_mod((i - lo) as nat, m as nat);
    } else if hi < i <= hi + m {
        vstd::arithmetic::div_mod::lemma_small_mod((i - lo - m) as nat, m as nat);
        vstd::arithmetic::div_mod::lemma_mod_sub_multiples_vanish(i - lo, m);
    } else if lo - m <= i < lo {
        vstd::arithmetic::div_mod::lemma_small_mod((i - lo + m) as nat, m as nat);
        vstd::arithmetic::div_mod::lemma_mod_add_multiples_vanish(i - lo, m);
    }
}

/// `wrap` takes no notice of multiples of the length of the range.
pub proof fn lemma_wrap_multiple(lo: int, hi: int, i: int, k: int)
    requires
        lo <= hi,
    ensures
        wrap(lo, hi, i + k * (hi - lo + 1)) == wrap(lo, hi, i),
{
    let m = hi - lo + 1;
    vstd::arithmetic::div_mod::lemma_mod_multiples_vanish(k, i - lo, m);
    assert(m * k + (i - lo) == i + k * m - lo) by (nonlinear_arith);
}

/// `wrap` on a range that is symmetric about -1/2, as the signed types
/// have it, is the remainder modulo the length, taken as negative when it
/// lies above the range.
pub proof fn lemma_wrap_signed(hi: int, i: int)
    requires
        0 <= hi,
    ensures
        wrap(-hi - 1, hi, i) == if i % (2 * hi + 2) > hi {
            i % (2 * hi + 2) - (2 * hi + 2)
        } else {
            i % (2 * hi + 2)
        },
{
    let m = 2 * hi + 2;
    let r = i % m;
    vstd::arithmetic::div_mod::lemma_fundamental_div_mod(i, m);
    vstd::arithmetic::div_mod::lemma_mod_bound(i, m);
    assert(r + (i / m) * m == i) by (nonlinear_arith)
        requires
            i == m * (i / m) + r,
    ;
    lemma_wrap_multiple(-hi - 1, hi, r, i / m);
    lemma_wrap_near(-hi - 1, hi, r);
}

/// `wrap` on a range that starts at zero is the remainder modulo the length.
pub proof fn lemma_wrap_unsigned(hi: int, i: int)
    requires
        0 <= hi,
    ensures
        wrap(0, hi, i) == i % (hi + 1),
{
}

/// A quotient is no further from zero than the dividend, and half as far
/// at most unless the divisor is 1 or -1.
pub proof fn lemma_div_trunc_bound(a: int, b: int)
    requires
        b != 0,
    ensures
        magnitude(div_trunc(a, b)) <= magnitude(a),
        magnitude(b) >= 2 ==> 2 * magnitude(div_trunc(a, b)) <= magnitude(a),
        b == 1 ==> div_trunc(a, b) == a && rem_trunc(a, b) == 0,
        b == -1 ==> div_trunc(a, b) == -a && rem_trunc(a, b) == 0,
        magnitude(rem_trunc(a, b)) < magnitude(b),
        magnitude(rem_trunc(a, b)) <= magnitude(a),
{
    let x = magnitude(a);
    let d = magnitude(b);
    vstd::arithmetic::div_mod::lemma_fundamental_div_mod(x, d);
    vstd::arithmetic::div_mod::lemma_mod_bound(x, d);
    let q = x / d;
    assert(0 <= q && q <= x && (d >= 2 ==> 2 * q <= x) && (d == 1 ==> q == x)) by (nonlinear_arith)
        requires
            x == d * q + x % d,
            0 <= x % d < d,
            0 <= x,
            0 < d,
    ;
}

/// The same bounds for Euclidean division.
pub proof fn lemma_div_euclid_bound(a: int, b: int)
    requires
        b != 0,
    ensures
        magnitude(div_euclid(a, b)) <= magnitude(a),
        magnitude(b) >= 2 ==> 2 * magnitude(div_euclid(a, b)) <= magnitude(a) + 1,
        b == 1 ==> div_euclid(a, b) == a && rem_euclid(a, b) == 0,
        b == -1 ==> div_euclid(a, b) == -a && rem_euclid(a, b) == 0,
        0 <= rem_euclid(a, b) < magnitude(b),
        a >= 0 ==> rem_euclid(a, b) <= a,
{
    lemma_div_rem_euclid(a, b);
    let q = a / b;
    let r = a % b;
    assert(magnitude(q) <= magnitude(a) && (magnitude(b) >= 2 ==> 2 * magnitude(q) <= magnitude(a)
        + 1) && (b == 1 ==> q == a) && (b == -1 ==> q == -a) && (a >= 0 ==> r <= a))
        by (nonlinear_arith)
        requires
            a == b * q + r,
            0 <= r < magnitude(b),
            b != 0,
    ;
}

/// The mean of two numbers, rounded towards zero, from the lower number and
/// the distance between the two.
pub proof fn lemma_midpoint(low: int, high: int)
    requires
        low <= high,
    ensures
        div_trunc(low + high, 2) == if low + high < 0 && (high - low) % 2 == 1 {
            low + (high - low) / 2 + 1
        } else {
            low + (high - low) / 2
        },
{
    let distance = high - low;
    let sum = low + high;
    assert(distance == 2 * (distance / 2) + distance % 2 && 0 <= distance % 2 < 2);
    if sum >= 0 {
        assert(sum / 2 == low + distance / 2);
    } else {
        assert((-sum) / 2 == -(low + distance / 2) - distance % 2);
    }
}

/// `div_ceil` gives the least number whose product with `b` reaches `a`,
/// and `next_multiple` that product.
pub proof fn lemma_div_ceil(a: int, b: int)
    requires
        0 <= a,
        0 < b,
    ensures
        next_multiple(a, b) == div_ceil(a, b) * b,
        a <= next_multiple(a, b) < a + b,
        0 <= div_ceil(a, b) <= a,
{
    vstd::arithmetic::div_mod::lemma_fundamental_div_mod(a, b);
    vstd::arithmetic::div_mod::lemma_mod_bound(a, b);
    let q = a / b;
    assert((q + 1) * b == q * b + b && q * b == b * q && 0 <= q && (a % b != 0 ==> q + 1 <= a))
        by (nonlinear_arith)
        requires
            a == b * q + a % b,
            0 <= a % b < b,
            0 <= a,
    ;
}

/// A negative number divided by a positive one, rounded down, from the
/// division of a number that is not negative.
pub proof fn lemma_floor_div_negative(v: int, d: int)
    requires
        v < 0,
        d > 0,
    ensures
        v / d == -1 - (-1 - v) / d,
{
    let u = -1 - v;
    vstd::arithmetic::div_mod::lemma_fundamental_div_mod(u, d);
    vstd::arithmetic::div_mod::lemma_mod_bound(u, d);
    let q = u / d;
    let r = u % d;
    assert(v == (-q - 1) * d + (d - 1 - r)) by (nonlinear_arith)
        requires
            u == d * q + r,
            u == -1 - v,
    ;
    vstd::arithmetic::div_mod::lemma_fundamental_div_mod_converse(v, d, -q - 1, d - 1 - r);
}

/// The remainder of a number within one length of zero: the number
/// itself, or one length more where it is negative.
pub proof fn lemma_mod_of_value(v: int, m: int)
    requires
        -m <= v < m,
    ensures
        v % m == if v < 0 {
            v + m
        } else {
            v
        },
{
    if v < 0 {
        vstd::arithmetic::div_mod::lemma_small_mod((v + m) as nat, m as nat);
        vstd::arithmetic::div_mod::lemma_mod_add_multiples_vanish(v, m);
    } else {
        vstd::arithmetic::div_mod::lemma_small_mod(v as nat, m as nat);
    }
}

/// A power of a negative number is the power of its magnitude, negative
/// where the exponent is odd.
pub proof fn lemma_pow_of_negative(v: int, e: nat)
    ensures
        vstd::arithmetic::power::pow(v, e) == if v < 0 && e % 2 == 1 {
            -vstd::arithmetic::power::pow(magnitude(v), e)
        } else {
            vstd::arithmetic::power::pow(magnitude(v), e)
        },
        vstd::arithmetic::power::pow(magnitude(v), e) >= 0,
    decreases e,
{
    reveal(vstd::arithmetic::power::pow);
    if e > 0 {
        lemma_pow_of_negative(v, (e - 1) as nat);
        let rest = vstd::arithmetic::power::pow(magnitude(v), (e - 1) as nat);
        assert(v * rest == -(magnitude(v) * rest) || v >= 0) by (nonlinear_arith)
            requires
                v < 0 ==> magnitude(v) == -v,
        ;
        assert(v * (-rest) == magnitude(v) * rest || v >= 0) by (nonlinear_arith)
            requires
                v < 0 ==> magnitude(v) == -v,
        ;
        assert(magnitude(v) * rest >= 0) by (nonlinear_arith)
            requires
                magnitude(v) >= 0,
                rest >= 0,
        ;
    }
}

} // verus!
