//! Arithmetic on patterns of up to 128 bits, which every integer type
//! borrows for the operations that go bit by bit or step by step.

use vstd::prelude::*;
use vstd::arithmetic::power::{lemma_pow0, lemma_pow1, pow};
use vstd::arithmetic::power2::{is_pow2, lemma_pow2_pos, lemma_pow2_unfold, pow2};
use crate::num::bits::{bit_length, count_length, lemma_pow2_128, power_of_two};

verus! {

/// One step of raising to a power by squaring: the power of the base is
/// the power of its square to half the exponent, times the base where
/// the exponent is odd. All of it modulo `m`.
pub proof fn lemma_pow_by_squaring(acc: int, base: int, e: nat, m: int)
    requires
        0 < m,
        e > 0,
    ensures
        ((if e % 2 == 1 {
            (acc * base) % m
        } else {
            acc
        }) * pow((base * base) % m, e / 2)) % m == (acc * pow(base, e)) % m,
{
    let half = e / 2;
    let square = base * base;
    // pow(base, 2 * half) == pow(square, half)
    vstd::arithmetic::power::lemma_pow_multiplies(base, 2, half);
    vstd::arithmetic::power::lemma_square_is_pow2(base);
    assert(pow(base, 2 * half) == pow(square, half));
    vstd::arithmetic::power::lemma_pow_mod_noop(square, half, m);
    let reduced = pow(square % m, half);
    let full = pow(square, half);
    assert(reduced % m == full % m);
    if e % 2 == 1 {
        assert(e == 2 * half + 1);
        vstd::arithmetic::power::lemma_pow_adds(base, 1, 2 * half);
        lemma_pow1(base);
        assert(pow(base, e) == base * full);
        assert(acc * pow(base, e) == (acc * base) * full) by (nonlinear_arith)
            requires
                pow(base, e) == base * full,
        ;
        vstd::arithmetic::div_mod::lemma_mul_mod_noop_general(acc * base, full, m);
        vstd::arithmetic::div_mod::lemma_mul_mod_noop_general((acc * base) % m, reduced, m);
        vstd::arithmetic::div_mod::lemma_mul_mod_noop_general((acc * base) % m, full, m);
    } else {
        assert(e == 2 * half);
        vstd::arithmetic::div_mod::lemma_mul_mod_noop_general(acc, reduced, m);
        vstd::arithmetic::div_mod::lemma_mul_mod_noop_general(acc, full, m);
    }
}

/// `bits` to the power of `exp`, modulo two to the power of 128.
pub fn wrapping_pow(bits: u128, exp: u32) -> (r: u128)
    ensures
        r == pow(bits as int, exp as nat) % 0x1_0000_0000_0000_0000_0000_0000_0000_0000int,
{
    let ghost m: int = 0x1_0000_0000_0000_0000_0000_0000_0000_0000int;
    let mut acc: u128 = 1;
    let mut base = bits;
    let mut e = exp;
    proof {
        assert(1 * pow(bits as int, exp as nat) == pow(bits as int, exp as nat));
    }
    while e > 0
        invariant
            m == 0x1_0000_0000_0000_0000_0000_0000_0000_0000int,
            (acc * pow(base as int, e as nat)) % m == pow(bits as int, exp as nat) % m,
        decreases e,
    {
        proof {
            lemma_pow_by_squaring(acc as int, base as int, e as nat, m);
        }
        if e % 2 == 1 {
            acc = acc.wrapping_mul(base);
        }
        e = e / 2;
        base = base.wrapping_mul(base);
    }
    proof {
        lemma_pow0(base as int);
        vstd::arithmetic::div_mod::lemma_small_mod(acc as nat, m as nat);
    }
    acc
}

/// `bits` to the power of `exp`, where that is a pattern of 128 bits.
pub fn checked_pow(bits: u128, exp: u32) -> (r: Option<u128>)
    ensures
        r == if pow(bits as int, exp as nat) <= u128::MAX {
            Some(pow(bits as int, exp as nat) as u128)
        } else {
            None::<u128>
        },
{
    if exp == 0 {
        proof {
            lemma_pow0(bits as int);
        }
        return Some(1);
    }
    if bits <= 1 {
        proof {
            vstd::arithmetic::power::lemma0_pow(exp as nat);
            vstd::arithmetic::power::lemma1_pow(exp as nat);
        }
        return Some(bits);
    }
    let mut acc: u128 = 1;
    let mut i: u32 = 0;
    proof {
        lemma_pow0(bits as int);
    }
    while i < exp
        invariant
            i <= exp,
            bits >= 2,
            acc == pow(bits as int, i as nat),
        decreases exp - i,
    {
        proof {
            vstd::arithmetic::power::lemma_pow_adds(bits as int, i as nat, 1);
            lemma_pow1(bits as int);
            vstd::arithmetic::power::lemma_pow_increases(bits as nat, (i + 1) as nat, exp as nat);
        }
        match acc.checked_mul(bits) {
            Some(next) => {
                acc = next;
            },
            None => {
                return None;
            },
        }
        i += 1;
    }
    Some(acc)
}

/// The square root of `n`, rounded down.
pub fn isqrt(n: u128) -> (r: u128)
    ensures
        r * r <= n < (r + 1) * (r + 1),
        r < 0x1_0000_0000_0000_0000,
{
    let mut low: u128 = 0;
    let mut high: u128 = 0x1_0000_0000_0000_0000;
    assert(high * high > n) by (nonlinear_arith)
        requires
            high == 0x1_0000_0000_0000_0000,
            n <= u128::MAX,
    ;
    while high - low > 1
        invariant
            low < high <= 0x1_0000_0000_0000_0000,
            low * low <= n < high * high,
        decreases high - low,
    {
        let middle = low + (high - low) / 2;
        assert(middle * middle <= u128::MAX) by (nonlinear_arith)
            requires
                middle < 0x1_0000_0000_0000_0000,
        ;
        if middle * middle <= n {
            low = middle;
        } else {
            high = middle;
        }
    }
    low
}

/// The logarithm of `v` to the base `base`, rounded down.
pub fn ilog(v: u128, base: u128) -> (r: u32)
    requires
        v >= 1,
        base >= 2,
    ensures
        pow(base as int, r as nat) <= v < pow(base as int, (r + 1) as nat),
        r < 128,
{
    let mut r: u32 = 0;
    let mut rest = v;
    proof {
        lemma_pow0(base as int);
        vstd::arithmetic::power2::lemma2_to64();
    }
    while rest >= base
        invariant
            base >= 2,
            rest >= 1,
            pow(base as int, r as nat) * rest <= v < pow(base as int, r as nat) * (rest + 1),
            pow2(r as nat) * rest <= v,
            r < 128,
        decreases rest,
    {
        let next = rest / base;
        proof {
            let p = pow(base as int, r as nat);
            vstd::arithmetic::power::lemma_pow_adds(base as int, r as nat, 1);
            lemma_pow1(base as int);
            vstd::arithmetic::power::lemma_pow_positive(base as int, r as nat);
            vstd::arithmetic::div_mod::lemma_fundamental_div_mod(rest as int, base as int);
            vstd::arithmetic::div_mod::lemma_mod_bound(rest as int, base as int);
            assert((p * base) * next <= p * rest && p * (rest + 1) <= (p * base) * (next + 1))
                by (nonlinear_arith)
                requires
                    rest == base * next + rest % base,
                    0 <= rest % base < base,
                    p > 0,
            ;
            lemma_pow2_unfold((r + 1) as nat);
            lemma_pow2_pos(r as nat);
            assert(pow2((r + 1) as nat) * next <= pow2(r as nat) * rest) by (nonlinear_arith)
                requires
                    pow2((r + 1) as nat) == 2 * pow2(r as nat),
                    rest >= base * next,
                    base >= 2,
                    next >= 0,
            ;
            assert(1 <= next < rest) by (nonlinear_arith)
                requires
                    rest == base * next + rest % base,
                    0 <= rest % base < base,
                    rest >= base,
                    base >= 2,
            ;
            assert(pow2((r + 1) as nat) <= pow2((r + 1) as nat) * next) by (nonlinear_arith)
                requires
                    next >= 1,
            ;
            lemma_pow2_128();
            if r + 1 >= 128 {
                vstd::arithmetic::power2::lemma_pow2_strictly_increases(127, (r + 1) as nat);
                vstd::arithmetic::power2::lemma_pow2_unfold(128);
            }
        }
        rest = next;
        r += 1;
    }
    proof {
        let p = pow(base as int, r as nat);
        vstd::arithmetic::power::lemma_pow_adds(base as int, r as nat, 1);
        lemma_pow1(base as int);
        vstd::arithmetic::power::lemma_pow_positive(base as int, r as nat);
        assert(p <= p * rest && p * (rest + 1) <= p * base) by (nonlinear_arith)
            requires
                p > 0,
                1 <= rest < base,
        ;
    }
    r
}

/// A number above zero lies between the two powers of two that its bit
/// length tells.
pub proof fn lemma_bit_length(bits: nat)
    requires
        bits > 0,
    ensures
        pow2((bit_length(bits) - 1) as nat) <= bits < pow2(bit_length(bits)),
    decreases bits,
{
    vstd::arithmetic::power2::lemma2_to64();
    let len = bit_length(bits);
    assert(len == 1 + bit_length(bits / 2));
    if bits > 1 {
        let half = bits / 2;
        lemma_bit_length(half);
        assert(bit_length(half) == 1 + bit_length(half / 2));
        lemma_pow2_unfold(len);
        lemma_pow2_unfold((len - 1) as nat);
    } else {
        assert(bit_length(0) == 0);
    }
}

/// The least power of two that is not below `n`.
pub open spec fn next_power(n: int) -> int {
    if n <= 1 {
        1
    } else {
        pow2(bit_length((n - 1) as nat)) as int
    }
}

/// `next_power` gives a power of two that is not below the number and is
/// below twice the number.
pub proof fn lemma_next_power(n: int)
    ensures
        is_pow2(next_power(n)),
        n <= next_power(n),
        n >= 1 ==> next_power(n) < 2 * n,
{
    vstd::arithmetic::power2::lemma2_to64();
    if n > 1 {
        let len = bit_length((n - 1) as nat);
        lemma_bit_length((n - 1) as nat);
        lemma_pow2_unfold(len);
        assert(vstd::arithmetic::power2::is_pow2_exists(pow2(len) as int)) by {
            vstd::arithmetic::power::lemma_pow_positive(2, len);
            assert(pow(2, len) == pow2(len));
        }
        vstd::arithmetic::power2::is_pow2_equiv(pow2(len) as int);
    } else {
        reveal(is_pow2);
    }
}

/// Whether `bits` is a power of two.
pub fn is_power_of_two(bits: u128) -> (r: bool)
    ensures
        r == is_pow2(bits as int),
{
    let mut rest = bits;
    while rest > 1 && rest % 2 == 0
        invariant
            is_pow2(rest as int) == is_pow2(bits as int),
        decreases rest,
    {
        proof {
            reveal(is_pow2);
        }
        rest = rest / 2;
    }
    proof {
        reveal(is_pow2);
    }
    rest == 1
}

/// The least power of two that is not below `bits`, where that is a
/// pattern of 128 bits.
pub fn next_power_of_two(bits: u128) -> (r: Option<u128>)
    ensures
        r == if next_power(bits as int) <= u128::MAX {
            Some(next_power(bits as int) as u128)
        } else {
            None::<u128>
        },
{
    if bits <= 1 {
        return Some(1);
    }
    let len = count_length(bits - 1);
    proof {
        lemma_pow2_128();
        if len < 128 {
            vstd::arithmetic::power2::lemma_pow2_strictly_increases(len as nat, 128);
        }
    }
    if len == 128 {
        None
    } else {
        Some(power_of_two(len))
    }
}

/// The sum of a product and two more terms, all patterns of 128 bits, as
/// the low and the high half of a pattern of 256 bits.
pub fn multiply_add(a: u128, b: u128, c: u128, d: u128) -> (r: (u128, u128))
    ensures
        a * b + c + d == r.1 * 0x1_0000_0000_0000_0000_0000_0000_0000_0000int + r.0,
{
    let half: u128 = 0x1_0000_0000_0000_0000;
    let (a1, a0) = (a / half, a % half);
    let (b1, b0) = (b / half, b % half);
    assert(a0 * b0 <= 0xffff_ffff_ffff_ffff * 0xffff_ffff_ffff_ffff && a0 * b1
        <= 0xffff_ffff_ffff_ffff * 0xffff_ffff_ffff_ffff && a1 * b0 <= 0xffff_ffff_ffff_ffff
        * 0xffff_ffff_ffff_ffff && a1 * b1 <= 0xffff_ffff_ffff_ffff * 0xffff_ffff_ffff_ffff)
        by (nonlinear_arith)
        requires
            a0 <= 0xffff_ffff_ffff_ffff,
            a1 <= 0xffff_ffff_ffff_ffff,
            b0 <= 0xffff_ffff_ffff_ffff,
            b1 <= 0xffff_ffff_ffff_ffff,
    ;
    let low_low = a0 * b0;
    let low_high = a0 * b1;
    let high_low = a1 * b0;
    let high_high = a1 * b1;
    assert(a * b == high_high * 0x1_0000_0000_0000_0000_0000_0000_0000_0000int + (low_high
        + high_low) * 0x1_0000_0000_0000_0000int + low_low) by (nonlinear_arith)
        requires
            a == a1 * 0x1_0000_0000_0000_0000int + a0,
            b == b1 * 0x1_0000_0000_0000_0000int + b0,
            low_low == a0 * b0,
            low_high == a0 * b1,
            high_low == a1 * b0,
            high_high == a1 * b1,
    ;
    let middle = low_low / half + low_high % half + high_low % half + c / half + d / half;
    let bottom = low_low % half + c % half + d % half;
    let middle = middle + bottom / half;
    let low = (middle % half) * half + bottom % half;
    let high = high_high + low_high / half + high_low / half + middle / half;
    (low, high)
}

} // verus!
