//! Bit patterns bit by bit: counting, reversing, rotating and shifting.

use vstd::prelude::*;
use vstd::arithmetic::power2::{lemma_pow2_pos, lemma_pow2_unfold, pow2};

verus! {

/// The number of bits of `bits` that are one.
pub open spec fn ones(bits: nat) -> nat
    decreases bits,
{
    if bits == 0 {
        0
    } else {
        bits % 2 + ones(bits / 2)
    }
}

/// The number of bits up to the highest one of `bits`.
pub open spec fn bit_length(bits: nat) -> nat
    decreases bits,
{
    if bits == 0 {
        0
    } else {
        1 + bit_length(bits / 2)
    }
}

/// The number of zeros below the lowest one of `bits`, for a `bits` other
/// than zero.
pub open spec fn low_zeros(bits: nat) -> nat
    decreases bits,
{
    if bits == 0 || bits % 2 == 1 {
        0
    } else {
        1 + low_zeros(bits / 2)
    }
}

/// The number of ones below the lowest zero of `bits`.
pub open spec fn low_ones(bits: nat) -> nat
    decreases bits,
{
    if bits % 2 == 0 {
        0
    } else {
        1 + low_ones(bits / 2)
    }
}

/// The `width` low bits of `bits` in the opposite order.
pub open spec fn reversed(bits: nat, width: nat) -> nat
    decreases width,
{
    if width == 0 {
        0
    } else {
        (bits % 2) * pow2((width - 1) as nat) + reversed(bits / 2, (width - 1) as nat)
    }
}

/// The pattern of `width` bits with a one wherever `bits` has a zero.
pub open spec fn complement(bits: nat, width: nat) -> nat {
    (pow2(width) - 1 - bits) as nat
}

/// The pattern of `width` bits that holds `bits` moved up by `n` places,
/// with what leaves at the top entering at the bottom.
pub open spec fn rotated_left(bits: nat, n: nat, width: nat) -> nat {
    (bits * pow2(n % width)) % pow2(width) + bits / pow2((width - n % width) as nat)
}

/// A pattern has no more bits than the width that holds it.
pub proof fn lemma_bit_length_bound(bits: nat, width: nat)
    requires
        bits < pow2(width),
    ensures
        bit_length(bits) <= width,
        ones(bits) <= bit_length(bits),
        low_zeros(bits) <= bit_length(bits),
        low_ones(bits) <= bit_length(bits),
    decreases bits,
{
    if bits > 0 {
        if width == 0 {
            vstd::arithmetic::power2::lemma2_to64();
        } else {
            lemma_pow2_unfold(width);
            lemma_bit_length_bound(bits / 2, (width - 1) as nat);
        }
    }
}

/// Two to the power of `n`.
pub fn power_of_two(n: u32) -> (r: u128)
    requires
        n < 128,
    ensures
        r == pow2(n as nat),
{
    let mut r: u128 = 1;
    let mut i: u32 = 0;
    proof {
        vstd::arithmetic::power2::lemma2_to64();
    }
    while i < n
        invariant
            i <= n < 128,
            r == pow2(i as nat),
        decreases n - i,
    {
        proof {
            lemma_pow2_unfold((i + 1) as nat);
            vstd::arithmetic::power2::lemma_pow2_strictly_increases((i + 1) as nat, 128);
            lemma_pow2_128();
        }
        r = r * 2;
        i += 1;
    }
    r
}

/// Two to the power of 128 is one more than the greatest pattern of 128 bits.
pub proof fn lemma_pow2_128()
    ensures
        pow2(128) == 0x1_0000_0000_0000_0000_0000_0000_0000_0000,
        pow2(64) == 0x1_0000_0000_0000_0000,
        pow2(32) == 0x1_0000_0000,
        pow2(16) == 0x1_0000,
        pow2(8) == 0x100,
{
    vstd::arithmetic::power2::lemma2_to64();
    vstd::arithmetic::power2::lemma2_to64_rest();
    vstd::arithmetic::power2::lemma_pow2_adds(64, 64);
}

/// The number of ones in `bits`.
pub fn count_ones(bits: u128) -> (r: u32)
    ensures
        r == ones(bits as nat),
        r <= 128,
{
    let mut r: u32 = 0;
    let mut rest = bits;
    proof {
        lemma_pow2_128();
        lemma_bit_length_bound(bits as nat, 128);
    }
    while rest > 0
        invariant
            r + ones(rest as nat) == ones(bits as nat),
            ones(bits as nat) <= 128,
        decreases rest,
    {
        if rest % 2 == 1 {
            r += 1;
        }
        rest = rest / 2;
    }
    r
}

/// The number of bits up to the highest one of `bits`.
pub fn count_length(bits: u128) -> (r: u32)
    ensures
        r == bit_length(bits as nat),
        r <= 128,
{
    let mut r: u32 = 0;
    let mut rest = bits;
    proof {
        lemma_pow2_128();
        lemma_bit_length_bound(bits as nat, 128);
    }
    while rest > 0
        invariant
            r + bit_length(rest as nat) == bit_length(bits as nat),
            bit_length(bits as nat) <= 128,
        decreases rest,
    {
        r += 1;
        rest = rest / 2;
    }
    r
}

/// The number of zeros below the lowest one of `bits`.
pub fn count_low_zeros(bits: u128) -> (r: u32)
    ensures
        r == low_zeros(bits as nat),
        r <= 128,
{
    let mut r: u32 = 0;
    let mut rest = bits;
    proof {
        lemma_pow2_128();
        lemma_bit_length_bound(bits as nat, 128);
    }
    while rest > 0 && rest % 2 == 0
        invariant
            r + low_zeros(rest as nat) == low_zeros(bits as nat),
            low_zeros(bits as nat) <= 128,
        decreases rest,
    {
        r += 1;
        rest = rest / 2;
    }
    r
}

/// The number of ones below the lowest zero of `bits`.
pub fn count_low_ones(bits: u128) -> (r: u32)
    ensures
        r == low_ones(bits as nat),
        r <= 128,
{
    let mut r: u32 = 0;
    let mut rest = bits;
    proof {
        lemma_pow2_128();
        lemma_bit_length_bound(bits as nat, 128);
    }
    while rest % 2 == 1
        invariant
            r + low_ones(rest as nat) == low_ones(bits as nat),
            low_ones(bits as nat) <= 128,
        decreases rest,
    {
        r += 1;
        rest = rest / 2;
    }
    r
}

/// The reverse of a pattern of `width` bits lies within the width.
pub proof fn lemma_reversed_bound(bits: nat, width: nat)
    ensures
        reversed(bits, width) < pow2(width),
    decreases width,
{
    lemma_pow2_pos(width);
    if width > 0 {
        lemma_pow2_unfold(width);
        lemma_reversed_bound(bits / 2, (width - 1) as nat);
        let rest = pow2((width - 1) as nat);
        assert((bits % 2) * rest <= rest) by (nonlinear_arith)
            requires
                bits % 2 <= 1,
        ;
    }
}

/// The `width` low bits of `bits` in the opposite order.
pub fn reverse(bits: u128, width: u32) -> (r: u128)
    requires
        width <= 128,
    ensures
        r == reversed(bits as nat, width as nat),
{
    let mut r: u128 = 0;
    let mut rest = bits;
    let mut i: u32 = 0;
    proof {
        vstd::arithmetic::power2::lemma2_to64();
    }
    // `r` holds the bits taken so far, reversed, and waits to be moved up
    // past the bits that are still to come.
    while i < width
        invariant
            i <= width <= 128,
            r < pow2(i as nat),
            reversed(bits as nat, width as nat) == r * pow2((width - i) as nat) + reversed(
                rest as nat,
                (width - i) as nat,
            ),
        decreases width - i,
    {
        proof {
            let left = (width - i) as nat;
            lemma_pow2_unfold(left);
            lemma_pow2_unfold((i + 1) as nat);
            lemma_pow2_128();
            if i + 1 < 128 {
                vstd::arithmetic::power2::lemma_pow2_strictly_increases((i + 1) as nat, 128);
            }
            assert((2 * r + rest % 2) * pow2((left - 1) as nat) == r * (2 * pow2((left - 1) as nat))
                + (rest % 2) * pow2((left - 1) as nat)) by (nonlinear_arith);
        }
        r = r * 2 + rest % 2;
        rest = rest / 2;
        i += 1;
    }
    proof {
        vstd::arithmetic::power2::lemma2_to64();
        assert(r * pow2(0) == r) by (nonlinear_arith)
            requires
                pow2(0) == 1,
        ;
    }
    r
}

/// A pattern of `width` bits moved up by `n` places, with what leaves at
/// the top entering at the bottom.
pub fn rotate_left(bits: u128, n: u32, width: u32) -> (r: u128)
    requires
        0 < width <= 128,
        bits < pow2(width as nat),
    ensures
        r == rotated_left(bits as nat, n as nat, width as nat),
        r < pow2(width as nat),
{
    let k = n % width;
    if k == 0 {
        proof {
            vstd::arithmetic::power2::lemma2_to64();
            lemma_pow2_pos(width as nat);
            assert(n as nat % width as nat == 0);
            assert(bits * pow2(0) == bits) by (nonlinear_arith)
                requires
                    pow2(0) == 1,
            ;
            vstd::arithmetic::div_mod::lemma_small_mod(bits as nat, pow2(width as nat));
            vstd::arithmetic::div_mod::lemma_basic_div(bits as int, pow2(width as nat) as int);
        }
        return bits;
    }
    let low = power_of_two(width - k);
    let high = power_of_two(k);
    proof {
        lemma_pow2_pos((width - k) as nat);
        vstd::arithmetic::div_mod::lemma_small_mod(k as nat, width as nat);
        assert(n as nat % width as nat == k);
    }
    let top = bits / low;
    let bottom = bits % low;
    proof {
        lemma_rotate(bits as nat, k as nat, width as nat);
        lemma_pow2_128();
        if width < 128 {
            vstd::arithmetic::power2::lemma_pow2_strictly_increases(width as nat, 128);
        }
    }
    bottom * high + top
}

/// A pattern moved up by `k` places within `width` bits keeps its low
/// `width - k` bits, moved up, and nothing else.
pub proof fn lemma_shift(bits: nat, k: nat, width: nat)
    requires
        k <= width,
    ensures
        (bits * pow2(k)) % pow2(width) == (bits % pow2((width - k) as nat)) * pow2(k),
        (bits % pow2((width - k) as nat)) * pow2(k) < pow2(width),
{
    let low = pow2((width - k) as nat);
    let high = pow2(k);
    lemma_pow2_pos((width - k) as nat);
    lemma_pow2_pos(k);
    vstd::arithmetic::power2::lemma_pow2_adds((width - k) as nat, k);
    let top = bits / low;
    let bottom = bits % low;
    vstd::arithmetic::div_mod::lemma_fundamental_div_mod(bits as int, low as int);
    vstd::arithmetic::div_mod::lemma_mod_bound(bits as int, low as int);
    assert(bits * high == (low * high) * top + bottom * high) by (nonlinear_arith)
        requires
            bits == low * top + bottom,
    ;
    assert(bottom * high < low * high) by (nonlinear_arith)
        requires
            bottom < low,
            0 < high,
    ;
    vstd::arithmetic::div_mod::lemma_mod_multiples_vanish(
        top as int,
        (bottom * high) as int,
        (low * high) as int,
    );
    vstd::arithmetic::div_mod::lemma_small_mod(bottom * high, low * high);
}

/// A pattern of `width` bits moved up by `n` places, without what leaves
/// at the top.
pub fn shift_left(bits: u128, n: u32, width: u32) -> (r: u128)
    requires
        n < width <= 128,
    ensures
        r == (bits as nat * pow2(n as nat)) % pow2(width as nat),
        r < pow2(width as nat),
{
    proof {
        lemma_pow2_128();
        lemma_pow2_pos(width as nat);
        if width < 128 {
            vstd::arithmetic::power2::lemma_pow2_strictly_increases(width as nat, 128);
        }
    }
    if n == 0 {
        proof {
            vstd::arithmetic::power2::lemma2_to64();
            assert(bits as nat * pow2(0) == bits) by (nonlinear_arith)
                requires
                    pow2(0) == 1,
            ;
            if width == 128 {
                vstd::arithmetic::div_mod::lemma_small_mod(bits as nat, pow2(128));
            }
        }
        return if width == 128 {
            bits
        } else {
            bits % power_of_two(width)
        };
    }
    let low = power_of_two(width - n);
    let high = power_of_two(n);
    proof {
        lemma_pow2_pos((width - n) as nat);
        lemma_shift(bits as nat, n as nat, width as nat);
    }
    (bits % low) * high
}

/// A rotation by less than the width puts the low part of the pattern
/// above its high part.
pub proof fn lemma_rotate(bits: nat, k: nat, width: nat)
    requires
        0 < k < width,
        bits < pow2(width),
    ensures
        rotated_left(bits, k, width) == (bits % pow2((width - k) as nat)) * pow2(k) + bits / pow2(
            (width - k) as nat,
        ),
        (bits % pow2((width - k) as nat)) * pow2(k) + bits / pow2((width - k) as nat) < pow2(width),
{
    let low = pow2((width - k) as nat);
    let high = pow2(k);
    lemma_pow2_pos((width - k) as nat);
    lemma_pow2_pos(k);
    vstd::arithmetic::power2::lemma_pow2_adds((width - k) as nat, k);
    vstd::arithmetic::div_mod::lemma_small_mod(k, width);
    lemma_shift(bits, k, width);
    let top = bits / low;
    let bottom = bits % low;
    vstd::arithmetic::div_mod::lemma_fundamental_div_mod(bits as int, low as int);
    vstd::arithmetic::div_mod::lemma_mod_bound(bits as int, low as int);
    assert(top < high) by (nonlinear_arith)
        requires
            bits == low * top + bottom,
            bits < low * high,
            0 <= bottom,
            0 < low,
    ;
    assert(bottom * high + top < low * high) by (nonlinear_arith)
        requires
            bottom < low,
            top < high,
            0 <= bottom,
            0 <= top,
    ;
}

} // verus!
