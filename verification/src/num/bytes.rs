//! Bit patterns as sequences of bytes, in both byte orders.

use vstd::prelude::*;

verus! {

/// 256 to the power of `n`: the number of bit patterns that `n` bytes hold.
pub open spec fn pow256(n: nat) -> nat
    decreases n,
{
    if n == 0 {
        1
    } else {
        256 * pow256((n - 1) as nat)
    }
}

/// The byte of weight `256^i` in the base-256 form of `bits`.
pub open spec fn byte_at(bits: nat, i: nat) -> u8
    decreases i,
{
    if i == 0 {
        (bits % 256) as u8
    } else {
        byte_at(bits / 256, (i - 1) as nat)
    }
}

/// The `len` low bytes of `bits`, least significant first.
pub open spec fn le_bytes(bits: nat, len: nat) -> Seq<u8> {
    Seq::new(len, |i: int| byte_at(bits, i as nat))
}

/// The `len` low bytes of `bits`, most significant first.
pub open spec fn be_bytes(bits: nat, len: nat) -> Seq<u8> {
    Seq::new(len, |i: int| byte_at(bits, (len - 1 - i) as nat))
}

/// The number whose base-256 digits are `bytes`, least significant first.
pub open spec fn from_le_bytes(bytes: Seq<u8>) -> nat
    decreases bytes.len(),
{
    if bytes.len() == 0 {
        0
    } else {
        bytes[0] as nat + 256 * from_le_bytes(bytes.drop_first())
    }
}

/// The number whose base-256 digits are `bytes`, most significant first.
pub open spec fn from_be_bytes(bytes: Seq<u8>) -> nat
    decreases bytes.len(),
{
    if bytes.len() == 0 {
        0
    } else {
        256 * from_be_bytes(bytes.drop_last()) + bytes.last() as nat
    }
}

/// The values of `pow256` at the widths of the scalar types.
pub proof fn lemma_pow256_values()
    ensures
        pow256(0) == 1,
        pow256(1) == 0x100,
        pow256(2) == 0x1_0000,
        pow256(4) == 0x1_0000_0000,
        pow256(8) == 0x1_0000_0000_0000_0000,
        pow256(16) == 0x1_0000_0000_0000_0000_0000_0000_0000_0000,
{
    reveal_with_fuel(pow256, 17);
}

pub proof fn lemma_pow256_monotonic(a: nat, b: nat)
    requires
        a <= b,
    ensures
        0 < pow256(a) <= pow256(b),
    decreases b,
{
    if a < b {
        lemma_pow256_monotonic(a, (b - 1) as nat);
    } else if a > 0 {
        lemma_pow256_monotonic((a - 1) as nat, (a - 1) as nat);
    }
}

/// Bytes in little-endian order denote a number below `256^len`.
pub proof fn lemma_from_le_bytes_bound(bytes: Seq<u8>)
    ensures
        from_le_bytes(bytes) < pow256(bytes.len()),
    decreases bytes.len(),
{
    if bytes.len() > 0 {
        lemma_from_le_bytes_bound(bytes.drop_first());
    }
}

/// Bytes in big-endian order denote a number below `256^len`.
pub proof fn lemma_from_be_bytes_bound(bytes: Seq<u8>)
    ensures
        from_be_bytes(bytes) < pow256(bytes.len()),
    decreases bytes.len(),
{
    if bytes.len() > 0 {
        lemma_from_be_bytes_bound(bytes.drop_last());
    }
}

/// Decoding the little-endian bytes of a number gives the number back.
pub proof fn lemma_le_round_trip(bits: nat, len: nat)
    requires
        bits < pow256(len),
    ensures
        from_le_bytes(le_bytes(bits, len)) == bits,
    decreases len,
{
    let bytes = le_bytes(bits, len);
    if len > 0 {
        let rest = (len - 1) as nat;
        assert(bytes.drop_first() =~= le_bytes(bits / 256, rest));
        lemma_le_round_trip(bits / 256, rest);
    }
}

/// Encoding the number that little-endian bytes denote gives the bytes back.
pub proof fn lemma_le_bytes_of_value(bytes: Seq<u8>)
    ensures
        le_bytes(from_le_bytes(bytes), bytes.len()) == bytes,
    decreases bytes.len(),
{
    let bits = from_le_bytes(bytes);
    if bytes.len() > 0 {
        let rest = bytes.drop_first();
        lemma_le_bytes_of_value(rest);
        let high = from_le_bytes(rest);
        assert(bits / 256 == high && bits % 256 == bytes[0] as nat);
        assert forall|i: int| 0 <= i < bytes.len() implies le_bytes(bits, bytes.len())[i]
            == bytes[i] by {
            if i > 0 {
                assert(le_bytes(high, rest.len())[i - 1] == rest[i - 1]);
            }
        }
    }
    assert(le_bytes(bits, bytes.len()) =~= bytes);
}

/// The big-endian bytes of a number are its little-endian bytes, reversed.
pub proof fn lemma_be_is_le_reversed(bits: nat, len: nat)
    ensures
        be_bytes(bits, len) == le_bytes(bits, len).reverse(),
{
    assert(be_bytes(bits, len) =~= le_bytes(bits, len).reverse());
}

/// Reading bytes most significant first is reading their reverse least
/// significant first.
pub proof fn lemma_from_be_is_from_le_reversed(bytes: Seq<u8>)
    ensures
        from_be_bytes(bytes) == from_le_bytes(bytes.reverse()),
    decreases bytes.len(),
{
    if bytes.len() > 0 {
        lemma_from_be_is_from_le_reversed(bytes.drop_last());
        lemma_from_le_push(bytes.drop_last().reverse(), bytes.last());
        assert(bytes.reverse() =~= seq![bytes.last()] + bytes.drop_last().reverse());
        assert(bytes.reverse().drop_first() =~= bytes.drop_last().reverse());
    }
}

proof fn lemma_from_le_push(bytes: Seq<u8>, low: u8)
    ensures
        from_le_bytes(seq![low] + bytes) == low as nat + 256 * from_le_bytes(bytes),
{
    assert((seq![low] + bytes).drop_first() =~= bytes);
}

/// Decoding the big-endian bytes of a number gives the number back.
pub proof fn lemma_be_round_trip(bits: nat, len: nat)
    requires
        bits < pow256(len),
    ensures
        from_be_bytes(be_bytes(bits, len)) == bits,
{
    lemma_from_be_is_from_le_reversed(be_bytes(bits, len));
    assert(be_bytes(bits, len).reverse() =~= le_bytes(bits, len));
    lemma_le_round_trip(bits, len);
}

/// Encoding the number that big-endian bytes denote gives the bytes back.
pub proof fn lemma_be_bytes_of_value(bytes: Seq<u8>)
    ensures
        be_bytes(from_be_bytes(bytes), bytes.len()) == bytes,
{
    lemma_from_be_is_from_le_reversed(bytes);
    lemma_le_bytes_of_value(bytes.reverse());
    lemma_be_is_le_reversed(from_be_bytes(bytes), bytes.len());
    assert(bytes.reverse().reverse() =~= bytes);
}

/// The `N` low bytes of `bits`, least significant first.
pub fn to_le_array<const N: usize>(bits: u128) -> (r: [u8; N])
    ensures
        r@ == le_bytes(bits as nat, N as nat),
{
    let mut r = [0u8;N];
    let mut rest = bits;
    let mut i: usize = 0;
    while i < N
        invariant
            i <= N,
            forall|j: int| 0 <= j < i ==> r@[j] == byte_at(bits as nat, j as nat),
            forall|k: nat|
                #[trigger] byte_at(rest as nat, k) == byte_at(bits as nat, (i + k) as nat),
        decreases N - i,
    {
        assert(byte_at(rest as nat, 0) == byte_at(bits as nat, i as nat));
        assert forall|k: nat| #[trigger] byte_at((rest / 256) as nat, k) == byte_at(
            bits as nat,
            (i + 1 + k) as nat,
        ) by {
            assert(byte_at(rest as nat, k + 1) == byte_at(bits as nat, (i + (k + 1)) as nat));
        }
        r[i] = (rest % 256) as u8;
        rest = rest / 256;
        i += 1;
    }
    assert(r@ =~= le_bytes(bits as nat, N as nat));
    r
}

/// The `N` low bytes of `bits`, most significant first.
pub fn to_be_array<const N: usize>(bits: u128) -> (r: [u8; N])
    ensures
        r@ == be_bytes(bits as nat, N as nat),
{
    let mut r = [0u8;N];
    let mut rest = bits;
    let mut i: usize = 0;
    while i < N
        invariant
            i <= N,
            forall|j: int| N - i <= j < N ==> r@[j] == byte_at(bits as nat, (N - 1 - j) as nat),
            forall|k: nat|
                #[trigger] byte_at(rest as nat, k) == byte_at(bits as nat, (i + k) as nat),
        decreases N - i,
    {
        assert(byte_at(rest as nat, 0) == byte_at(bits as nat, i as nat));
        assert forall|k: nat| #[trigger] byte_at((rest / 256) as nat, k) == byte_at(
            bits as nat,
            (i + 1 + k) as nat,
        ) by {
            assert(byte_at(rest as nat, k + 1) == byte_at(bits as nat, (i + (k + 1)) as nat));
        }
        r[N - 1 - i] = (rest % 256) as u8;
        rest = rest / 256;
        i += 1;
    }
    assert(r@ =~= be_bytes(bits as nat, N as nat));
    r
}

/// The number that `bytes` denote, least significant first.
pub fn from_le_array<const N: usize>(bytes: &[u8; N]) -> (r: u128)
    requires
        N <= 16,
    ensures
        r as nat == from_le_bytes(bytes@),
{
    let mut r: u128 = 0;
    let mut i: usize = N;
    while i > 0
        invariant
            i <= N <= 16,
            r as nat == from_le_bytes(bytes@.skip(i as int)),
        decreases i,
    {
        proof {
            let tail = bytes@.skip(i - 1);
            assert(tail.drop_first() =~= bytes@.skip(i as int));
            lemma_from_le_bytes_bound(bytes@.skip(i as int));
            lemma_from_le_bytes_bound(tail);
            lemma_pow256_monotonic(tail.len(), 16);
            lemma_pow256_values();
        }
        i -= 1;
        r = r * 256 + bytes[i] as u128;
    }
    assert(bytes@.skip(0) =~= bytes@);
    r
}

/// The number that `bytes` denote, most significant first.
pub fn from_be_array<const N: usize>(bytes: &[u8; N]) -> (r: u128)
    requires
        N <= 16,
    ensures
        r as nat == from_be_bytes(bytes@),
{
    let mut r: u128 = 0;
    let mut i: usize = 0;
    while i < N
        invariant
            i <= N <= 16,
            r as nat == from_be_bytes(bytes@.take(i as int)),
        decreases N - i,
    {
        proof {
            let head = bytes@.take(i + 1);
            assert(head.drop_last() =~= bytes@.take(i as int));
            lemma_from_be_bytes_bound(bytes@.take(i as int));
            lemma_from_be_bytes_bound(head);
            lemma_pow256_monotonic(head.len(), 16);
            lemma_pow256_values();
        }
        r = r * 256 + bytes[i] as u128;
        i += 1;
    }
    assert(bytes@.take(N as int) =~= bytes@);
    r
}

/// `u16::to_ne_bytes`: the two bytes of `x` in the byte order of the
/// machine, which is one of the two orders.
#[verifier::external_body]
fn native_bytes(x: u16) -> (r: [u8; 2])
    ensures
        r@ == le_bytes(x as nat, 2) || r@ == be_bytes(x as nat, 2),
{
    x.to_ne_bytes()
}

/// Whether the machine stores the least significant byte first.
pub(crate) fn native_is_little_endian() -> bool {
    native_bytes(1)[0] == 1
}

} // verus!
