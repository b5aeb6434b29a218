//! The capability that every scalar type has.

use vstd::prelude::*;
use crate::array::Array;
use crate::num::bytes::{
    be_bytes, from_be_array, from_be_bytes, from_le_array, from_le_bytes, le_bytes,
    lemma_from_be_bytes_bound, lemma_from_le_bytes_bound, lemma_pow256_values,
    native_is_little_endian, to_be_array, to_le_array,
};
use crate::num::pattern::{decode, BitPattern};
use crate::primitive::Primitive;

verus! {

/// A scalar: a value of fixed width with least and greatest values, that
/// can be turned into its bit pattern and into bytes, and had back from them.
pub trait NumberLike:
    Primitive
    + BitPattern
    + Default
    + PartialEq
    + PartialOrd
    + core::fmt::Debug
    + Send
    + Sync
    + 'static
{
    /// The least value. For a float this is negative infinity, not the
    /// least finite value.
    spec fn least() -> Self;

    /// The greatest value. For a float this is positive infinity, not the
    /// greatest finite value.
    spec fn greatest() -> Self;

    /// The type of the same width that holds the bare bit pattern.
    type Underlying: BitPattern;

    /// The array of as many bytes as a value has.
    type ByteArray: Array<Item = u8>;

    /// The underlying type has the width of this type, and a value for each
    /// of its patterns.
    proof fn underlying_holds(bits: nat)
        requires
            Self::is_pattern(bits),
        ensures
            Self::Underlying::is_pattern(bits),
            Self::Underlying::size() == Self::size();

    /// The byte array holds exactly the bytes of a value.
    proof fn byte_array_len(bytes: Self::ByteArray)
        ensures
            bytes.elems().len() == Self::size();

    fn min_value() -> (r: Self)
        ensures
            r == Self::least();

    fn max_value() -> (r: Self)
        ensures
            r == Self::greatest();

    fn to_underlying(self) -> (r: Self::Underlying)
        ensures
            r == Self::Underlying::of_pattern(self.pattern());

    fn try_from_underlying(underlying: Self::Underlying) -> (r: Option<Self>)
        ensures
            r == decode::<Self>(underlying.pattern());

    /// The bytes of the value as they lie in memory: in the byte order of
    /// the machine.
    fn to_bytes(self) -> (r: Self::ByteArray)
        ensures
            r.elems() == le_bytes(self.pattern(), Self::size()) || r.elems() == be_bytes(
                self.pattern(),
                Self::size(),
            );

    /// The value whose bytes lie in memory as `bytes` do.
    fn try_from_bytes(bytes: Self::ByteArray) -> (r: Option<Self>)
        ensures
            r == decode::<Self>(from_le_bytes(bytes.elems())) || r == decode::<Self>(
                from_be_bytes(bytes.elems()),
            );

    fn to_be_bytes(self) -> (r: Self::ByteArray)
        ensures
            r.elems() == be_bytes(self.pattern(), Self::size());

    fn to_le_bytes(self) -> (r: Self::ByteArray)
        ensures
            r.elems() == le_bytes(self.pattern(), Self::size());

    /// The bytes of the value in the order of a machine that stores the
    /// least significant byte first, or of one that stores it last.
    fn to_bytes_in(self, little_endian: bool) -> (r: Self::ByteArray)
        ensures
            r.elems() == if little_endian {
                le_bytes(self.pattern(), Self::size())
            } else {
                be_bytes(self.pattern(), Self::size())
            };

    /// The bytes of the value in the order of this machine: what
    /// `to_bytes_in` gives for that order.
    fn to_ne_bytes(self) -> (r: Self::ByteArray)
        ensures
            r.elems() == le_bytes(self.pattern(), Self::size()) || r.elems() == be_bytes(
                self.pattern(),
                Self::size(),
            );

    fn try_from_be_bytes(bytes: Self::ByteArray) -> (r: Option<Self>)
        ensures
            r == decode::<Self>(from_be_bytes(bytes.elems()));

    fn try_from_le_bytes(bytes: Self::ByteArray) -> (r: Option<Self>)
        ensures
            r == decode::<Self>(from_le_bytes(bytes.elems()));

    /// The value that the bytes denote in the order of a machine that
    /// stores the least significant byte first, or of one that stores it
    /// last.
    fn try_from_bytes_in(bytes: Self::ByteArray, little_endian: bool) -> (r: Option<Self>)
        ensures
            r == decode::<Self>(
                if little_endian {
                    from_le_bytes(bytes.elems())
                } else {
                    from_be_bytes(bytes.elems())
                },
            );

    /// The value that the bytes denote in the order of this machine: what
    /// `try_from_bytes_in` gives for that order.
    fn try_from_ne_bytes(bytes: Self::ByteArray) -> (r: Option<Self>)
        ensures
            r == decode::<Self>(from_le_bytes(bytes.elems())) || r == decode::<Self>(
                from_be_bytes(bytes.elems()),
            );
}

impl Primitive for bool {}

impl BitPattern for bool {
    open spec fn size() -> nat {
        1
    }

    open spec fn pattern(self) -> nat {
        if self {
            1
        } else {
            0
        }
    }

    open spec fn is_pattern(bits: nat) -> bool {
        bits <= 1
    }

    open spec fn of_pattern(bits: nat) -> Self {
        bits == 1
    }

    proof fn pattern_of_value(self) {
    }

    proof fn value_of_pattern(bits: nat) {
        lemma_pow256_values();
    }
}

impl NumberLike for bool {
    open spec fn least() -> Self {
        false
    }

    open spec fn greatest() -> Self {
        true
    }

    type Underlying = u8;

    type ByteArray = [u8; 1];

    proof fn underlying_holds(bits: nat) {
    }

    proof fn byte_array_len(bytes: [u8; 1]) {
    }

    fn min_value() -> (r: Self) {
        false
    }

    fn max_value() -> (r: Self) {
        true
    }

    fn to_underlying(self) -> (r: u8) {
        if self {
            1
        } else {
            0
        }
    }

    fn try_from_underlying(underlying: u8) -> (r: Option<Self>) {
        match underlying {
            0 => Some(false),
            1 => Some(true),
            _ => None,
        }
    }

    fn to_bytes(self) -> (r: [u8; 1]) {
        self.to_ne_bytes()
    }

    fn try_from_bytes(bytes: [u8; 1]) -> (r: Option<Self>) {
        Self::try_from_ne_bytes(bytes)
    }

    fn to_be_bytes(self) -> (r: [u8; 1]) {
        to_be_array(self.to_underlying() as u128)
    }

    fn to_le_bytes(self) -> (r: [u8; 1]) {
        to_le_array(self.to_underlying() as u128)
    }

    fn to_bytes_in(self, little_endian: bool) -> (r: [u8; 1]) {
        if little_endian {
            self.to_le_bytes()
        } else {
            self.to_be_bytes()
        }
    }

    fn to_ne_bytes(self) -> (r: [u8; 1]) {
        self.to_bytes_in(native_is_little_endian())
    }

    fn try_from_be_bytes(bytes: [u8; 1]) -> (r: Option<Self>) {
        let bits = from_be_array(&bytes);
        proof {
            lemma_from_be_bytes_bound(bytes@);
            lemma_pow256_values();
        }
        Self::try_from_underlying(bits as u8)
    }

    fn try_from_le_bytes(bytes: [u8; 1]) -> (r: Option<Self>) {
        let bits = from_le_array(&bytes);
        proof {
            lemma_from_le_bytes_bound(bytes@);
            lemma_pow256_values();
        }
        Self::try_from_underlying(bits as u8)
    }

    fn try_from_bytes_in(bytes: [u8; 1], little_endian: bool) -> (r: Option<Self>) {
        if little_endian {
            Self::try_from_le_bytes(bytes)
        } else {
            Self::try_from_be_bytes(bytes)
        }
    }

    fn try_from_ne_bytes(bytes: [u8; 1]) -> (r: Option<Self>) {
        Self::try_from_bytes_in(bytes, native_is_little_endian())
    }
}

/// Whether `code` is a Unicode scalar value: a code point that is no surrogate.
pub open spec fn is_scalar_value(code: nat) -> bool {
    code <= 0xD7FF || 0xE000 <= code <= 0x10_FFFF
}

/// `char::from_u32`: the character with the code `code`, where that is a
/// Unicode scalar value, and nothing where it is not.
#[verifier::external_body]
fn char_from_code(code: u32) -> (r: Option<char>)
    ensures
        r == if is_scalar_value(code as nat) {
            Some(code as char)
        } else {
            None
        },
{
    char::from_u32(code)
}

/// Every character has a scalar value for its code, and is told by it.
proof fn lemma_char_code(c: char)
    ensures
        is_scalar_value(c as nat),
        (c as nat) as char == c,
        c as u32 == c as nat,
{
}

impl Primitive for char {}

impl BitPattern for char {
    open spec fn size() -> nat {
        4
    }

    open spec fn pattern(self) -> nat {
        self as nat
    }

    open spec fn is_pattern(bits: nat) -> bool {
        is_scalar_value(bits)
    }

    open spec fn of_pattern(bits: nat) -> Self {
        bits as char
    }

    proof fn pattern_of_value(self) {
        lemma_char_code(self);
    }

    proof fn value_of_pattern(bits: nat) {
        lemma_pow256_values();
    }
}

impl NumberLike for char {
    open spec fn least() -> Self {
        '\0'
    }

    open spec fn greatest() -> Self {
        '\u{10ffff}'
    }

    type Underlying = u32;

    type ByteArray = [u8; 4];

    proof fn underlying_holds(bits: nat) {
    }

    proof fn byte_array_len(bytes: [u8; 4]) {
    }

    fn min_value() -> (r: Self) {
        '\0'
    }

    fn max_value() -> (r: Self) {
        '\u{10ffff}'
    }

    fn to_underlying(self) -> (r: u32) {
        proof {
            lemma_char_code(self);
        }
        self as u32
    }

    fn try_from_underlying(underlying: u32) -> (r: Option<Self>) {
        char_from_code(underlying)
    }

    fn to_bytes(self) -> (r: [u8; 4]) {
        self.to_ne_bytes()
    }

    fn try_from_bytes(bytes: [u8; 4]) -> (r: Option<Self>) {
        Self::try_from_ne_bytes(bytes)
    }

    fn to_be_bytes(self) -> (r: [u8; 4]) {
        proof {
            lemma_char_code(self);
        }
        to_be_array(self.to_underlying() as u128)
    }

    fn to_le_bytes(self) -> (r: [u8; 4]) {
        proof {
            lemma_char_code(self);
        }
        to_le_array(self.to_underlying() as u128)
    }

    fn to_bytes_in(self, little_endian: bool) -> (r: [u8; 4]) {
        if little_endian {
            self.to_le_bytes()
        } else {
            self.to_be_bytes()
        }
    }

    fn to_ne_bytes(self) -> (r: [u8; 4]) {
        self.to_bytes_in(native_is_little_endian())
    }

    fn try_from_be_bytes(bytes: [u8; 4]) -> (r: Option<Self>) {
        let bits = from_be_array(&bytes);
        proof {
            lemma_from_be_bytes_bound(bytes@);
            lemma_pow256_values();
        }
        Self::try_from_underlying(bits as u32)
    }

    fn try_from_le_bytes(bytes: [u8; 4]) -> (r: Option<Self>) {
        let bits = from_le_array(&bytes);
        proof {
            lemma_from_le_bytes_bound(bytes@);
            lemma_pow256_values();
        }
        Self::try_from_underlying(bits as u32)
    }

    fn try_from_bytes_in(bytes: [u8; 4], little_endian: bool) -> (r: Option<Self>) {
        if little_endian {
            Self::try_from_le_bytes(bytes)
        } else {
            Self::try_from_be_bytes(bytes)
        }
    }

    fn try_from_ne_bytes(bytes: [u8; 4]) -> (r: Option<Self>) {
        Self::try_from_bytes_in(bytes, native_is_little_endian())
    }
}

} // verus!
