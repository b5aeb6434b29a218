//! Capabilities of numbers and number-like types.
//!
//! [`NumberLike`] holds for every scalar type, [`Number`] for those with
//! arithmetic, [`Integer`] and [`Float`] for the two kinds of number, and
//! [`Signed`] and [`Unsigned`] for the two kinds of integer.
//!
//! The contracts speak of a scalar by its bit pattern ([`BitPattern`]), of
//! an integer also by its mathematical value ([`IntegerValue`]), and of a
//! float by the fields of its pattern ([`FloatFormat`]). A float is held as
//! its bit pattern, in [`F32`] and [`F64`]: what depends on the pattern
//! alone is here, and arithmetic on floats is not.
//!
//! Sums and products of integers are in [`fold`], written once for every
//! integer type against the contracts of [`Integer`].
//!
//! The integer types share their algorithms: what goes bit by bit or step
//! by step runs on patterns of 128 bits ([`bits`], [`wide`]), and each type
//! brings its values there and back.

pub mod arith;
pub mod bits;
pub mod bytes;
pub mod float;
pub mod fold;
pub mod float32;
pub mod float64;
pub mod format;
pub mod integer;
pub mod number;
pub mod number_like;
pub mod on_i128;
pub mod on_i16;
pub mod on_i32;
pub mod on_i64;
pub mod on_i8;
pub mod on_isize;
pub mod on_u128;
pub mod on_u16;
pub mod on_u32;
pub mod on_u64;
pub mod on_u8;
pub mod on_usize;
pub mod pattern;
pub mod radix;
pub mod signed;
pub mod unsigned;
pub mod value;
pub mod wide;

pub use float::Float;
pub use float32::F32;
pub use float64::F64;
pub use format::FloatFormat;
pub use integer::Integer;
pub use number::Number;
pub use number_like::NumberLike;
pub use pattern::BitPattern;
pub use signed::Signed;
pub use unsigned::Unsigned;
pub use value::IntegerValue;
