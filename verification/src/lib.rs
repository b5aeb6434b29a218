//! Capabilities of the primitive types, stated once and proved for each
//! type.
//!
//! Generic code asks for a capability and gets, with it, a contract that
//! holds of every type that has it:
//!
//! - [`num`] holds the numbers: what every scalar has, what the integers
//!   and the floats add, and the bridge from a scalar to its bit pattern
//!   and its bytes;
//! - [`array`] and [`tuple`] hold the containers of fixed length and the
//!   bridge between a tuple of one element type and an array;
//! - [`slice`] and [`reference`] hold the slices and the references;
//! - [`laws`] holds what follows for every type from the contracts;
//! - [`entry`], [`stability`], [`tally`] and [`listing`] read the index of a
//!   documented crate: the stability that the attributes of an entry
//!   state, the number of entries of each stability, and the functions of
//!   a primitive type.

pub mod array;
pub mod entry;
pub mod laws;
pub mod listing;
pub mod num;
pub mod primitive;
pub mod reference;
pub mod slice;
pub mod stability;
pub mod tally;
pub mod tuple;
