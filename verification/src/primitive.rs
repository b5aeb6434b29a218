//! The marker shared by every primitive type.

use vstd::prelude::*;

verus! {

/// A type that is built into the language: a scalar, an array, a slice, a
/// tuple or a reference.
pub trait Primitive {}

} // verus!
