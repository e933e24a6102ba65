//! Error kinds shared by pool dereferencing and field resolution.
//!
//! Every failure is a deterministic structural fault in the input and is
//! fatal to the enclosing class load; there is no retry or recovery.

use vstd::prelude::*;

verus! {

/// A structural fault found while classifying tags, dereferencing the
/// constant pool, or resolving a field record.
#[derive(Copy, Clone, Debug, PartialEq, Eq, Structural)]
pub enum LoadError {
    /// The byte is outside the defined tag set (including the reserved gaps).
    UnknownTag(u8),
    /// A pool index is zero, out of range, or lands on the reserved second
    /// slot of a double-width entry.
    InvalidConstantPoolIndex,
    /// A dereferenced pool slot holds a different kind than the caller
    /// expected.
    ConstantPoolTagMismatch,
    /// A field descriptor string does not match the descriptor grammar.
    MalformedDescriptor,
    /// A field's access-flag bits hold a contradictory combination.
    IllegalAccessFlags,
}

} // verus!
