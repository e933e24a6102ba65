//! A verified core for the binary constant pool of a class-file format and
//! the resolution of raw, index-based pool records into typed runtime values.
//!
//! The crate models the closed tag space of pool entries, the per-tag binary
//! record layouts, the 1-indexed pool table with its double-width-slot quirk
//! for 8-byte constants, the dereferencing of cross-reference indices, the
//! field-descriptor grammar, and the resolution of raw field records into
//! validated field entries.

pub mod constant_pool;
pub mod descriptor;
pub mod error;
pub mod field;
