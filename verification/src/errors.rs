//! The two error signals of the marshaling layer.
//!
//! Both are bare categories without context: callers map them to richer
//! diagnostics, and the core stays free of allocation.

use vstd::prelude::*;

verus! {

/// The destination buffer cannot hold the encoded value.
#[derive(Clone, Copy, Debug, PartialEq, Eq, Structural)]
pub struct MarshalError;

/// Why a value could not be decoded.
#[derive(Clone, Copy, Debug, PartialEq, Eq, Structural)]
pub enum UnmarshalError {
    /// Fewer bytes remain than the next fixed-size read needs.
    BufferTooShort,
    /// The bytes are not a valid value of the type being decoded.
    InvalidValue,
    /// The selector of a tagged union names no known variant.
    UnknownSelector,
    /// The selector is known, but the active limits do not enable it.
    DisabledByLimits,
}

} // verus!
