//! The ways in which decoding a container fails.

use vstd::prelude::*;

verus! {

/// Why a container, a sprite or an alignment entry could not be decoded.
#[derive(Debug, Clone, Copy, PartialEq, Eq, Structural)]
pub enum DecodeError {
    /// A header invariant is violated, or a declared region, coordinate or
    /// palette index lies outside the bytes that hold it.
    Format,
    /// A back-reference names a tile that no earlier entry has written.
    CacheMiss,
    /// The sprite's `type_id` selects no known pixel format.
    UnsupportedVariant,
}

/// A failure of decoding together with where it happened, as far as that
/// is known at the place that reports it.
#[derive(Debug, Clone, Copy, PartialEq, Eq, Structural)]
pub struct Failure {
    /// What went wrong.
    pub kind: DecodeError,
    /// The place in the offset table of the sprite that failed.
    pub sprite: Option<usize>,
    /// The offset in the container of the record of the sprite that failed.
    pub offset: Option<u32>,
    /// The number, among the failed sprite's alignment entries, of the entry
    /// that failed.
    pub entry: Option<u32>,
}

impl Failure {
    /// A failure of which only the kind is known.
    pub fn bare(kind: DecodeError) -> (f: Failure)
        ensures
            f == (Failure { kind, sprite: None, offset: None, entry: None }),
    {
        Failure { kind, sprite: None, offset: None, entry: None }
    }
}

impl DecodeError {
    /// A one-line description of the failure.
    pub fn message(&self) -> (s: String)
        ensures
            s@ == match *self {
                DecodeError::Format => "malformed container"@,
                DecodeError::CacheMiss => "back-reference to a tile that was never written"@,
                DecodeError::UnsupportedVariant => "unhandled type"@,
            },
    {
        match self {
            DecodeError::Format => "malformed container".to_string(),
            DecodeError::CacheMiss => "back-reference to a tile that was never written".to_string(),
            DecodeError::UnsupportedVariant => "unhandled type".to_string(),
        }
    }
}

} // verus!
