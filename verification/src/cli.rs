//! The selectors that a command line hands to the decoder.

use vstd::prelude::*;

verus! {

/// What to do with the path given on the command line.
#[derive(Debug, Clone, Copy, PartialEq, Eq, Structural)]
pub enum Operation {
    /// Decode a container into images and sidecar files.
    Dump,
    /// Build a container from images.
    Pack,
}

/// A hint for the width of a tile, in pixels.
#[derive(Debug, Clone, Copy, PartialEq, Eq, Structural)]
pub enum TileWidth {
    /// Tiles of 16 pixels.
    P16,
    /// Tiles of 32 pixels.
    P32,
}

} // verus!
