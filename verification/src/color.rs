//! Pixels and palettes.

use vstd::prelude::*;

verus! {

/// One pixel: red, green, blue and alpha, eight bits each.
#[derive(Debug, Clone, Copy, PartialEq, Eq, Structural)]
pub struct Rgba {
    pub r: u8,
    pub g: u8,
    pub b: u8,
    pub a: u8,
}

/// The number of bytes that a palette of 256 entries takes.
pub const PALETTE_SIZE: usize = 1024;

/// Entry `v` of a palette: its first three bytes as red, green and blue,
/// fully opaque whatever its fourth byte holds. `None` where the palette
/// ends before the entry's third byte.
pub open spec fn palette_entry(pal: Seq<u8>, v: int) -> Option<Rgba> {
    if 0 <= v && 4 * v + 3 <= pal.len() {
        Some(Rgba { r: pal[4 * v], g: pal[4 * v + 1], b: pal[4 * v + 2], a: 255 })
    } else {
        None
    }
}

/// Looks up entry `v` of a palette.
pub fn palette_color(pal: &[u8], v: u8) -> (r: Option<Rgba>)
    ensures
        r == palette_entry(pal@, v as int),
{
    let at: usize = (v as usize) * 4;
    if pal.len() >= 3 && at <= pal.len() - 3 {
        Some(Rgba { r: pal[at], g: pal[at + 1], b: pal[at + 2], a: 255 })
    } else {
        None
    }
}

impl Rgba {
    /// The transparent black that an untouched canvas holds.
    pub fn transparent() -> (r: Rgba)
        ensures
            r == (Rgba { r: 0, g: 0, b: 0, a: 0 }),
    {
        Rgba { r: 0, g: 0, b: 0, a: 0 }
    }

    /// The same color with another alpha.
    pub fn with_alpha(self, a: u8) -> (r: Rgba)
        ensures
            r == (Rgba { a, ..self }),
    {
        Rgba { r: self.r, g: self.g, b: self.b, a }
    }
}

} // verus!
