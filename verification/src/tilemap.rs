//! The tile cache that the sprites of one container share.

use crate::color::Rgba;
use crate::error::DecodeError;
use crate::store::{nothing_stored, stored, TileKey, TileStore};
use vstd::prelude::*;

verus! {

/// The number of pixels in one row of a cache sheet. It belongs to the
/// format and is the same for every sprite, whatever its width.
pub const TILE_STRIDE: u64 = 256;

/// The linear coordinate of the tile pixel at column `x` of row `y`.
pub open spec fn linear_coordinate(x: int, y: int) -> int {
    x + y * 256
}

/// The key under which the cache holds the pixel at (`x`, `y`) of a sheet.
pub open spec fn tile_key(sheet: u32, x: u32, y: u32) -> TileKey {
    (sheet, linear_coordinate(x as int, y as int) as u64)
}

/// What an alpha overlay holds under `key` once alpha `a` has been written
/// there: the color it held with the new alpha, or black with that alpha
/// where it held nothing.
pub open spec fn alpha_written(alphas: Map<TileKey, Rgba>, key: TileKey, a: u8) -> Rgba {
    if alphas.contains_key(key) {
        Rgba { a, ..alphas[key] }
    } else {
        Rgba { r: 0, g: 0, b: 0, a }
    }
}

/// The cache of decoded tile pixels, kept for the whole of one container.
///
/// It holds two maps that are addressed alike and never cleared: the colors
/// that fresh alignment entries wrote, which back-references read, and the
/// alpha overlay of the sprites that paint their alpha in a second pass.
pub struct TileMap {
    pub tiles: TileStore,
    pub alphatiles: TileStore,
    pub num_sheets: u32,
    pub num_aligns: u32,
    pub tile_width: u32,
}

impl TileMap {
    /// The colors in the cache, by key.
    pub open spec fn colors(&self) -> Map<TileKey, Rgba> {
        stored(self.tiles)
    }

    /// The alpha overlay in the cache, by key.
    pub open spec fn alphas(&self) -> Map<TileKey, Rgba> {
        stored(self.alphatiles)
    }

    /// Whether `other` differs from this cache in its two maps at most.
    pub open spec fn same_header(&self, other: &TileMap) -> bool {
        &&& self.num_sheets == other.num_sheets
        &&& self.num_aligns == other.num_aligns
        &&& self.tile_width == other.tile_width
    }

    /// An empty cache for a container of `num_sheets` sheets and
    /// `num_aligns` alignment entries.
    pub fn new(num_sheets: u32, num_aligns: u32, tile_width: u32) -> (tm: TileMap)
        ensures
            tm.colors() == nothing_stored(),
            tm.alphas() == nothing_stored(),
            tm.num_sheets == num_sheets,
            tm.num_aligns == num_aligns,
            tm.tile_width == tile_width,
    {
        TileMap {
            tiles: TileStore::new(),
            alphatiles: TileStore::new(),
            num_sheets,
            num_aligns,
            tile_width,
        }
    }

    /// Writes `color` at (`x`, `y`) of `sheet`, over whatever was there.
    pub fn set(&mut self, sheet: u32, x: u32, y: u32, color: Rgba)
        ensures
            final(self).colors() == old(self).colors().insert(tile_key(sheet, x, y), color),
            final(self).alphas() == old(self).alphas(),
            final(self).same_header(old(self)),
    {
        let key = (sheet, Self::coord_2_linear(x, y));
        self.tiles.insert(key, color);
    }

    /// Writes alpha `a` at (`x`, `y`) of `sheet` in the alpha overlay. A
    /// pixel that the overlay already holds keeps its color; one that it
    /// does not hold yet becomes black with that alpha.
    pub fn set_alpha(&mut self, sheet: u32, x: u32, y: u32, a: u8)
        ensures
            final(self).alphas() == old(self).alphas().insert(
                tile_key(sheet, x, y),
                alpha_written(old(self).alphas(), tile_key(sheet, x, y), a),
            ),
            final(self).colors() == old(self).colors(),
            final(self).same_header(old(self)),
    {
        let key = (sheet, Self::coord_2_linear(x, y));
        let pixel = match self.alphatiles.get(key) {
            Some(held) => held.with_alpha(a),
            None => Rgba { r: 0, g: 0, b: 0, a },
        };
        self.alphatiles.insert(key, pixel);
    }

    /// The color at (`x`, `y`) of `sheet`, or `CacheMiss` where nothing has
    /// been written there.
    pub fn get(&self, sheet: u32, x: u32, y: u32) -> (r: Result<Rgba, DecodeError>)
        ensures
            r == (if self.colors().contains_key(tile_key(sheet, x, y)) {
                Ok::<Rgba, DecodeError>(self.colors()[tile_key(sheet, x, y)])
            } else {
                Err(DecodeError::CacheMiss)
            }),
    {
        let key = (sheet, Self::coord_2_linear(x, y));
        match self.tiles.get(key) {
            Some(color) => Ok(color),
            None => Err(DecodeError::CacheMiss),
        }
    }

    /// The pixel at (`x`, `y`) of `sheet` in the alpha overlay, or `None`
    /// where no alpha has been written there.
    pub fn get_alpha(&self, sheet: u32, x: u32, y: u32) -> (r: Option<Rgba>)
        ensures
            r == (if self.alphas().contains_key(tile_key(sheet, x, y)) {
                Some(self.alphas()[tile_key(sheet, x, y)])
            } else {
                None
            }),
    {
        let key = (sheet, Self::coord_2_linear(x, y));
        self.alphatiles.get(key)
    }

    /// Asks both maps for room for `amount` more pixels. The cache holds
    /// afterwards what it held before.
    pub fn reserve(&mut self, amount: usize)
        ensures
            final(self).colors() == old(self).colors(),
            final(self).alphas() == old(self).alphas(),
            final(self).same_header(old(self)),
    {
        let _ = self.tiles.try_reserve(amount);
        let _ = self.alphatiles.try_reserve(amount);
    }

    fn coord_2_linear(x: u32, y: u32) -> (r: u64)
        ensures
            r == linear_coordinate(x as int, y as int),
    {
        x as u64 + (y as u64) * TILE_STRIDE
    }
}

/// What is read back from a coordinate is what was last written there:
/// after `color` has been written under `key`, then `other` under
/// `other_key`, the cache holds `color` under `key` unless the second write
/// went to the same key; and a key that was never written is absent.
pub proof fn lemma_last_write_wins(
    colors: Map<TileKey, Rgba>,
    key: TileKey,
    color: Rgba,
    other_key: TileKey,
    other: Rgba,
)
    ensures
        colors.insert(key, color).contains_key(key),
        colors.insert(key, color)[key] == color,
        other_key != key ==> colors.insert(key, color).insert(other_key, other)[key] == color,
        other_key == key ==> colors.insert(key, color).insert(other_key, other)[key] == other,
        !nothing_stored().contains_key(key),
{
}

} // verus!
