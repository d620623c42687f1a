//! The hash map under the tile cache.

use crate::color::Rgba;
use vstd::prelude::*;

verus! {

/// Where a tile pixel lives: the sheet, and the pixel's linear coordinate
/// within the sheet.
pub type TileKey = (u32, u64);

/// A `hashbrown::HashMap` from tile keys to pixels.
///
/// The map's own type has an allocator parameter bound by a trait that
/// Verus does not know, so the map is kept behind this struct, and what it
/// holds is told by `stored`.
#[verifier::external_body]
pub struct TileStore {
    map: hashbrown::HashMap<TileKey, Rgba>,
}

/// The pixels that a store holds, by key.
pub uninterp spec fn stored(store: TileStore) -> Map<TileKey, Rgba>;

/// The content of a store that holds nothing.
pub open spec fn nothing_stored() -> Map<TileKey, Rgba> {
    Map::empty()
}

impl TileStore {
    /// `hashbrown::HashMap::new`: a map that holds nothing.
    #[verifier::external_body]
    pub(crate) fn new() -> (store: TileStore)
        ensures
            stored(store) == nothing_stored(),
    {
        TileStore { map: hashbrown::HashMap::new() }
    }

    /// `hashbrown::HashMap::insert`: afterwards the map holds `color` under
    /// `key`, whatever it held there before, and every other key as before.
    #[verifier::external_body]
    pub(crate) fn insert(&mut self, key: TileKey, color: Rgba)
        ensures
            stored(*final(self)) == stored(*old(self)).insert(key, color),
    {
        self.map.insert(key, color);
    }

    /// `hashbrown::HashMap::get`: the pixel held under `key`, if any.
    #[verifier::external_body]
    pub(crate) fn get(&self, key: TileKey) -> (r: Option<Rgba>)
        ensures
            r == (if stored(*self).contains_key(key) {
                Some(stored(*self)[key])
            } else {
                None
            }),
    {
        self.map.get(&key).copied()
    }

    /// `hashbrown::HashMap::try_reserve`: asks for room for `additional`
    /// more pixels. The map holds afterwards what it held before, whether or
    /// not the room could be had, which the result tells.
    #[verifier::external_body]
    pub(crate) fn try_reserve(&mut self, additional: usize) -> (r: bool)
        ensures
            stored(*final(self)) == stored(*old(self)),
    {
        self.map.try_reserve(additional).is_ok()
    }
}

} // verus!
