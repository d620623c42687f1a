//! What painting a sprite means: the state that the painter walks through,
//! cell by cell and entry by entry, as a mathematical value.

use crate::align::{table_entry, Align};
use crate::canvas::{canvas_fits, pixel_index};
use crate::color::{palette_entry, Rgba};
use crate::error::{DecodeError, Failure};
use crate::sprite::{color_at, stride, SpriteView, LOCAL_PALETTE_SIZE};
use crate::store::TileKey;
use crate::tilemap::{alpha_written, tile_key};
use vstd::prelude::*;

verus! {

/// The state of the painter: the canvas, the two maps of the tile cache,
/// the cursor into the sprite's value stream, and the failure that stopped
/// the painter, if one did.
pub struct Paint {
    pub pixels: Seq<Rgba>,
    pub colors: Map<TileKey, Rgba>,
    pub alphas: Map<TileKey, Rgba>,
    pub cursor: int,
    pub failure: Option<DecodeError>,
}

/// The ways in which the cells of a block are walked.
#[derive(Debug, Clone, Copy, PartialEq, Eq, Structural)]
pub enum Pass {
    /// Decode each cell from the value stream, to the cache and the canvas.
    Fresh,
    /// Copy each cell from the cache to the canvas.
    Backref,
    /// Read one alpha for each cell from the value stream, to the alpha
    /// overlay and the canvas.
    Alpha,
}

/// The state `p` stopped by `failure`.
pub open spec fn failed(p: Paint, failure: DecodeError) -> Paint {
    Paint { failure: Some(failure), ..p }
}

/// The number of cells of an entry's block.
pub open spec fn block_len(a: Align) -> int {
    a.width * a.height
}

/// The column of cell `e` within its block. Cells are counted row by row.
pub open spec fn column(a: Align, e: int) -> int {
    e % (a.width as int)
}

/// The row of cell `e` within its block.
pub open spec fn row(a: Align, e: int) -> int {
    e / (a.width as int)
}

/// The cache key of cell `e` of an entry: the entry's sheet and source
/// corner, moved by the cell's column and row. `None` where a coordinate
/// leaves the range of 32 bits.
pub open spec fn source_key(a: Align, e: int) -> Option<TileKey> {
    let x = a.source_x + column(a, e);
    let y = a.source_y + row(a, e);
    if x <= u32::MAX && y <= u32::MAX {
        Some(tile_key(a.source_img, x as u32, y as u32))
    } else {
        None
    }
}

/// The place on the sprite's canvas of cell `e` of an entry: the entry's
/// corner, moved by the cell's column and row. `None` where that lies
/// outside the canvas.
pub open spec fn target(s: SpriteView, a: Align, e: int) -> Option<int> {
    pixel_index(s.width, s.height, a.x + column(a, e), a.y + row(a, e))
}

/// Cell `e` of a fresh entry: the color at the cursor goes to the cache
/// under the cell's key, the cursor moves past it, and the color goes to
/// the canvas.
pub open spec fn fresh_cell(p: Paint, s: SpriteView, pal: Seq<u8>, a: Align, e: int) -> Paint {
    match source_key(a, e) {
        None => failed(p, DecodeError::Format),
        Some(key) => match color_at(s, pal, p.cursor) {
            Err(failure) => failed(p, failure),
            Ok(color) => {
                let q = Paint {
                    colors: p.colors.insert(key, color),
                    cursor: p.cursor + stride(s),
                    ..p
                };
                match target(s, a, e) {
                    None => failed(q, DecodeError::Format),
                    Some(i) => Paint { pixels: q.pixels.update(i, color), ..q },
                }
            },
        },
    }
}

/// Cell `e` of a back-reference: the color that the cache holds under the
/// cell's key goes to the canvas. A key that the cache does not hold is a
/// cache miss. The cache and the cursor stay.
pub open spec fn backref_cell(p: Paint, s: SpriteView, a: Align, e: int) -> Paint {
    match source_key(a, e) {
        None => failed(p, DecodeError::Format),
        Some(key) => if !p.colors.contains_key(key) {
            failed(p, DecodeError::CacheMiss)
        } else {
            match target(s, a, e) {
                None => failed(p, DecodeError::Format),
                Some(i) => Paint { pixels: p.pixels.update(i, p.colors[key]), ..p },
            }
        },
    }
}

/// Cell `e` of the alpha pass: the byte at the cursor goes as alpha to the
/// alpha overlay under the cell's key and to the cell's pixel on the
/// canvas, and the cursor moves past it.
pub open spec fn alpha_cell(p: Paint, s: SpriteView, a: Align, e: int) -> Paint {
    if !(0 <= p.cursor < s.values.len()) {
        failed(p, DecodeError::Format)
    } else {
        let alpha = s.values[p.cursor];
        match source_key(a, e) {
            None => failed(p, DecodeError::Format),
            Some(key) => {
                let q = Paint {
                    alphas: p.alphas.insert(key, alpha_written(p.alphas, key, alpha)),
                    ..p
                };
                match target(s, a, e) {
                    None => failed(q, DecodeError::Format),
                    Some(i) => Paint {
                        pixels: q.pixels.update(i, Rgba { a: alpha, ..q.pixels[i] }),
                        cursor: q.cursor + 1,
                        ..q
                    },
                }
            },
        }
    }
}

/// One cell of a pass. A painter that has failed stays as it is.
pub open spec fn paint_cell(
    pass: Pass,
    p: Paint,
    s: SpriteView,
    pal: Seq<u8>,
    a: Align,
    e: int,
) -> Paint {
    if p.failure is Some {
        p
    } else {
        match pass {
            Pass::Fresh => fresh_cell(p, s, pal, a, e),
            Pass::Backref => backref_cell(p, s, a, e),
            Pass::Alpha => alpha_cell(p, s, a, e),
        }
    }
}

/// The first `n` cells of a pass, in order.
pub open spec fn paint_cells(
    pass: Pass,
    p: Paint,
    s: SpriteView,
    pal: Seq<u8>,
    a: Align,
    n: nat,
) -> Paint
    decreases n,
{
    if n == 0 {
        p
    } else {
        paint_cell(pass, paint_cells(pass, p, s, pal, a, (n - 1) as nat), s, pal, a, n - 1)
    }
}

/// One alignment entry. A back-reference copies its block from the cache.
/// A fresh entry decodes its block, and where the sprite is of type 4 it
/// then walks the block a second time for the alpha.
pub open spec fn paint_entry(p: Paint, s: SpriteView, pal: Seq<u8>, a: Align) -> Paint {
    if a.backref {
        paint_cells(Pass::Backref, p, s, pal, a, block_len(a) as nat)
    } else {
        let q = paint_cells(Pass::Fresh, p, s, pal, a, block_len(a) as nat);
        if s.type_id == 4 {
            paint_cells(Pass::Alpha, q, s, pal, a, block_len(a) as nat)
        } else {
            q
        }
    }
}

/// The first `k` alignment entries of a sprite, in the order of the table.
/// An entry that the table does not hold is a format error.
pub open spec fn paint_entries(
    p: Paint,
    s: SpriteView,
    table: Seq<u8>,
    pal: Seq<u8>,
    k: nat,
) -> Paint
    decreases k,
{
    if k == 0 {
        p
    } else {
        let q = paint_entries(p, s, table, pal, (k - 1) as nat);
        if q.failure is Some {
            q
        } else {
            match table_entry(table, s.align_start + k - 1) {
                None => failed(q, DecodeError::Format),
                Some(a) => paint_entry(q, s, pal, a),
            }
        }
    }
}

/// The number of the entry at which painting the first `k` entries failed,
/// or `None` where it did not fail or had failed before the first entry.
pub open spec fn failing_entry(
    p: Paint,
    s: SpriteView,
    table: Seq<u8>,
    pal: Seq<u8>,
    k: nat,
) -> Option<int>
    decreases k,
{
    if k == 0 {
        None
    } else if paint_entries(p, s, table, pal, (k - 1) as nat).failure is Some {
        failing_entry(p, s, table, pal, (k - 1) as nat)
    } else if paint_entries(p, s, table, pal, k).failure is Some {
        Some(k - 1)
    } else {
        None
    }
}

/// The color that the canvas of a sprite holds before anything is painted:
/// the first color of the global palette for a sprite of type 0, else
/// transparent black. `None` where the palette is too short to hold its
/// first color.
pub open spec fn background(s: SpriteView, pal: Seq<u8>) -> Option<Rgba> {
    if s.type_id == 0 {
        palette_entry(pal, 0)
    } else {
        Some(Rgba { r: 0, g: 0, b: 0, a: 0 })
    }
}

/// The painter of a sprite before its first entry, over a cache that holds
/// `colors` and `alphas`. A canvas that cannot be held in memory, or whose
/// pixels have no background, is a format error.
pub open spec fn blank(
    s: SpriteView,
    pal: Seq<u8>,
    colors: Map<TileKey, Rgba>,
    alphas: Map<TileKey, Rgba>,
) -> Paint {
    let p = Paint { pixels: Seq::empty(), colors, alphas, cursor: 0, failure: None };
    if !canvas_fits(s.width, s.height) {
        failed(p, DecodeError::Format)
    } else if s.width * s.height == 0 {
        p
    } else {
        match background(s, pal) {
            None => failed(p, DecodeError::Format),
            Some(fill) => Paint {
                pixels: Seq::new((s.width * s.height) as nat, |i: int| fill),
                ..p
            },
        }
    }
}

/// Whether a sprite carries a local palette of the wrong size.
pub open spec fn palette_malformed(s: SpriteView) -> bool {
    (s.type_id == 2 || s.type_id == 4) && s.cpal.len() != LOCAL_PALETTE_SIZE
}

/// A sprite painted in full over a cache that holds `colors` and `alphas`:
/// the blank canvas, then all the sprite's entries, then the check that a
/// local palette, where the type has one, is of 1024 bytes.
pub open spec fn drawn(
    s: SpriteView,
    table: Seq<u8>,
    pal: Seq<u8>,
    colors: Map<TileKey, Rgba>,
    alphas: Map<TileKey, Rgba>,
) -> Paint {
    let p = paint_entries(blank(s, pal, colors, alphas), s, table, pal, s.align_len as nat);
    if p.failure is None && palette_malformed(s) {
        failed(p, DecodeError::Format)
    } else {
        p
    }
}

/// Why and where painting a sprite over a cache that holds `colors` and
/// `alphas` fails, or `None` where it does not: the kind of the failure,
/// the offset of the sprite's record, and the number of the entry that
/// failed where one did.
pub open spec fn draw_failure(
    s: SpriteView,
    table: Seq<u8>,
    pal: Seq<u8>,
    colors: Map<TileKey, Rgba>,
    alphas: Map<TileKey, Rgba>,
) -> Option<Failure> {
    match drawn(s, table, pal, colors, alphas).failure {
        None => None,
        Some(kind) => Some(
            Failure {
                kind,
                sprite: None,
                offset: Some(s.index),
                entry: match failing_entry(
                    blank(s, pal, colors, alphas),
                    s,
                    table,
                    pal,
                    s.align_len as nat,
                ) {
                    Some(i) => Some(i as u32),
                    None => None,
                },
            },
        ),
    }
}

/// A painter that has failed after `m` cells is the same after any more.
pub proof fn lemma_cells_stay_failed(
    pass: Pass,
    p: Paint,
    s: SpriteView,
    pal: Seq<u8>,
    a: Align,
    m: nat,
    n: nat,
)
    requires
        m <= n,
        paint_cells(pass, p, s, pal, a, m).failure is Some,
    ensures
        paint_cells(pass, p, s, pal, a, n) == paint_cells(pass, p, s, pal, a, m),
    decreases n - m,
{
    if m < n {
        lemma_cells_stay_failed(pass, p, s, pal, a, m, (n - 1) as nat);
    }
}

/// A painter that has failed after `m` entries is the same after any more,
/// and the entry at which it failed is the same.
pub proof fn lemma_entries_stay_failed(
    p: Paint,
    s: SpriteView,
    table: Seq<u8>,
    pal: Seq<u8>,
    m: nat,
    n: nat,
)
    requires
        m <= n,
        paint_entries(p, s, table, pal, m).failure is Some,
    ensures
        paint_entries(p, s, table, pal, n) == paint_entries(p, s, table, pal, m),
        failing_entry(p, s, table, pal, n) == failing_entry(p, s, table, pal, m),
    decreases n - m,
{
    if m < n {
        lemma_entries_stay_failed(p, s, table, pal, m, (n - 1) as nat);
    }
}

/// A painter that has not failed after `n` entries has failed at none.
pub proof fn lemma_no_failing_entry(
    p: Paint,
    s: SpriteView,
    table: Seq<u8>,
    pal: Seq<u8>,
    n: nat,
)
    requires
        paint_entries(p, s, table, pal, n).failure is None,
    ensures
        failing_entry(p, s, table, pal, n) is None,
    decreases n,
{
    if n > 0 {
        if paint_entries(p, s, table, pal, (n - 1) as nat).failure is Some {
            lemma_entries_stay_failed(p, s, table, pal, (n - 1) as nat, n);
        }
    }
}

} // verus!
