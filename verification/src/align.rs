//! Alignment entries: where a block of a sprite goes, and where its pixels
//! come from.

use crate::error::DecodeError;
use crate::le::{le_u16_at, le_u32_at, take_u16_le, take_u32_le};
use crate::sprite::Sprite;
use vstd::prelude::*;
use vstd::slice::slice_subrange;

verus! {

/// The number of bytes of one alignment entry.
pub const ALIGN_SIZE: usize = 24;

/// One placement instruction of a sprite.
///
/// The block of `width` by `height` pixels at (`x`, `y`) of the sprite's
/// canvas belongs to the tiles at (`source_x`, `source_y`) of the cache
/// sheet `source_img`. A fresh entry decodes the block from the sprite's
/// value stream and writes it to both; a back-reference copies it from the
/// cache to the canvas.
#[derive(Debug, Clone, Copy, PartialEq, Eq, Structural)]
pub struct Align {
    pub x: u32,
    pub y: u32,
    pub width: u32,
    pub height: u32,
    pub source_x: u32,
    pub source_y: u32,
    pub source_img: u32,
    pub backref: bool,
}

/// The entry that the 24 bytes of `table` from `at` on hold: four 32-bit
/// numbers for the block, three 16-bit numbers for its source and a 16-bit
/// flag that marks a back-reference where it is not zero.
pub open spec fn entry_at(table: Seq<u8>, at: int) -> Align {
    Align {
        x: le_u32_at(table, at) as u32,
        y: le_u32_at(table, at + 4) as u32,
        width: le_u32_at(table, at + 8) as u32,
        height: le_u32_at(table, at + 12) as u32,
        source_x: le_u16_at(table, at + 16) as u32,
        source_y: le_u16_at(table, at + 18) as u32,
        source_img: le_u16_at(table, at + 20) as u32,
        backref: le_u16_at(table, at + 22) != 0,
    }
}

/// Entry number `number` of an alignment table, or `None` where the table
/// ends before the entry does.
pub open spec fn table_entry(table: Seq<u8>, number: int) -> Option<Align> {
    if 0 <= number && (number + 1) * ALIGN_SIZE <= table.len() {
        Some(entry_at(table, number * ALIGN_SIZE))
    } else {
        None
    }
}

impl Align {
    /// Decodes entry `seq` of the entries of `sprite` from the alignment
    /// table `m_align`, that is entry `align_start + seq` of the table. The
    /// result is `Format` exactly where the table ends before the entry
    /// does.
    pub fn new(sprite: &Sprite, m_align: &[u8], seq: usize) -> (r: Result<Align, DecodeError>)
        ensures
            r == match table_entry(m_align@, sprite.align_start + seq) {
                Some(entry) => Ok::<Align, DecodeError>(entry),
                None => Err(DecodeError::Format),
            },
    {
        let count: usize = m_align.len() / ALIGN_SIZE;
        if seq >= count || sprite.align_start as usize >= count - seq {
            return Err(DecodeError::Format);
        }
        let data_start: usize = (sprite.align_start as usize + seq) * ALIGN_SIZE;
        let data = slice_subrange(m_align, data_start, data_start + ALIGN_SIZE);
        let (x, data) = take_u32_le(data);
        let (y, data) = take_u32_le(data);
        let (width, data) = take_u32_le(data);
        let (height, data) = take_u32_le(data);
        let (source_x, data) = take_u16_le(data);
        let (source_y, data) = take_u16_le(data);
        let (source_img, data) = take_u16_le(data);
        let (backref, _) = take_u16_le(data);
        Ok(
            Align {
                x,
                y,
                width,
                height,
                source_x: source_x as u32,
                source_y: source_y as u32,
                source_img: source_img as u32,
                backref: backref != 0,
            },
        )
    }
}

} // verus!
