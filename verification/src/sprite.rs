//! Sprite records: their layout in the container and their pixel formats.

use crate::color::{palette_color, palette_entry, Rgba};
use crate::error::DecodeError;
use crate::le::{le_i32_at, le_u32_at, take_i32_le, take_u32_le, take_u8};
use encoding_rs::SHIFT_JIS;
use vstd::prelude::*;
use vstd::slice::slice_subrange;

verus! {

/// The number of bytes of a record's name field.
pub const NAME_SIZE: usize = 32;

/// The number of bytes of a record's fixed fields: the name, the type and
/// nine 32-bit numbers.
pub const RECORD_HEADER_SIZE: usize = 72;

/// The number of bytes of a local palette.
pub const LOCAL_PALETTE_SIZE: usize = 1024;

/// One sprite record of a container.
///
/// `values` is the sprite's raw value stream and `cpal` its local palette;
/// both borrow from the container. A sprite without a local palette has an
/// empty `cpal`, and one without a solid color has `r`, `g`, `b` and `a` at
/// zero.
pub struct Sprite<'a> {
    pub index: u32,
    pub filename: String,
    pub type_id: i32,
    pub bounds_x1: u32,
    pub bounds_x2: u32,
    pub bounds_y1: u32,
    pub bounds_y2: u32,
    pub width: u32,
    pub height: u32,
    pub bpp: u32,
    pub align_start: u32,
    pub align_len: u32,
    pub r: u8,
    pub g: u8,
    pub b: u8,
    pub a: u8,
    pub values: &'a [u8],
    pub cpal: &'a [u8],
}

/// A sprite record as a mathematical value.
pub struct SpriteView {
    pub index: u32,
    pub filename: Seq<char>,
    pub type_id: i32,
    pub bounds_x1: u32,
    pub bounds_x2: u32,
    pub bounds_y1: u32,
    pub bounds_y2: u32,
    pub width: u32,
    pub height: u32,
    pub bpp: u32,
    pub align_start: u32,
    pub align_len: u32,
    pub r: u8,
    pub g: u8,
    pub b: u8,
    pub a: u8,
    pub values: Seq<u8>,
    pub cpal: Seq<u8>,
}

impl<'a> View for Sprite<'a> {
    type V = SpriteView;

    open spec fn view(&self) -> SpriteView {
        SpriteView {
            index: self.index,
            filename: self.filename@,
            type_id: self.type_id,
            bounds_x1: self.bounds_x1,
            bounds_x2: self.bounds_x2,
            bounds_y1: self.bounds_y1,
            bounds_y2: self.bounds_y2,
            width: self.width,
            height: self.height,
            bpp: self.bpp,
            align_start: self.align_start,
            align_len: self.align_len,
            r: self.r,
            g: self.g,
            b: self.b,
            a: self.a,
            values: self.values@,
            cpal: self.cpal@,
        }
    }
}

/// The text that `encoding_rs` decodes from `bytes` read as Shift-JIS.
pub uninterp spec fn shift_jis_text(bytes: Seq<u8>) -> Seq<char>;

/// `encoding_rs::Encoding::decode` on `SHIFT_JIS`: the text of `bytes`, which
/// depends on the bytes alone. The call sniffs for a byte order mark and
/// replaces malformed sequences; with at most 32 bytes its buffer size
/// cannot overflow.
#[verifier::external_body]
fn decode_shift_jis(bytes: &[u8]) -> (text: String)
    requires
        bytes@.len() <= 32,
    ensures
        text@ == shift_jis_text(bytes@),
{
    SHIFT_JIS.decode(bytes).0.into_owned()
}

/// The first index at or after `from` at which `field` holds a zero byte,
/// or the length of `field` where it holds none.
pub open spec fn name_end(field: Seq<u8>, from: int) -> int
    decreases field.len() - from,
{
    if from < 0 || from >= field.len() || field[from] == 0 {
        from
    } else {
        name_end(field, from + 1)
    }
}

/// The bytes of a record's name: its name field up to the first zero byte.
pub open spec fn name_bytes(data: Seq<u8>) -> Seq<u8> {
    data.subrange(0, name_end(data.subrange(0, NAME_SIZE as int), 0))
}

/// The number of bytes that a sprite of the given type holds between its
/// fixed fields and its value stream: a local palette for types 2 and 4, a
/// solid color for type 3.
pub open spec fn extra_len(type_id: int) -> int {
    if type_id == 2 || type_id == 4 {
        LOCAL_PALETTE_SIZE as int
    } else if type_id == 3 {
        4
    } else {
        0
    }
}

/// The length of the value stream of a sprite of the given type and size.
/// It is negative for a sprite of another type than 1 to 4 with fewer than
/// 72 pixels, which no record can hold.
pub open spec fn values_len(type_id: int, width: int, height: int) -> int {
    if type_id == 1 {
        width * height * 4
    } else if type_id == 2 || type_id == 3 {
        width * height
    } else if type_id == 4 {
        width * height * 2
    } else {
        width * height - 72
    }
}

/// Whether `data` holds a whole sprite record from its first byte on: the
/// fixed fields, and the palette or color and the value stream that the
/// fields declare.
pub open spec fn record_fits(data: Seq<u8>) -> bool {
    &&& data.len() >= RECORD_HEADER_SIZE
    &&& values_len(le_i32_at(data, 32), le_u32_at(data, 36), le_u32_at(data, 40)) >= 0
    &&& RECORD_HEADER_SIZE + extra_len(le_i32_at(data, 32)) + values_len(
        le_i32_at(data, 32),
        le_u32_at(data, 36),
        le_u32_at(data, 40),
    ) <= data.len()
}

/// The sprite that the record at the start of `data` describes, under the
/// identity `index` and the name `filename`.
pub open spec fn record(data: Seq<u8>, index: usize, filename: Seq<char>) -> SpriteView
    recommends
        record_fits(data),
{
    let type_id = le_i32_at(data, 32);
    let width = le_u32_at(data, 36);
    let height = le_u32_at(data, 40);
    let values_at = RECORD_HEADER_SIZE + extra_len(type_id);
    SpriteView {
        index: index as u32,
        filename,
        type_id: type_id as i32,
        width: width as u32,
        height: height as u32,
        bpp: le_u32_at(data, 44) as u32,
        bounds_x1: le_u32_at(data, 48) as u32,
        bounds_y1: le_u32_at(data, 52) as u32,
        bounds_x2: le_u32_at(data, 56) as u32,
        bounds_y2: le_u32_at(data, 60) as u32,
        align_start: le_u32_at(data, 64) as u32,
        align_len: le_u32_at(data, 68) as u32,
        r: if type_id == 3 { data[72] } else { 0 },
        g: if type_id == 3 { data[73] } else { 0 },
        b: if type_id == 3 { data[74] } else { 0 },
        a: if type_id == 3 { data[75] } else { 0 },
        values: data.subrange(values_at, values_at + values_len(type_id, width, height)),
        cpal: if type_id == 2 || type_id == 4 {
            data.subrange(RECORD_HEADER_SIZE as int, RECORD_HEADER_SIZE + LOCAL_PALETTE_SIZE)
        } else {
            Seq::empty()
        },
    }
}

/// The number of stream bytes that one pixel of the sprite takes: four for
/// raw BGRA quads, one for every format that goes through a palette or a
/// solid color.
pub open spec fn stride(s: SpriteView) -> int {
    if s.bpp != 8 && s.type_id == 1 {
        4
    } else {
        1
    }
}

/// The color of the pixel whose bytes start at `j` in the sprite's value
/// stream.
///
/// A sprite of eight bits per pixel goes through the global palette `pal`,
/// whatever its type. Otherwise type 1 reads blue, green, red and alpha,
/// types 2 and 4 go through the local palette, type 3 takes its alpha from
/// the stream and its color from the sprite, and any other type is
/// unsupported. A pixel or palette entry that ends outside its bytes is a
/// format error.
pub open spec fn color_at(s: SpriteView, pal: Seq<u8>, j: int) -> Result<Rgba, DecodeError> {
    if s.bpp != 8 && !(1 <= s.type_id <= 4) {
        Err(DecodeError::UnsupportedVariant)
    } else if !(0 <= j && j + stride(s) <= s.values.len()) {
        Err(DecodeError::Format)
    } else if s.bpp == 8 {
        match palette_entry(pal, s.values[j] as int) {
            Some(color) => Ok(color),
            None => Err(DecodeError::Format),
        }
    } else if s.type_id == 1 {
        Ok(Rgba { r: s.values[j + 2], g: s.values[j + 1], b: s.values[j], a: s.values[j + 3] })
    } else if s.type_id == 3 {
        Ok(Rgba { r: s.r, g: s.g, b: s.b, a: s.values[j] })
    } else {
        match palette_entry(s.cpal, s.values[j] as int) {
            Some(color) => Ok(color),
            None => Err(DecodeError::Format),
        }
    }
}

/// A sprite of eight bits per pixel resolves a pixel of value `v` to entry
/// `v` of the global palette with full opacity, whatever the sprite's type
/// and whatever the entry's fourth byte holds.
pub proof fn lemma_eight_bits_use_global_palette(s: SpriteView, pal: Seq<u8>, j: int)
    requires
        s.bpp == 8,
        0 <= j < s.values.len(),
        4 * s.values[j] + 3 <= pal.len(),
    ensures
        stride(s) == 1,
        color_at(s, pal, j) == Ok::<Rgba, DecodeError>(
            Rgba {
                r: pal[4 * s.values[j]],
                g: pal[4 * s.values[j] + 1],
                b: pal[4 * s.values[j] + 2],
                a: 255,
            },
        ),
{
}

proof fn lemma_le_in_suffix(data: Seq<u8>, from: int, at: int)
    requires
        0 <= from,
        0 <= at,
        from + at + 4 <= data.len(),
    ensures
        le_u32_at(data.subrange(from, data.len() as int), at) == le_u32_at(data, from + at),
        le_i32_at(data.subrange(from, data.len() as int), at) == le_i32_at(data, from + at),
        0 <= le_u32_at(data, from + at) <= u32::MAX,
        i32::MIN <= le_i32_at(data, from + at) <= i32::MAX,
{
}

impl<'a> Sprite<'a> {
    /// Decodes the sprite record at the start of `data`, which is the
    /// container from the record's offset `index` on.
    ///
    /// The name is the record's name field up to its first zero byte, read
    /// as Shift-JIS. The result is `Format` exactly where `data` does not
    /// hold the whole record.
    pub fn new(data: &'a [u8], index: usize) -> (r: Result<Sprite<'a>, DecodeError>)
        ensures
            match r {
                Ok(s) => record_fits(data@) && s@ == record(
                    data@,
                    index,
                    shift_jis_text(name_bytes(data@)),
                ),
                Err(e) => e == DecodeError::Format && !record_fits(data@),
            },
    {
        if data.len() < RECORD_HEADER_SIZE {
            return Err(DecodeError::Format);
        }
        let field = slice_subrange(data, 0, NAME_SIZE);
        let mut end: usize = 0;
        while end < NAME_SIZE && field[end] != 0
            invariant
                end <= NAME_SIZE,
                field@.len() == NAME_SIZE,
                name_end(field@, 0) == name_end(field@, end as int),
            decreases NAME_SIZE - end,
        {
            end += 1;
        }
        let name = slice_subrange(data, 0, end);
        let filename = decode_shift_jis(name);
        Sprite::with_name(filename, data, index)
    }

    /// Decodes the sprite record at the start of `data` under a name that
    /// has been decoded already.
    ///
    /// The fields follow the name in a fixed order, little-endian: the
    /// type, then width, height and bits per pixel, the bounding box as x1,
    /// y1, x2, y2, and the start and length of the sprite's alignment
    /// entries. Then come what the type calls for: a local palette or a
    /// solid color, and the value stream. The result is `Format` exactly
    /// where `data` does not hold all of it.
    pub fn with_name(filename: String, data: &'a [u8], index: usize) -> (r: Result<
        Sprite<'a>,
        DecodeError,
    >)
        ensures
            match r {
                Ok(s) => record_fits(data@) && s@ == record(data@, index, filename@),
                Err(e) => e == DecodeError::Format && !record_fits(data@),
            },
    {
        if data.len() < RECORD_HEADER_SIZE {
            return Err(DecodeError::Format);
        }
        let fields = slice_subrange(data, NAME_SIZE, data.len());
        let (type_id, rest) = take_i32_le(fields);
        let (width, rest) = take_u32_le(rest);
        let (height, rest) = take_u32_le(rest);
        let (bpp, rest) = take_u32_le(rest);
        let (bounds_x1, rest) = take_u32_le(rest);
        let (bounds_y1, rest) = take_u32_le(rest);
        let (bounds_x2, rest) = take_u32_le(rest);
        let (bounds_y2, rest) = take_u32_le(rest);
        let (align_start, rest) = take_u32_le(rest);
        let (align_len, payload) = take_u32_le(rest);
        proof {
            lemma_le_in_suffix(data@, 32, 0);
            lemma_le_in_suffix(data@, 36, 0);
            lemma_le_in_suffix(data@, 40, 0);
            lemma_le_in_suffix(data@, 44, 0);
            lemma_le_in_suffix(data@, 48, 0);
            lemma_le_in_suffix(data@, 52, 0);
            lemma_le_in_suffix(data@, 56, 0);
            lemma_le_in_suffix(data@, 60, 0);
            lemma_le_in_suffix(data@, 64, 0);
            lemma_le_in_suffix(data@, 68, 0);
            assert(payload@ =~= data@.subrange(72, data@.len() as int));
        }
        assert(width * height <= 0xFFFF_FFFF * 0xFFFF_FFFF) by (nonlinear_arith)
            requires
                width <= 0xFFFF_FFFF,
                height <= 0xFFFF_FFFF,
        ;
        let pixels: u128 = (width as u128) * (height as u128);
        let room: u128 = payload.len() as u128;
        let mut r: u8 = 0;
        let mut g: u8 = 0;
        let mut b: u8 = 0;
        let mut a: u8 = 0;
        let mut cpal: &'a [u8] = slice_subrange(data, 0, 0);
        let values: &'a [u8];
        if type_id == 1 {
            if pixels * 4 > room {
                return Err(DecodeError::Format);
            }
            values = slice_subrange(payload, 0, (pixels * 4) as usize);
        } else if type_id == 2 || type_id == 4 {
            let per_pixel: u128 = if type_id == 2 { 1 } else { 2 };
            if LOCAL_PALETTE_SIZE as u128 + pixels * per_pixel > room {
                return Err(DecodeError::Format);
            }
            cpal = slice_subrange(payload, 0, LOCAL_PALETTE_SIZE);
            values = slice_subrange(
                payload,
                LOCAL_PALETTE_SIZE,
                LOCAL_PALETTE_SIZE + (pixels * per_pixel) as usize,
            );
        } else if type_id == 3 {
            if 4 + pixels > room {
                return Err(DecodeError::Format);
            }
            let (r0, rest) = take_u8(payload);
            let (g0, rest) = take_u8(rest);
            let (b0, rest) = take_u8(rest);
            let (a0, rest) = take_u8(rest);
            r = r0;
            g = g0;
            b = b0;
            a = a0;
            values = slice_subrange(rest, 0, pixels as usize);
        } else {
            if pixels < 72 || pixels - 72 > room {
                return Err(DecodeError::Format);
            }
            values = slice_subrange(payload, 0, (pixels - 72) as usize);
        }
        let sprite = Sprite {
            index: #[verifier::truncate] (index as u32),
            filename,
            type_id,
            bounds_x1,
            bounds_x2,
            bounds_y1,
            bounds_y2,
            width,
            height,
            bpp,
            align_start,
            align_len,
            r,
            g,
            b,
            a,
            values,
            cpal,
        };
        proof {
            let want = record(data@, index, sprite.filename@);
            assert(sprite@.values =~= want.values);
            assert(sprite@.cpal =~= want.cpal);
            assert(sprite@ == want);
        }
        Ok(sprite)
    }

    /// Resolves the color of the pixel at the cursor `dval_index` of the
    /// value stream and moves the cursor past the bytes that the pixel
    /// took. Where it fails the cursor stays.
    pub fn next_color(&self, pal: &[u8], dval_index: &mut usize) -> (r: Result<Rgba, DecodeError>)
        ensures
            r == color_at(self@, pal@, *old(dval_index) as int),
            r is Ok ==> *final(dval_index) == *old(dval_index) + stride(self@),
            r is Err ==> *final(dval_index) == *old(dval_index),
    {
        let j: usize = *dval_index;
        if self.bpp != 8 && !(1 <= self.type_id && self.type_id <= 4) {
            return Err(DecodeError::UnsupportedVariant);
        }
        let step: usize = if self.bpp != 8 && self.type_id == 1 { 4 } else { 1 };
        if self.values.len() < step || j > self.values.len() - step {
            return Err(DecodeError::Format);
        }
        let dval: u8 = self.values[j];
        let found = if self.bpp == 8 {
            palette_color(pal, dval)
        } else if self.type_id == 1 {
            Some(
                Rgba {
                    r: self.values[j + 2],
                    g: self.values[j + 1],
                    b: dval,
                    a: self.values[j + 3],
                },
            )
        } else if self.type_id == 3 {
            Some(Rgba { r: self.r, g: self.g, b: self.b, a: dval })
        } else {
            palette_color(self.cpal, dval)
        };
        match found {
            Some(color) => {
                *dval_index = j + step;
                Ok(color)
            },
            None => Err(DecodeError::Format),
        }
    }
}

} // verus!
