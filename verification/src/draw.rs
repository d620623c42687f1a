//! The tile compositor: paints one sprite from its alignment entries.

use crate::align::Align;
use crate::canvas::Canvas;
use crate::color::{palette_color, Rgba};
use crate::error::{DecodeError, Failure};
use crate::paint::{
    blank, block_len, draw_failure, drawn, failed, failing_entry, lemma_cells_stay_failed,
    lemma_entries_stay_failed, lemma_no_failing_entry, paint_cell, paint_cells, paint_entries,
    paint_entry, Paint, Pass,
};
use crate::sprite::{Sprite, SpriteView, LOCAL_PALETTE_SIZE};
use crate::store::TileKey;
use crate::tilemap::TileMap;
use vstd::prelude::*;
use vstd::slice::slice_to_vec;

verus! {

/// A sprite that has been painted: its name, its canvas and the sidecars
/// that go with a sprite of its type.
pub struct DecodedSprite {
    /// The sprite's name, from which the names of its files are made.
    pub name: String,
    /// The painted canvas.
    pub canvas: Canvas,
    /// The local palette, for a sprite of type 2 or 4.
    pub local_palette: Option<Vec<u8>>,
    /// The marker of a local-palette sprite with alpha, for type 4.
    pub alpha_marker: Option<Vec<u8>>,
    /// The solid color as text, for type 3.
    pub solid_color: Option<Vec<u8>>,
}

/// A painted sprite as a mathematical value.
pub struct DecodedSpriteView {
    pub name: Seq<char>,
    pub width: u32,
    pub height: u32,
    pub pixels: Seq<Rgba>,
    pub local_palette: Option<Seq<u8>>,
    pub alpha_marker: Option<Seq<u8>>,
    pub solid_color: Option<Seq<u8>>,
}

/// The bytes that a sidecar holds, if there is one.
pub open spec fn sidecar_view(sidecar: Option<Vec<u8>>) -> Option<Seq<u8>> {
    match sidecar {
        Some(bytes) => Some(bytes@),
        None => None,
    }
}

impl View for DecodedSprite {
    type V = DecodedSpriteView;

    open spec fn view(&self) -> DecodedSpriteView {
        DecodedSpriteView {
            name: self.name@,
            width: self.canvas.width,
            height: self.canvas.height,
            pixels: self.canvas@,
            local_palette: sidecar_view(self.local_palette),
            alpha_marker: sidecar_view(self.alpha_marker),
            solid_color: sidecar_view(self.solid_color),
        }
    }
}

/// The content of the marker sidecar: the character `4`.
pub open spec fn alpha_marker_bytes() -> Seq<u8> {
    seq![0x34u8]
}

/// A number below 256 in decimal digits, without leading zeros.
pub open spec fn decimal(v: u8) -> Seq<u8> {
    if v >= 100 {
        seq![(48 + v / 100) as u8, (48 + (v / 10) % 10) as u8, (48 + v % 10) as u8]
    } else if v >= 10 {
        seq![(48 + v / 10) as u8, (48 + v % 10) as u8]
    } else {
        seq![(48 + v) as u8]
    }
}

/// The content of the solid-color sidecar: red, green and blue in decimal
/// with one space between them.
pub open spec fn solid_color_text(r: u8, g: u8, b: u8) -> Seq<u8> {
    decimal(r) + seq![0x20u8] + decimal(g) + seq![0x20u8] + decimal(b)
}

/// The painted sprite that comes of a sprite and its finished canvas: for
/// type 2 the local palette, for type 4 the local palette and the marker,
/// for type 3 the solid color as text, and no sidecar otherwise.
pub open spec fn decoded(s: SpriteView, pixels: Seq<Rgba>) -> DecodedSpriteView {
    DecodedSpriteView {
        name: s.filename,
        width: s.width,
        height: s.height,
        pixels,
        local_palette: if s.type_id == 2 || s.type_id == 4 {
            Some(s.cpal)
        } else {
            None
        },
        alpha_marker: if s.type_id == 4 {
            Some(alpha_marker_bytes())
        } else {
            None
        },
        solid_color: if s.type_id == 3 {
            Some(solid_color_text(s.r, s.g, s.b))
        } else {
            None
        },
    }
}

/// The painter's state over a canvas, a cache and a cursor as they stand.
pub open spec fn painter(pixels: Seq<Rgba>, tm: &TileMap, cursor: usize) -> Paint {
    Paint {
        pixels,
        colors: tm.colors(),
        alphas: tm.alphas(),
        cursor: cursor as int,
        failure: None,
    }
}

/// Whether `canvas` is a canvas for `sprite`.
pub open spec fn canvas_of(canvas: &Canvas, sprite: &Sprite) -> bool {
    &&& canvas.wf()
    &&& canvas.width == sprite.width
    &&& canvas.height == sprite.height
}

/// Whether a canvas, a cache and a cursor stand as the painter `p` says.
/// Of a painter that has failed only the cache is told.
pub open spec fn painted(p: Paint, canvas: &Canvas, tm: &TileMap, cursor: usize) -> bool {
    &&& tm.colors() == p.colors
    &&& tm.alphas() == p.alphas
    &&& p.failure is None ==> canvas@ == p.pixels && cursor == p.cursor
}

/// The result that stands for a painter: its failure, if it has one.
pub open spec fn outcome(p: Paint) -> Result<(), DecodeError> {
    match p.failure {
        Some(failure) => Err(failure),
        None => Ok(()),
    }
}

/// Writes `v` in decimal digits at the end of `out`.
fn push_decimal(out: &mut Vec<u8>, v: u8)
    ensures
        final(out)@ == old(out)@ + decimal(v),
{
    if v >= 100 {
        out.push(48 + v / 100);
        out.push(48 + (v / 10) % 10);
        out.push(48 + v % 10);
    } else if v >= 10 {
        out.push(48 + v / 10);
        out.push(48 + v % 10);
    } else {
        out.push(48 + v);
    }
    assert(out@ =~= old(out)@ + decimal(v));
}

/// The text of a solid color: `r g b` in decimal.
pub fn solid_color_sidecar(r: u8, g: u8, b: u8) -> (text: Vec<u8>)
    ensures
        text@ == solid_color_text(r, g, b),
{
    let mut text: Vec<u8> = Vec::new();
    push_decimal(&mut text, r);
    text.push(0x20);
    push_decimal(&mut text, g);
    text.push(0x20);
    push_decimal(&mut text, b);
    assert(text@ =~= solid_color_text(r, g, b));
    text
}

/// The number of cells of an entry's block.
fn block_cells(align: &Align) -> (cells: u64)
    ensures
        cells == block_len(*align),
{
    assert(0 <= align.width * align.height <= 0xFFFF_FFFF * 0xFFFF_FFFF) by (nonlinear_arith)
        requires
            0 <= align.width <= 0xFFFF_FFFF,
            0 <= align.height <= 0xFFFF_FFFF,
    ;
    (align.width as u64) * (align.height as u64)
}

/// Paints cell `e` of a block in the way of `pass`.
fn draw_cell(
    pass: Pass,
    sprite: &Sprite,
    pal: &[u8],
    align: &Align,
    e: u64,
    canvas: &mut Canvas,
    tm: &mut TileMap,
    j: &mut usize,
) -> (r: Result<(), DecodeError>)
    requires
        canvas_of(old(canvas), sprite),
        e < block_len(*align),
    ensures
        canvas_of(final(canvas), sprite),
        final(tm).same_header(old(tm)),
        painted(
            paint_cell(pass, painter(old(canvas)@, old(tm), *old(j)), sprite@, pal@, *align, e as int),
            final(canvas),
            final(tm),
            *final(j),
        ),
        r == outcome(
            paint_cell(pass, painter(old(canvas)@, old(tm), *old(j)), sprite@, pal@, *align, e as int),
        ),
{
    assert(align.width != 0 && e / (align.width as u64) < align.height) by (nonlinear_arith)
        requires
            e < align.width * align.height,
            0 <= e,
    ;
    let column: u64 = e % (align.width as u64);
    let row: u64 = e / (align.width as u64);
    let source_x: u64 = align.source_x as u64 + column;
    let source_y: u64 = align.source_y as u64 + row;
    let x: u64 = align.x as u64 + column;
    let y: u64 = align.y as u64 + row;
    match pass {
        Pass::Fresh => {
            if source_x > u32::MAX as u64 || source_y > u32::MAX as u64 {
                return Err(DecodeError::Format);
            }
            let color = match sprite.next_color(pal, j) {
                Ok(color) => color,
                Err(failure) => {
                    return Err(failure);
                },
            };
            tm.set(align.source_img, source_x as u32, source_y as u32, color);
            if x > u32::MAX as u64 || y > u32::MAX as u64 || !canvas.put_pixel(
                x as u32,
                y as u32,
                color,
            ) {
                return Err(DecodeError::Format);
            }
            Ok(())
        },
        Pass::Backref => {
            if source_x > u32::MAX as u64 || source_y > u32::MAX as u64 {
                return Err(DecodeError::Format);
            }
            let color = match tm.get(align.source_img, source_x as u32, source_y as u32) {
                Ok(color) => color,
                Err(failure) => {
                    return Err(failure);
                },
            };
            if x > u32::MAX as u64 || y > u32::MAX as u64 || !canvas.put_pixel(
                x as u32,
                y as u32,
                color,
            ) {
                return Err(DecodeError::Format);
            }
            Ok(())
        },
        Pass::Alpha => {
            if *j >= sprite.values.len() {
                return Err(DecodeError::Format);
            }
            let alpha: u8 = sprite.values[*j];
            if source_x > u32::MAX as u64 || source_y > u32::MAX as u64 {
                return Err(DecodeError::Format);
            }
            tm.set_alpha(align.source_img, source_x as u32, source_y as u32, alpha);
            if x > u32::MAX as u64 || y > u32::MAX as u64 || !canvas.put_alpha(
                x as u32,
                y as u32,
                alpha,
            ) {
                return Err(DecodeError::Format);
            }
            *j = *j + 1;
            Ok(())
        },
    }
}

/// Paints the cells of a block one after the other in the way of `pass`,
/// up to the first that fails.
fn draw_block(
    pass: Pass,
    sprite: &Sprite,
    pal: &[u8],
    align: &Align,
    canvas: &mut Canvas,
    tm: &mut TileMap,
    j: &mut usize,
) -> (r: Result<(), DecodeError>)
    requires
        canvas_of(old(canvas), sprite),
    ensures
        canvas_of(final(canvas), sprite),
        final(tm).same_header(old(tm)),
        painted(
            paint_cells(
                pass,
                painter(old(canvas)@, old(tm), *old(j)),
                sprite@,
                pal@,
                *align,
                block_len(*align) as nat,
            ),
            final(canvas),
            final(tm),
            *final(j),
        ),
        r == outcome(
            paint_cells(
                pass,
                painter(old(canvas)@, old(tm), *old(j)),
                sprite@,
                pal@,
                *align,
                block_len(*align) as nat,
            ),
        ),
{
    let cells: u64 = block_cells(align);
    let ghost start = painter(canvas@, tm, *j);
    let ghost header = *tm;
    let mut e: u64 = 0;
    while e < cells
        invariant
            e <= cells,
            cells == block_len(*align),
            canvas_of(canvas, sprite),
            tm.same_header(&header),
            header.same_header(old(tm)),
            start == painter(old(canvas)@, old(tm), *old(j)),
            paint_cells(pass, start, sprite@, pal@, *align, e as nat) == painter(canvas@, tm, *j),
        decreases cells - e,
    {
        let ghost before = painter(canvas@, tm, *j);
        match draw_cell(pass, sprite, pal, align, e, canvas, tm, j) {
            Ok(()) => {
                proof {
                    let after = paint_cell(pass, before, sprite@, pal@, *align, e as int);
                    assert(after.failure is None);
                    assert(after == painter(canvas@, tm, *j));
                    assert(paint_cells(pass, start, sprite@, pal@, *align, (e + 1) as nat) == after);
                }
            },
            Err(failure) => {
                proof {
                    let after = paint_cell(pass, before, sprite@, pal@, *align, e as int);
                    assert(paint_cells(pass, start, sprite@, pal@, *align, (e + 1) as nat) == after);
                    lemma_cells_stay_failed(
                        pass,
                        start,
                        sprite@,
                        pal@,
                        *align,
                        (e + 1) as nat,
                        cells as nat,
                    );
                }
                return Err(failure);
            },
        }
        e += 1;
    }
    Ok(())
}

/// Paints one alignment entry: a back-reference from the cache, a fresh
/// entry from the value stream, with a second pass for the alpha where the
/// sprite is of type 4.
fn draw_entry(
    sprite: &Sprite,
    pal: &[u8],
    align: &Align,
    canvas: &mut Canvas,
    tm: &mut TileMap,
    j: &mut usize,
) -> (r: Result<(), DecodeError>)
    requires
        canvas_of(old(canvas), sprite),
    ensures
        canvas_of(final(canvas), sprite),
        final(tm).same_header(old(tm)),
        painted(
            paint_entry(painter(old(canvas)@, old(tm), *old(j)), sprite@, pal@, *align),
            final(canvas),
            final(tm),
            *final(j),
        ),
        r == outcome(paint_entry(painter(old(canvas)@, old(tm), *old(j)), sprite@, pal@, *align)),
{
    let ghost start = painter(canvas@, tm, *j);
    if align.backref {
        return draw_block(Pass::Backref, sprite, pal, align, canvas, tm, j);
    }
    match draw_block(Pass::Fresh, sprite, pal, align, canvas, tm, j) {
        Ok(()) => {},
        Err(failure) => {
            proof {
                let fresh = paint_cells(
                    Pass::Fresh,
                    start,
                    sprite@,
                    pal@,
                    *align,
                    block_len(*align) as nat,
                );
                lemma_cells_stay_failed(
                    Pass::Alpha,
                    fresh,
                    sprite@,
                    pal@,
                    *align,
                    0,
                    block_len(*align) as nat,
                );
            }
            return Err(failure);
        },
    }
    if sprite.type_id == 4 {
        draw_block(Pass::Alpha, sprite, pal, align, canvas, tm, j)
    } else {
        Ok(())
    }
}

/// The canvas of a sprite before anything is painted, or `None` where the
/// sprite can have none.
fn blank_canvas(sprite: &Sprite, pal: &[u8]) -> (r: Option<Canvas>)
    ensures
        match r {
            Some(canvas) => {
                &&& canvas_of(&canvas, sprite)
                &&& forall|colors: Map<TileKey, Rgba>, alphas: Map<TileKey, Rgba>|
                    #![trigger blank(sprite@, pal@, colors, alphas)]
                    blank(sprite@, pal@, colors, alphas) == (Paint {
                        pixels: canvas@,
                        colors,
                        alphas,
                        cursor: 0,
                        failure: None,
                    })
            },
            None => forall|colors: Map<TileKey, Rgba>, alphas: Map<TileKey, Rgba>|
                #![trigger blank(sprite@, pal@, colors, alphas)]
                blank(sprite@, pal@, colors, alphas).failure == Some(DecodeError::Format),
        },
{
    let fill = if sprite.type_id == 0 {
        if sprite.width == 0 || sprite.height == 0 {
            Rgba::transparent()
        } else {
            match palette_color(pal, 0) {
                Some(fill) => fill,
                None => {
                    assert(sprite.width * sprite.height != 0) by (nonlinear_arith)
                        requires
                            sprite.width > 0,
                            sprite.height > 0,
                    ;
                    return None;
                },
            }
        }
    } else {
        Rgba::transparent()
    };
    assert(sprite.width == 0 || sprite.height == 0 ==> sprite.width * sprite.height == 0)
        by (nonlinear_arith);
    match Canvas::new(sprite.width, sprite.height, fill) {
        Some(canvas) => {
            assert forall|colors: Map<TileKey, Rgba>, alphas: Map<TileKey, Rgba>|
                #![trigger blank(sprite@, pal@, colors, alphas)]
                blank(sprite@, pal@, colors, alphas) == (Paint {
                    pixels: canvas@,
                    colors,
                    alphas,
                    cursor: 0,
                    failure: None,
                }) by {
                assert(blank(sprite@, pal@, colors, alphas).pixels =~= canvas@);
            }
            Some(canvas)
        },
        None => None,
    }
}

/// Paints the alignment entries of a sprite one after the other, up to the
/// first that fails, whose number goes with the failure.
fn draw_entries(
    sprite: &Sprite,
    m_align: &[u8],
    pal: &[u8],
    canvas: &mut Canvas,
    tm: &mut TileMap,
    j: &mut usize,
) -> (r: Result<(), (DecodeError, u32)>)
    requires
        canvas_of(old(canvas), sprite),
    ensures
        canvas_of(final(canvas), sprite),
        final(tm).same_header(old(tm)),
        painted(
            paint_entries(
                painter(old(canvas)@, old(tm), *old(j)),
                sprite@,
                m_align@,
                pal@,
                sprite.align_len as nat,
            ),
            final(canvas),
            final(tm),
            *final(j),
        ),
        match r {
            Ok(()) => paint_entries(
                painter(old(canvas)@, old(tm), *old(j)),
                sprite@,
                m_align@,
                pal@,
                sprite.align_len as nat,
            ).failure is None,
            Err((kind, entry)) => {
                &&& paint_entries(
                    painter(old(canvas)@, old(tm), *old(j)),
                    sprite@,
                    m_align@,
                    pal@,
                    sprite.align_len as nat,
                ).failure == Some(kind)
                &&& failing_entry(
                    painter(old(canvas)@, old(tm), *old(j)),
                    sprite@,
                    m_align@,
                    pal@,
                    sprite.align_len as nat,
                ) == Some(entry as int)
            },
        },
{
    let ghost start = painter(canvas@, tm, *j);
    let ghost header = *tm;
    let ghost entries = sprite.align_len as nat;
    let mut i: u32 = 0;
    while i < sprite.align_len
        invariant
            i <= sprite.align_len,
            entries == sprite.align_len,
            canvas_of(canvas, sprite),
            tm.same_header(&header),
            header.same_header(old(tm)),
            start == painter(old(canvas)@, old(tm), *old(j)),
            paint_entries(start, sprite@, m_align@, pal@, i as nat) == painter(canvas@, tm, *j),
        decreases sprite.align_len - i,
    {
        let ghost before = painter(canvas@, tm, *j);
        let ghost next = paint_entries(start, sprite@, m_align@, pal@, (i + 1) as nat);
        let align = match Align::new(sprite, m_align, i as usize) {
            Ok(align) => align,
            Err(failure) => {
                proof {
                    assert(next == failed(before, failure));
                    assert(failing_entry(start, sprite@, m_align@, pal@, (i + 1) as nat) == Some(
                        i as int,
                    ));
                    lemma_entries_stay_failed(
                        start,
                        sprite@,
                        m_align@,
                        pal@,
                        (i + 1) as nat,
                        entries,
                    );
                }
                return Err((failure, i));
            },
        };
        assert(next == paint_entry(before, sprite@, pal@, align));
        let cells: u64 = block_cells(&align);
        if cells <= usize::MAX as u64 {
            tm.reserve(cells as usize);
        }
        assert(before == painter(canvas@, tm, *j));
        match draw_entry(sprite, pal, &align, canvas, tm, j) {
            Ok(()) => {
                assert(next == painter(canvas@, tm, *j));
            },
            Err(failure) => {
                proof {
                    assert(failing_entry(start, sprite@, m_align@, pal@, (i + 1) as nat) == Some(
                        i as int,
                    ));
                    lemma_entries_stay_failed(
                        start,
                        sprite@,
                        m_align@,
                        pal@,
                        (i + 1) as nat,
                        entries,
                    );
                }
                return Err((failure, i));
            },
        }
        i += 1;
    }
    Ok(())
}

/// Paints a sprite and gathers its sidecars.
///
/// The canvas starts from the sprite's background. The sprite's alignment
/// entries are then taken from `m_align` in the order of the table, with
/// one cursor into the value stream for all of them: a fresh entry decodes
/// its block into the cache `tm` and onto the canvas, a back-reference
/// copies its block from the cache. `pal` is the global palette.
///
/// The result and the cache afterwards are those of `drawn`. A failure
/// tells its kind, the offset of the sprite and the entry that failed, and
/// the cache then keeps what was written up to the failure.
pub fn draw_sprite(sprite: &Sprite, m_align: &[u8], pal: &[u8], tm: &mut TileMap) -> (r: Result<
    DecodedSprite,
    Failure,
>)
    ensures
        final(tm).same_header(old(tm)),
        final(tm).colors() == drawn(
            sprite@,
            m_align@,
            pal@,
            old(tm).colors(),
            old(tm).alphas(),
        ).colors,
        final(tm).alphas() == drawn(
            sprite@,
            m_align@,
            pal@,
            old(tm).colors(),
            old(tm).alphas(),
        ).alphas,
        match r {
            Ok(out) => {
                &&& draw_failure(sprite@, m_align@, pal@, old(tm).colors(), old(tm).alphas()) is None
                &&& out.canvas.wf()
                &&& out@ == decoded(
                    sprite@,
                    drawn(sprite@, m_align@, pal@, old(tm).colors(), old(tm).alphas()).pixels,
                )
            },
            Err(failure) => draw_failure(
                sprite@,
                m_align@,
                pal@,
                old(tm).colors(),
                old(tm).alphas(),
            ) == Some(failure),
        },
{
    let ghost start = blank(sprite@, pal@, tm.colors(), tm.alphas());
    let ghost entries = sprite.align_len as nat;
    let mut canvas = match blank_canvas(sprite, pal) {
        Some(canvas) => canvas,
        None => {
            proof {
                lemma_entries_stay_failed(start, sprite@, m_align@, pal@, 0, entries);
            }
            return Err(
                Failure {
                    kind: DecodeError::Format,
                    sprite: None,
                    offset: Some(sprite.index),
                    entry: None,
                },
            );
        },
    };
    let mut j: usize = 0;
    assert(start == painter(canvas@, tm, j));
    match draw_entries(sprite, m_align, pal, &mut canvas, tm, &mut j) {
        Ok(()) => {},
        Err((kind, entry)) => {
            return Err(Failure { kind, sprite: None, offset: Some(sprite.index), entry: Some(entry) });
        },
    }
    proof {
        lemma_no_failing_entry(start, sprite@, m_align@, pal@, entries);
    }
    let mut local_palette: Option<Vec<u8>> = None;
    let mut alpha_marker: Option<Vec<u8>> = None;
    let mut solid_color: Option<Vec<u8>> = None;
    if sprite.type_id == 2 || sprite.type_id == 4 {
        if sprite.cpal.len() != LOCAL_PALETTE_SIZE {
            return Err(
                Failure {
                    kind: DecodeError::Format,
                    sprite: None,
                    offset: Some(sprite.index),
                    entry: None,
                },
            );
        }
        local_palette = Some(slice_to_vec(sprite.cpal));
        if sprite.type_id == 4 {
            let mut marker: Vec<u8> = Vec::new();
            marker.push(0x34);
            assert(marker@ =~= alpha_marker_bytes());
            alpha_marker = Some(marker);
        }
    } else if sprite.type_id == 3 {
        solid_color = Some(solid_color_sidecar(sprite.r, sprite.g, sprite.b));
    }
    let out = DecodedSprite {
        name: sprite.filename.clone(),
        canvas,
        local_palette,
        alpha_marker,
        solid_color,
    };
    Ok(out)
}

} // verus!
