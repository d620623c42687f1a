//! What a fresh entry paints: pixel by pixel what its value stream holds.

use crate::align::Align;
use crate::backref::{canvas_whole, lemma_cells_lie_apart, lemma_target_in_canvas};
use crate::color::Rgba;
use crate::paint::{
    block_len, paint_cell, paint_cells, paint_entry, source_key, target, Paint, Pass,
};
use crate::sprite::{color_at, stride, SpriteView};
use crate::store::TileKey;
use vstd::prelude::*;

verus! {

/// Where in the value stream the pixel of cell `e` starts, for a block
/// whose first pixel starts at `cursor`.
pub open spec fn pixel_at(s: SpriteView, cursor: int, e: int) -> int {
    cursor + e * stride(s)
}

/// Whether cell `e` of the fresh entry `a` shows on the canvas of `q` the
/// color that the value stream holds for it, counted from `cursor`.
pub open spec fn shows_stream(
    q: Paint,
    s: SpriteView,
    pal: Seq<u8>,
    a: Align,
    cursor: int,
    e: int,
) -> bool {
    &&& source_key(a, e) is Some
    &&& color_at(s, pal, pixel_at(s, cursor, e)) matches Ok(color)
    &&& target(s, a, e) matches Some(i)
    &&& 0 <= i < q.pixels.len()
    &&& q.pixels[i] == color
}

/// Whether the cache of `q` holds under the key of cell `e` of the fresh
/// entry `a` the color that the value stream holds for the cell, unless
/// one of the cells after it, up to cell `n`, has the same key.
pub open spec fn caches_stream(
    q: Paint,
    s: SpriteView,
    pal: Seq<u8>,
    a: Align,
    cursor: int,
    e: int,
    n: int,
) -> bool {
    (forall|later: int| e < later < n ==> #[trigger] source_key(a, later) != source_key(a, e)) ==> {
        &&& source_key(a, e) matches Some(key)
        &&& color_at(s, pal, pixel_at(s, cursor, e)) matches Ok(color)
        &&& q.colors.contains_key(key)
        &&& q.colors[key] == color
    }
}

/// Whether no cell of the first `n` of entry `a` has the key `key`.
pub open spec fn key_untouched(a: Align, key: TileKey, n: int) -> bool {
    forall|e: int| 0 <= e < n ==> #[trigger] source_key(a, e) != Some(key)
}

/// The first `n` cells of a fresh entry, painted without failure, took one
/// pixel each from the value stream, in order and without a gap, and show
/// each the color of its pixel. The cache holds each cell's color under
/// the cell's key, unless a later cell of the block wrote to the same key,
/// and is unchanged under every key that is none of the block's. The alpha
/// overlay is as before.
pub proof fn lemma_fresh_cells_follow_stream(
    p: Paint,
    s: SpriteView,
    pal: Seq<u8>,
    a: Align,
    n: nat,
)
    requires
        p.failure is None,
        canvas_whole(p, s),
        n <= block_len(a),
    ensures
        paint_cells(Pass::Fresh, p, s, pal, a, n).alphas == p.alphas,
        canvas_whole(paint_cells(Pass::Fresh, p, s, pal, a, n), s),
        forall|key: TileKey|
            key_untouched(a, key, n as int) ==> {
                &&& #[trigger] paint_cells(Pass::Fresh, p, s, pal, a, n).colors.contains_key(key)
                    == p.colors.contains_key(key)
                &&& paint_cells(Pass::Fresh, p, s, pal, a, n).colors[key] == p.colors[key]
            },
        paint_cells(Pass::Fresh, p, s, pal, a, n).failure is None ==> {
            &&& paint_cells(Pass::Fresh, p, s, pal, a, n).cursor == pixel_at(s, p.cursor, n as int)
            &&& forall|e: int|
                0 <= e < n ==> #[trigger] shows_stream(
                    paint_cells(Pass::Fresh, p, s, pal, a, n),
                    s,
                    pal,
                    a,
                    p.cursor,
                    e,
                )
            &&& forall|e: int|
                0 <= e < n ==> #[trigger] caches_stream(
                    paint_cells(Pass::Fresh, p, s, pal, a, n),
                    s,
                    pal,
                    a,
                    p.cursor,
                    e,
                    n as int,
                )
        },
    decreases n,
{
    let after = paint_cells(Pass::Fresh, p, s, pal, a, n);
    if n > 0 {
        let last = n - 1;
        let before = paint_cells(Pass::Fresh, p, s, pal, a, last as nat);
        lemma_fresh_cells_follow_stream(p, s, pal, a, last as nat);
        assert(after == paint_cell(Pass::Fresh, before, s, pal, a, last));
        assert forall|key: TileKey| key_untouched(a, key, n as int) implies {
            &&& #[trigger] after.colors.contains_key(key) == p.colors.contains_key(key)
            &&& after.colors[key] == p.colors[key]
        } by {
            assert(key_untouched(a, key, last));
            assert(source_key(a, last) != Some(key));
        }
        if after.failure is None {
            assert(before.failure is None);
            assert(pixel_at(s, p.cursor, n as int) == pixel_at(s, p.cursor, last) + stride(s))
                by (nonlinear_arith)
                requires
                    last == n - 1,
                    pixel_at(s, p.cursor, n as int) == p.cursor + n * stride(s),
                    pixel_at(s, p.cursor, last) == p.cursor + last * stride(s),
            ;
            lemma_target_in_canvas(s, a, last);
            assert(a.width > 0) by (nonlinear_arith)
                requires
                    0 < n <= a.width * a.height,
                    0 <= a.height,
            ;
            assert forall|e: int| 0 <= e < n implies #[trigger] shows_stream(
                after,
                s,
                pal,
                a,
                p.cursor,
                e,
            ) by {
                if e < last {
                    assert(shows_stream(before, s, pal, a, p.cursor, e));
                    lemma_cells_lie_apart(s, a, e, last);
                }
            }
            assert forall|e: int| 0 <= e < n implies #[trigger] caches_stream(
                after,
                s,
                pal,
                a,
                p.cursor,
                e,
                n as int,
            ) by {
                if e < last {
                    assert(caches_stream(before, s, pal, a, p.cursor, e, last));
                    if forall|later: int|
                        e < later < n ==> #[trigger] source_key(a, later) != source_key(a, e) {
                        assert(source_key(a, last) != source_key(a, e));
                    }
                }
            }
        }
    }
}

/// Whether cell `e` of the fresh entry `a` shows on the canvas of `q` the
/// pixel that `p` showed there with the alpha that the value stream holds
/// for the cell, counted from `cursor`.
pub open spec fn shows_alpha(p: Paint, q: Paint, s: SpriteView, a: Align, cursor: int, e: int) -> bool {
    &&& source_key(a, e) is Some
    &&& 0 <= cursor + e < s.values.len()
    &&& target(s, a, e) matches Some(i)
    &&& 0 <= i < q.pixels.len()
    &&& q.pixels[i] == Rgba { a: s.values[cursor + e], ..p.pixels[i] }
}

/// The first `n` cells of an alpha pass, walked without failure, took one
/// byte each from the value stream, in order and without a gap, and gave it
/// as alpha to the cell's pixel, whose color stays. The colors of the cache
/// are as before.
pub proof fn lemma_alpha_cells_follow_stream(
    p: Paint,
    s: SpriteView,
    pal: Seq<u8>,
    a: Align,
    n: nat,
)
    requires
        p.failure is None,
        canvas_whole(p, s),
        n <= block_len(a),
    ensures
        paint_cells(Pass::Alpha, p, s, pal, a, n).colors == p.colors,
        canvas_whole(paint_cells(Pass::Alpha, p, s, pal, a, n), s),
        paint_cells(Pass::Alpha, p, s, pal, a, n).failure is None ==> {
            &&& paint_cells(Pass::Alpha, p, s, pal, a, n).cursor == p.cursor + n
            &&& forall|e: int|
                0 <= e < n ==> #[trigger] shows_alpha(
                    p,
                    paint_cells(Pass::Alpha, p, s, pal, a, n),
                    s,
                    a,
                    p.cursor,
                    e,
                )
            &&& forall|i: int|
                0 <= i < p.pixels.len() && (forall|e: int|
                    0 <= e < n ==> #[trigger] target(s, a, e) != Some(i)) ==> paint_cells(
                    Pass::Alpha,
                    p,
                    s,
                    pal,
                    a,
                    n,
                ).pixels[i] == p.pixels[i]
        },
    decreases n,
{
    let after = paint_cells(Pass::Alpha, p, s, pal, a, n);
    if n > 0 {
        let last = n - 1;
        let before = paint_cells(Pass::Alpha, p, s, pal, a, last as nat);
        lemma_alpha_cells_follow_stream(p, s, pal, a, last as nat);
        assert(after == paint_cell(Pass::Alpha, before, s, pal, a, last));
        if after.failure is None {
            assert(before.failure is None);
            lemma_target_in_canvas(s, a, last);
            assert(a.width > 0) by (nonlinear_arith)
                requires
                    0 < n <= a.width * a.height,
                    0 <= a.height,
            ;
            let at = target(s, a, last).unwrap();
            assert(before.pixels[at] == p.pixels[at]) by {
                assert forall|e: int| 0 <= e < last implies #[trigger] target(s, a, e) != Some(
                    at,
                ) by {
                    assert(shows_alpha(p, before, s, a, p.cursor, e));
                    lemma_cells_lie_apart(s, a, e, last);
                }
            }
            assert forall|e: int| 0 <= e < n implies #[trigger] shows_alpha(
                p,
                after,
                s,
                a,
                p.cursor,
                e,
            ) by {
                if e < last {
                    assert(shows_alpha(p, before, s, a, p.cursor, e));
                    lemma_cells_lie_apart(s, a, e, last);
                }
            }
        }
    }
}

/// A fresh entry of a sprite that is not of type 4 is its fresh pass alone,
/// and of a sprite of type 4 its fresh pass and then its alpha pass over
/// the same cells, which starts in the value stream where the fresh pass
/// ended.
pub proof fn lemma_fresh_entry_passes(p: Paint, s: SpriteView, pal: Seq<u8>, a: Align)
    requires
        p.failure is None,
        canvas_whole(p, s),
        !a.backref,
    ensures
        s.type_id != 4 ==> paint_entry(p, s, pal, a) == paint_cells(
            Pass::Fresh,
            p,
            s,
            pal,
            a,
            block_len(a) as nat,
        ),
        s.type_id == 4 ==> paint_entry(p, s, pal, a) == paint_cells(
            Pass::Alpha,
            paint_cells(Pass::Fresh, p, s, pal, a, block_len(a) as nat),
            s,
            pal,
            a,
            block_len(a) as nat,
        ),
        paint_entry(p, s, pal, a).failure is None ==> paint_entry(p, s, pal, a).cursor
            == p.cursor + block_len(a) * (if s.type_id == 4 {
            stride(s) + 1
        } else {
            stride(s)
        }),
{
    let n = block_len(a);
    assert(0 <= n) by (nonlinear_arith)
        requires
            n == a.width * a.height,
            0 <= a.width,
            0 <= a.height,
    ;
    lemma_fresh_cells_follow_stream(p, s, pal, a, n as nat);
    let fresh = paint_cells(Pass::Fresh, p, s, pal, a, n as nat);
    if s.type_id == 4 {
        let q = paint_entry(p, s, pal, a);
        if q.failure is None {
            if fresh.failure is Some {
                crate::paint::lemma_cells_stay_failed(Pass::Alpha, fresh, s, pal, a, 0, n as nat);
            }
            lemma_alpha_cells_follow_stream(fresh, s, pal, a, n as nat);
            assert(n * (stride(s) + 1) == n * stride(s) + n) by (nonlinear_arith);
        }
    }
}

} // verus!
