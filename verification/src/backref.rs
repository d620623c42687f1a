//! What a back-reference reads: the color that the last fresh cell wrote
//! under its key.

use crate::align::Align;
use crate::error::DecodeError;
use crate::paint::{
    alpha_cell, backref_cell, block_len, column, fresh_cell, paint_cell, paint_cells, paint_entry,
    row, source_key, target, Paint, Pass,
};
use crate::sprite::{color_at, SpriteView};
use vstd::arithmetic::div_mod::lemma_fundamental_div_mod;
use vstd::prelude::*;

verus! {

/// Whether the painter's canvas has one pixel for each place of the
/// sprite's canvas.
pub open spec fn canvas_whole(p: Paint, s: SpriteView) -> bool {
    p.pixels.len() == s.width * s.height
}

/// Whether cell `e` of the back-reference `a` shows on the canvas of `q`
/// the color that the cache of `p` holds under the cell's key.
pub open spec fn shows_cached(p: Paint, q: Paint, s: SpriteView, a: Align, e: int) -> bool {
    &&& source_key(a, e) matches Some(key)
    &&& p.colors.contains_key(key)
    &&& target(s, a, e) matches Some(i)
    &&& 0 <= i < q.pixels.len()
    &&& q.pixels[i] == p.colors[key]
}

/// A fresh cell that resolves its color writes it to the cache under the
/// cell's key, over whatever was there, and touches no other key; a cell
/// that has no key or no color leaves the cache as it was.
pub proof fn lemma_fresh_cell_writes_cache(
    p: Paint,
    s: SpriteView,
    pal: Seq<u8>,
    a: Align,
    e: int,
)
    ensures
        fresh_cell(p, s, pal, a, e).alphas == p.alphas,
        match (source_key(a, e), color_at(s, pal, p.cursor)) {
            (Some(key), Ok(color)) => {
                &&& fresh_cell(p, s, pal, a, e).colors == p.colors.insert(key, color)
                &&& fresh_cell(p, s, pal, a, e).colors[key] == color
                &&& fresh_cell(p, s, pal, a, e).failure is None ==> target(s, a, e) is Some
                    && fresh_cell(p, s, pal, a, e).pixels == p.pixels.update(
                    target(s, a, e).unwrap(),
                    color,
                )
            },
            _ => fresh_cell(p, s, pal, a, e).colors == p.colors && fresh_cell(
                p,
                s,
                pal,
                a,
                e,
            ).failure is Some,
        },
{
}

/// An alpha cell leaves the colors of the cache as they were.
pub proof fn lemma_alpha_cell_keeps_colors(p: Paint, s: SpriteView, a: Align, e: int)
    ensures
        alpha_cell(p, s, a, e).colors == p.colors,
{
}

/// A back-reference cell paints the color that the cache holds under the
/// cell's key, and fails with a cache miss where the cache holds none; it
/// never paints a color of its own making. It leaves the cache and the
/// cursor as they were.
pub proof fn lemma_backref_cell_reads_cache(p: Paint, s: SpriteView, a: Align, e: int)
    ensures
        backref_cell(p, s, a, e).colors == p.colors,
        backref_cell(p, s, a, e).alphas == p.alphas,
        backref_cell(p, s, a, e).cursor == p.cursor,
        source_key(a, e) matches Some(key) ==> {
            &&& !p.colors.contains_key(key) ==> backref_cell(p, s, a, e) == (Paint {
                failure: Some(DecodeError::CacheMiss),
                ..p
            })
            &&& p.colors.contains_key(key) ==> match target(s, a, e) {
                Some(i) => backref_cell(p, s, a, e) == (Paint {
                    pixels: p.pixels.update(i, p.colors[key]),
                    ..p
                }),
                None => backref_cell(p, s, a, e).failure == Some(DecodeError::Format),
            }
        },
        source_key(a, e) is None ==> backref_cell(p, s, a, e).failure == Some(DecodeError::Format),
{
}

/// Two cells of one block lie at two places of the canvas.
pub proof fn lemma_cells_lie_apart(s: SpriteView, a: Align, e1: int, e2: int)
    requires
        a.width > 0,
        0 <= e1,
        0 <= e2,
        e1 != e2,
        target(s, a, e1) is Some,
        target(s, a, e2) is Some,
    ensures
        target(s, a, e1) != target(s, a, e2),
{
    let w = a.width as int;
    let x1 = a.x + column(a, e1);
    let y1 = a.y + row(a, e1);
    let x2 = a.x + column(a, e2);
    let y2 = a.y + row(a, e2);
    let width = s.width as int;
    lemma_fundamental_div_mod(e1, w);
    lemma_fundamental_div_mod(e2, w);
    if y1 * width + x1 == y2 * width + x2 {
        assert(y1 == y2) by (nonlinear_arith)
            requires
                0 <= x1 < width,
                0 <= x2 < width,
                y1 * width + x1 == y2 * width + x2,
        ;
        assert(x1 == x2);
        assert(row(a, e1) == row(a, e2));
        assert(column(a, e1) == column(a, e2));
        assert(e1 == e2);
    }
}

/// The place of a cell on the canvas lies within the canvas.
pub proof fn lemma_target_in_canvas(s: SpriteView, a: Align, e: int)
    requires
        target(s, a, e) is Some,
    ensures
        0 <= target(s, a, e).unwrap() < s.width * s.height,
{
    crate::canvas::lemma_pixel_index_in_range(
        s.width,
        s.height,
        a.x + column(a, e),
        a.y + row(a, e),
    );
}

/// The first `n` cells of a back-reference, painted without failure, show
/// each the color that the cache held under its key before the block; the
/// cache and the cursor are as before, whether it failed or not. So a
/// back-reference to a key that the cache does not hold cannot succeed.
pub proof fn lemma_backref_cells_show_cache(
    p: Paint,
    s: SpriteView,
    pal: Seq<u8>,
    a: Align,
    n: nat,
)
    requires
        p.failure is None,
        canvas_whole(p, s),
        n <= block_len(a),
    ensures
        paint_cells(Pass::Backref, p, s, pal, a, n).colors == p.colors,
        paint_cells(Pass::Backref, p, s, pal, a, n).alphas == p.alphas,
        paint_cells(Pass::Backref, p, s, pal, a, n).cursor == p.cursor,
        canvas_whole(paint_cells(Pass::Backref, p, s, pal, a, n), s),
        paint_cells(Pass::Backref, p, s, pal, a, n).failure is None ==> forall|e: int|
            0 <= e < n ==> #[trigger] shows_cached(
                p,
                paint_cells(Pass::Backref, p, s, pal, a, n),
                s,
                a,
                e,
            ),
    decreases n,
{
    if n > 0 {
        let before = paint_cells(Pass::Backref, p, s, pal, a, (n - 1) as nat);
        let after = paint_cells(Pass::Backref, p, s, pal, a, n);
        lemma_backref_cells_show_cache(p, s, pal, a, (n - 1) as nat);
        assert(after == paint_cell(Pass::Backref, before, s, pal, a, n - 1));
        if after.failure is None {
            assert(before.failure is None);
            let last = n - 1;
            let i = target(s, a, last).unwrap();
            lemma_target_in_canvas(s, a, last);
            assert(a.width > 0) by (nonlinear_arith)
                requires
                    0 < n <= a.width * a.height,
                    0 <= a.height,
            ;
            assert forall|e: int| 0 <= e < n implies #[trigger] shows_cached(p, after, s, a, e) by {
                if e < last {
                    assert(shows_cached(p, before, s, a, e));
                    lemma_cells_lie_apart(s, a, e, last);
                }
            }
        }
    }
}

/// What a back-reference shows is what was last written: where the entry
/// `a` is a back-reference and is painted without failure, every cell of
/// its block shows the color that the cache held under the cell's key
/// before the entry. Where its block has a cell whose key the cache does
/// not hold, painting fails.
pub proof fn lemma_backref_entry_shows_cache(p: Paint, s: SpriteView, pal: Seq<u8>, a: Align)
    requires
        p.failure is None,
        canvas_whole(p, s),
        a.backref,
    ensures
        paint_entry(p, s, pal, a).colors == p.colors,
        paint_entry(p, s, pal, a).alphas == p.alphas,
        paint_entry(p, s, pal, a).cursor == p.cursor,
        paint_entry(p, s, pal, a).failure is None ==> forall|e: int|
            0 <= e < block_len(a) ==> #[trigger] shows_cached(
                p,
                paint_entry(p, s, pal, a),
                s,
                a,
                e,
            ),
        (exists|e: int|
            0 <= e < block_len(a) && source_key(a, e) is Some && !p.colors.contains_key(
                #[trigger] source_key(a, e).unwrap(),
            )) ==> paint_entry(p, s, pal, a).failure is Some,
{
    assert(0 <= a.width * a.height) by (nonlinear_arith)
        requires
            0 <= a.width,
            0 <= a.height,
    ;
    lemma_backref_cells_show_cache(p, s, pal, a, block_len(a) as nat);
    let q = paint_entry(p, s, pal, a);
    if q.failure is None {
        assert forall|e: int|
            0 <= e < block_len(a) && source_key(a, e) is Some implies p.colors.contains_key(
            #[trigger] source_key(a, e).unwrap(),
        ) by {
            assert(shows_cached(p, q, s, a, e));
        }
    }
}

/// A color that a fresh cell wrote is what a back-reference cell to the
/// same key shows, as long as no write went to that key in between: after
/// the fresh cell `e1` of `a1` the painter `p` may have gone on to any
/// state `between` whose cache still holds the cell's color under its key.
pub proof fn lemma_backref_after_fresh(
    p: Paint,
    between: Paint,
    s: SpriteView,
    pal: Seq<u8>,
    a1: Align,
    e1: int,
    a2: Align,
    e2: int,
)
    requires
        p.failure is None,
        fresh_cell(p, s, pal, a1, e1).failure is None,
        between.failure is None,
        source_key(a1, e1) == source_key(a2, e2),
        between.colors.contains_key(source_key(a1, e1).unwrap()),
        between.colors[source_key(a1, e1).unwrap()] == fresh_cell(p, s, pal, a1, e1).colors[source_key(
            a1,
            e1,
        ).unwrap()],
        backref_cell(between, s, a2, e2).failure is None,
    ensures
        color_at(s, pal, p.cursor) is Ok,
        target(s, a2, e2) is Some,
        backref_cell(between, s, a2, e2).pixels == between.pixels.update(
            target(s, a2, e2).unwrap(),
            color_at(s, pal, p.cursor).unwrap(),
        ),
{
}

} // verus!
