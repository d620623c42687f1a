//! The RGBA canvas that a sprite is painted on.

use crate::color::Rgba;
use vstd::prelude::*;

verus! {

/// Whether a canvas of `width` by `height` pixels can be held in memory:
/// its bytes, four for each pixel, must not be more than `isize::MAX`.
pub open spec fn canvas_fits(width: u32, height: u32) -> bool {
    width * height * 4 <= isize::MAX
}

/// The place of the pixel at column `x` of row `y` in a canvas of `width`
/// by `height` pixels that is laid out row by row, or `None` where the
/// canvas has no such pixel.
pub open spec fn pixel_index(width: u32, height: u32, x: int, y: int) -> Option<int> {
    if 0 <= x < width && 0 <= y < height {
        Some(y * width + x)
    } else {
        None
    }
}

/// Channel `c` of a pixel: 0 for red, 1 for green, 2 for blue, else alpha.
pub open spec fn channel(pixel: Rgba, c: int) -> u8 {
    if c == 0 {
        pixel.r
    } else if c == 1 {
        pixel.g
    } else if c == 2 {
        pixel.b
    } else {
        pixel.a
    }
}

/// The bytes of pixels as an RGBA8 image: four for each pixel in turn, its
/// red, green, blue and alpha.
pub open spec fn rgba8(pixels: Seq<Rgba>) -> Seq<u8> {
    Seq::new(4 * pixels.len(), |k: int| channel(pixels[k / 4], k % 4))
}

/// A raster of `width` by `height` pixels, row by row from the top.
pub struct Canvas {
    pub width: u32,
    pub height: u32,
    pub pixels: Vec<Rgba>,
}

impl View for Canvas {
    type V = Seq<Rgba>;

    open spec fn view(&self) -> Seq<Rgba> {
        self.pixels@
    }
}

pub proof fn lemma_pixel_index_in_range(width: u32, height: u32, x: int, y: int)
    requires
        0 <= x < width,
        0 <= y < height,
    ensures
        0 <= y * width + x < width * height,
{
    assert(y * width + x < width * height) by (nonlinear_arith)
        requires
            0 <= x < width,
            0 <= y < height,
    ;
    assert(0 <= y * width) by (nonlinear_arith)
        requires
            0 <= y,
            0 <= width,
    ;
}

impl Canvas {
    /// Whether the canvas holds exactly one pixel for each of its places.
    pub open spec fn wf(&self) -> bool {
        self.pixels@.len() == self.width * self.height
    }

    /// A canvas of `width` by `height` pixels that are all `fill`, or
    /// `None` where such a canvas cannot be held in memory.
    pub fn new(width: u32, height: u32, fill: Rgba) -> (r: Option<Canvas>)
        ensures
            r is Some <==> canvas_fits(width, height),
            r matches Some(canvas) ==> {
                &&& canvas.wf()
                &&& canvas.width == width
                &&& canvas.height == height
                &&& canvas@ == Seq::new((width * height) as nat, |i: int| fill)
            },
    {
        assert(width * height <= 0xFFFF_FFFF * 0xFFFF_FFFF) by (nonlinear_arith)
            requires
                width <= 0xFFFF_FFFF,
                height <= 0xFFFF_FFFF,
        ;
        let count: u64 = (width as u64) * (height as u64);
        if count > (isize::MAX as u64) / 4 {
            return None;
        }
        let pixels: Vec<Rgba> = vec![fill; count as usize];
        let canvas = Canvas { width, height, pixels };
        assert(canvas@ =~= Seq::new((width * height) as nat, |i: int| fill));
        Some(canvas)
    }

    fn place(&self, x: u32, y: u32) -> (at: usize)
        requires
            self.wf(),
            x < self.width,
            y < self.height,
        ensures
            at == y * self.width + x,
            at < self@.len(),
    {
        let len: usize = self.pixels.len();
        proof {
            lemma_pixel_index_in_range(self.width, self.height, x as int, y as int);
            assert(y * self.width <= y * self.width + x);
        }
        (y as usize) * (self.width as usize) + (x as usize)
    }

    /// The pixel at column `x` of row `y`, or `None` where the canvas has
    /// no such pixel.
    pub fn get_pixel(&self, x: u32, y: u32) -> (r: Option<Rgba>)
        requires
            self.wf(),
        ensures
            r == match pixel_index(self.width, self.height, x as int, y as int) {
                Some(i) => Some(self@[i]),
                None => None,
            },
    {
        if x < self.width && y < self.height {
            let at: usize = self.place(x, y);
            Some(self.pixels[at])
        } else {
            None
        }
    }

    /// Paints `color` at column `x` of row `y`. Returns whether the canvas
    /// has such a pixel; where it has none, the canvas stays as it is.
    pub fn put_pixel(&mut self, x: u32, y: u32, color: Rgba) -> (r: bool)
        requires
            old(self).wf(),
        ensures
            final(self).wf(),
            final(self).width == old(self).width,
            final(self).height == old(self).height,
            r == pixel_index(old(self).width, old(self).height, x as int, y as int).is_some(),
            final(self)@ == match pixel_index(
                old(self).width,
                old(self).height,
                x as int,
                y as int,
            ) {
                Some(i) => old(self)@.update(i, color),
                None => old(self)@,
            },
    {
        if x < self.width && y < self.height {
            let at: usize = self.place(x, y);
            self.pixels.set(at, color);
            true
        } else {
            false
        }
    }

    /// Gives the pixel at column `x` of row `y` the alpha `a` and leaves
    /// its color. Returns whether the canvas has such a pixel; where it has
    /// none, the canvas stays as it is.
    pub fn put_alpha(&mut self, x: u32, y: u32, a: u8) -> (r: bool)
        requires
            old(self).wf(),
        ensures
            final(self).wf(),
            final(self).width == old(self).width,
            final(self).height == old(self).height,
            r == pixel_index(old(self).width, old(self).height, x as int, y as int).is_some(),
            final(self)@ == match pixel_index(
                old(self).width,
                old(self).height,
                x as int,
                y as int,
            ) {
                Some(i) => old(self)@.update(i, Rgba { a, ..old(self)@[i] }),
                None => old(self)@,
            },
    {
        if x < self.width && y < self.height {
            let at: usize = self.place(x, y);
            let held: Rgba = self.pixels[at];
            self.pixels.set(at, held.with_alpha(a));
            true
        } else {
            false
        }
    }

    /// The canvas as the bytes of an RGBA8 image: for each pixel in turn
    /// its red, green, blue and alpha.
    pub fn to_rgba8(&self) -> (bytes: Vec<u8>)
        ensures
            bytes@ == rgba8(self@),
    {
        let mut bytes: Vec<u8> = Vec::new();
        let mut k: usize = 0;
        while k < self.pixels.len()
            invariant
                k <= self.pixels@.len(),
                bytes@.len() == 4 * k,
                forall|i: int| 0 <= i < 4 * k ==> bytes@[i] == #[trigger] rgba8(self@)[i],
            decreases self.pixels@.len() - k,
        {
            let pixel: Rgba = self.pixels[k];
            bytes.push(pixel.r);
            bytes.push(pixel.g);
            bytes.push(pixel.b);
            bytes.push(pixel.a);
            k += 1;
        }
        assert(bytes@ =~= rgba8(self@));
        bytes
    }
}

} // verus!
