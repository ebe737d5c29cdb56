//! A plain RGBA raster and the binariser that reads ink from it.

use vstd::prelude::*;

verus! {

/// One RGBA pixel.
#[derive(Clone, Copy, PartialEq, Eq, Structural, Debug)]
pub struct Color {
    pub r: u8,
    pub g: u8,
    pub b: u8,
    pub a: u8,
}

pub open spec fn is_white(c: Color) -> bool {
    c.r == 255 && c.g == 255 && c.b == 255 && c.a == 255
}

pub open spec fn is_black(c: Color) -> bool {
    c.r == 0 && c.g == 0 && c.b == 0 && c.a == 255
}

/// Opaque white.
pub fn white() -> (c: Color)
    ensures
        is_white(c),
{
    Color { r: 255, g: 255, b: 255, a: 255 }
}

/// Opaque black.
pub fn black() -> (c: Color)
    ensures
        is_black(c),
{
    Color { r: 0, g: 0, b: 0, a: 255 }
}

/// A `width` x `height` image, stored as rows of pixels from the top.
pub struct Raster {
    pub width: u32,
    pub height: u32,
    pub rows: Vec<Vec<Color>>,
}

impl Raster {
    /// The rows hold `height` rows of `width` pixels each.
    pub open spec fn wf(&self) -> bool {
        &&& self.rows@.len() == self.height
        &&& forall|y: int| 0 <= y < self.rows@.len() ==> (#[trigger] self.rows@[y])@.len() == self.width
    }

    pub open spec fn in_bounds(&self, x: int, y: int) -> bool {
        0 <= x < self.width && 0 <= y < self.height
    }

    /// The pixel at column `x` of row `y`.
    pub open spec fn pixel(&self, x: int, y: int) -> Color {
        self.rows@[y]@[x]
    }

    /// Whether (x, y) is ink: inside the image and not opaque white.
    pub open spec fn ink(&self, x: int, y: int) -> bool {
        self.in_bounds(x, y) && !is_white(self.pixel(x, y))
    }

    /// The sample at (x, y): 1 for ink, 0 for background and outside.
    pub open spec fn sample(&self, x: int, y: int) -> u8 {
        if self.ink(x, y) {
            1
        } else {
            0
        }
    }

    /// An image of the given size in one color.
    pub fn filled(width: u32, height: u32, color: Color) -> (r: Raster)
        ensures
            r.wf(),
            r.width == width,
            r.height == height,
            forall|x: int, y: int| r.in_bounds(x, y) ==> r.pixel(x, y) == color,
    {
        let mut rows: Vec<Vec<Color>> = Vec::new();
        let mut y: u32 = 0;
        while y < height
            invariant
                y <= height,
                rows@.len() == y,
                forall|j: int| 0 <= j < y ==> (#[trigger] rows@[j])@.len() == width,
                forall|j: int, x: int|
                    0 <= j < y && 0 <= x < width ==> #[trigger] rows@[j]@[x] == color,
            decreases height - y,
        {
            let mut row: Vec<Color> = Vec::new();
            let mut x: u32 = 0;
            while x < width
                invariant
                    x <= width,
                    row@.len() == x,
                    forall|i: int| 0 <= i < x ==> (#[trigger] row@[i]) == color,
                decreases width - x,
            {
                row.push(color);
                x = x + 1;
            }
            rows.push(row);
            y = y + 1;
        }
        Raster { width, height, rows }
    }

    /// The pixel at (x, y).
    pub fn get_pixel(&self, x: u32, y: u32) -> (c: Color)
        requires
            self.wf(),
            self.in_bounds(x as int, y as int),
        ensures
            c == self.pixel(x as int, y as int),
    {
        self.rows[y as usize][x as usize]
    }

    /// Paints the pixel at (x, y).
    pub fn set_pixel(&mut self, x: u32, y: u32, color: Color)
        requires
            old(self).wf(),
            old(self).in_bounds(x as int, y as int),
        ensures
            final(self).wf(),
            final(self).width == old(self).width,
            final(self).height == old(self).height,
            forall|i: int, j: int|
                final(self).in_bounds(i, j) ==> final(self).pixel(i, j) == (if i == x && j == y {
                    color
                } else {
                    old(self).pixel(i, j)
                }),
    {
        let yi = y as usize;
        let mut row: Vec<Color> = Vec::new();
        let mut i: usize = 0;
        while i < self.rows[yi].len()
            invariant
                old(self).wf(),
                *self == *old(self),
                yi == y,
                y < self.height,
                i <= self.rows@[yi as int]@.len(),
                row@.len() == i,
                forall|j: int|
                    0 <= j < i ==> (#[trigger] row@[j]) == (if j == x {
                        color
                    } else {
                        self.rows@[yi as int]@[j]
                    }),
            decreases self.rows@[yi as int]@.len() - i,
        {
            let c = if i == x as usize {
                color
            } else {
                self.rows[yi][i]
            };
            row.push(c);
            i = i + 1;
        }
        self.rows.set(yi, row);
    }
}

/// The binariser: 1 where (x, y) lies inside the image on a pixel other than
/// opaque white, 0 elsewhere (a transparent pixel counts as ink).
pub fn get_bw(img: &Raster, x: u32, y: u32) -> (r: u8)
    requires
        img.wf(),
    ensures
        r == img.sample(x as int, y as int),
        r == 1 <==> img.ink(x as int, y as int),
{
    if x >= img.width || y >= img.height {
        return 0;
    }
    let c = img.get_pixel(x, y);
    if c.r == 255 && c.g == 255 && c.b == 255 && c.a == 255 {
        return 0;
    }
    1
}

} // verus!
