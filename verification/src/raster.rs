//! A minimal RGB raster: a rectangle of pixels stored row by row.

use vstd::prelude::*;

verus! {

/// One pixel: red, green and blue, eight bits each.
#[derive(Clone, Copy, Debug, PartialEq, Eq)]
pub struct Rgb(pub [u8; 3]);

impl Rgb {
    /// The three channels as a sequence `[red, green, blue]`.
    pub open spec fn channels(self) -> Seq<u8> {
        self.0@
    }

    /// The grey pixel whose three channels all equal `value`.
    pub fn grey(value: u8) -> (pixel: Rgb)
        ensures
            pixel.channels() == seq![value, value, value],
    {
        Rgb([value, value, value])
    }

    /// The pixel with an opaque alpha channel appended.
    pub fn to_rgba(&self) -> (rgba: [u8; 4])
        ensures
            rgba@ == self.channels().push(255u8),
    {
        [self.0[0], self.0[1], self.0[2], 255]
    }
}

/// The position of the cell at column `x` of row `y` in a row-major grid
/// with `width` cells per row.
pub open spec fn cell_index(x: int, y: int, width: int) -> int {
    y * width + x
}

/// A cell inside a `width` by `height` grid has its position inside the
/// grid's storage, and distinct cells have distinct positions.
pub proof fn lemma_cell_index(x: int, y: int, width: int, height: int)
    requires
        0 <= x < width,
        0 <= y < height,
    ensures
        0 <= cell_index(x, y, width) < width * height,
        cell_index(x, y, width) / width == y,
        cell_index(x, y, width) % width == x,
{
    assert(0 <= y * width && y * width + width <= height * width) by (nonlinear_arith)
        requires
            0 <= y < height,
            0 < width,
    ;
    assert(height * width == width * height) by (nonlinear_arith);
    vstd::arithmetic::div_mod::lemma_fundamental_div_mod_converse(y * width + x, width, y, x);
}

/// A `width` by `height` rectangle of pixels in row-major order.
pub struct RgbImage {
    width: u32,
    height: u32,
    pixels: Vec<Rgb>,
}

impl RgbImage {
    /// The pixels, row by row: the pixel at column `x` of row `y` stands at
    /// `cell_index(x, y, width)`.
    pub closed spec fn view(&self) -> Seq<Rgb> {
        self.pixels@
    }

    /// The number of columns.
    pub closed spec fn columns(&self) -> u32 {
        self.width
    }

    /// The number of rows.
    pub closed spec fn rows(&self) -> u32 {
        self.height
    }

    /// The raster holds exactly one pixel for each cell.
    #[verifier::type_invariant]
    spec fn one_pixel_per_cell(&self) -> bool {
        self.pixels@.len() == self.width * self.height
    }

    /// An all-black raster of the given size.
    pub fn new(width: u32, height: u32) -> (image: RgbImage)
        requires
            width * height <= usize::MAX,
        ensures
            image.columns() == width,
            image.rows() == height,
            image@.len() == width * height,
            forall|i: int| 0 <= i < image@.len() ==> image@[i].channels() == seq![0u8, 0u8, 0u8],
    {
        assert((width as usize) * (height as usize) == width * height) by (nonlinear_arith);
        let total: usize = (width as usize) * (height as usize);
        let mut pixels: Vec<Rgb> = Vec::new();
        let mut i: usize = 0;
        while i < total
            invariant
                i <= total,
                pixels@.len() == i,
                forall|k: int| 0 <= k < i ==> pixels@[k].channels() == seq![0u8, 0u8, 0u8],
            decreases total - i,
        {
            pixels.push(Rgb([0, 0, 0]));
            i = i + 1;
        }
        RgbImage { width, height, pixels }
    }

    /// The raster of the given size that holds `pixels`, row by row.
    pub fn from_pixels(width: u32, height: u32, pixels: Vec<Rgb>) -> (image: RgbImage)
        requires
            pixels@.len() == width * height,
        ensures
            image.columns() == width,
            image.rows() == height,
            image@ == pixels@,
    {
        RgbImage { width, height, pixels }
    }

    /// The pixels, row by row.
    pub fn pixels(&self) -> (pixels: &Vec<Rgb>)
        ensures
            pixels@ == self@,
            pixels@.len() == self.columns() * self.rows(),
    {
        proof {
            use_type_invariant(self);
        }
        &self.pixels
    }

    /// The number of columns.
    pub fn width(&self) -> (w: u32)
        ensures
            w == self.columns(),
            self@.len() == self.columns() * self.rows(),
    {
        proof {
            use_type_invariant(self);
        }
        self.width
    }

    /// The number of rows.
    pub fn height(&self) -> (h: u32)
        ensures
            h == self.rows(),
            self@.len() == self.columns() * self.rows(),
    {
        proof {
            use_type_invariant(self);
        }
        self.height
    }

    /// The pixel at column `x` of row `y`.
    pub fn get_pixel(&self, x: u32, y: u32) -> (pixel: Rgb)
        requires
            x < self.columns(),
            y < self.rows(),
        ensures
            pixel == self@[cell_index(x as int, y as int, self.columns() as int)],
    {
        proof {
            use_type_invariant(self);
            lemma_cell_index(x as int, y as int, self.width as int, self.height as int);
        }
        let total: usize = self.pixels.len();
        assert(y * self.width + x < total);
        let at: usize = (y as usize) * (self.width as usize) + (x as usize);
        self.pixels[at]
    }

    /// Sets the pixel at column `x` of row `y` and leaves every other pixel
    /// as it was.
    pub fn put_pixel(&mut self, x: u32, y: u32, pixel: Rgb)
        requires
            x < old(self).columns(),
            y < old(self).rows(),
        ensures
            final(self).columns() == old(self).columns(),
            final(self).rows() == old(self).rows(),
            final(self)@ == old(self)@.update(
                cell_index(x as int, y as int, old(self).columns() as int),
                pixel,
            ),
    {
        proof {
            use_type_invariant(&*self);
            lemma_cell_index(x as int, y as int, self.width as int, self.height as int);
        }
        let total: usize = self.pixels.len();
        assert(y * self.width + x < total);
        let total: usize = self.pixels.len();
        assert(y * self.width + x < total);
        let at: usize = (y as usize) * (self.width as usize) + (x as usize);
        self.pixels[at] = pixel;
    }
}

} // verus!
