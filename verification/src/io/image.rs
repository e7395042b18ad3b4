//! Grey renderings of scalar fields.

use vstd::prelude::*;
use crate::raster::{cell_index, lemma_cell_index, Rgb, RgbImage};
use crate::scalar::UNIT;

verus! {

/// The grey level that shows a noise value: the range from `-1.0` to `1.0`
/// is spread over `0..=255`, cut to whole numbers, and values outside it
/// are clamped.
pub open spec fn noise_level(value: int) -> int {
    let level = (value + UNIT) * 1275 / (10 * UNIT);
    if value + UNIT <= 0 {
        0
    } else if level >= 255 {
        255
    } else {
        level
    }
}

/// The three channels of the grey pixel that shows a noise value.
pub open spec fn noise_channels(value: i64) -> Seq<u8> {
    seq![
        noise_level(value as int) as u8,
        noise_level(value as int) as u8,
        noise_level(value as int) as u8,
    ]
}

/// The grey pixel that shows a noise value.
pub fn noise_pixel(value: i64) -> (pixel: Rgb)
    ensures
        pixel.channels() == noise_channels(value),
{
    let shifted: i128 = value as i128 + UNIT as i128;
    let level: u8 = if shifted <= 0 {
        0
    } else {
        let scaled: i128 = shifted * 1275 / (10 * (UNIT as i128));
        if scaled >= 255 {
            255
        } else {
            scaled as u8
        }
    };
    Rgb::grey(level)
}

/// Whether the cell `(x, y)` of `image` shows what `noise_map` holds for
/// it: the grey of the value, or black where the row holds none.
pub open spec fn shows_noise(image: Seq<Rgb>, noise_map: Seq<Vec<i64>>, x: int, y: int) -> bool {
    image[cell_index(x, y, noise_map[0]@.len() as int)].channels() == if x < noise_map[y]@.len() {
        noise_channels(noise_map[y]@[x])
    } else {
        seq![0u8, 0u8, 0u8]
    }
}

/// Renders a noise map, given row by row, as a grey raster as wide as the
/// first row and as high as the map.
pub fn generate_image(noise_map: &Vec<Vec<i64>>) -> (image: RgbImage)
    requires
        noise_map@.len() > 0,
        noise_map@.len() <= u32::MAX,
        noise_map@[0]@.len() <= u32::MAX,
        noise_map@[0]@.len() * noise_map@.len() <= usize::MAX,
        forall|y: int| 0 <= y < noise_map@.len() ==> (#[trigger] noise_map@[y])@.len() <= noise_map@[0]@.len(),
    ensures
        image.columns() == noise_map@[0]@.len(),
        image.rows() == noise_map@.len(),
        image@.len() == noise_map@[0]@.len() * noise_map@.len(),
        forall|x: int, y: int|
            0 <= x < noise_map@[0]@.len() && 0 <= y < noise_map@.len() ==> #[trigger] shows_noise(
                image@,
                noise_map@,
                x,
                y,
            ),
{
    let width: usize = noise_map[0].len();
    let height: usize = noise_map.len();
    let mut imgbuf = RgbImage::new(width as u32, height as u32);
    proof {
        assert forall|x: int, y: int| 0 <= x < width && 0 <= y < height implies imgbuf@[cell_index(
            x,
            y,
            width as int,
        )].channels() == seq![0u8, 0u8, 0u8] by {
            lemma_cell_index(x, y, width as int, height as int);
        }
    }
    let mut y: usize = 0;
    while y < height
        invariant
            y <= height,
            width == noise_map@[0]@.len(),
            height == noise_map@.len(),
            width <= u32::MAX,
            height <= u32::MAX,
            imgbuf.columns() == width,
            imgbuf.rows() == height,
            imgbuf@.len() == width * height,
            forall|r: int| 0 <= r < height ==> (#[trigger] noise_map@[r])@.len() <= width,
            forall|c: int, r: int|
                0 <= c < width && 0 <= r < y ==> #[trigger] shows_noise(imgbuf@, noise_map@, c, r),
            forall|c: int, r: int|
                0 <= c < width && y <= r < height ==> imgbuf@[#[trigger] cell_index(
                    c,
                    r,
                    width as int,
                )].channels() == seq![0u8, 0u8, 0u8],
        decreases height - y,
    {
        let row = &noise_map[y];
        let mut x: usize = 0;
        while x < row.len()
            invariant
                x <= row@.len(),
                y < height,
                *row == noise_map@[y as int],
                row@.len() <= width,
                width == noise_map@[0]@.len(),
                height == noise_map@.len(),
                width <= u32::MAX,
                height <= u32::MAX,
                imgbuf.columns() == width,
                imgbuf.rows() == height,
                imgbuf@.len() == width * height,
                forall|c: int, r: int|
                    0 <= c < width && 0 <= r < y ==> #[trigger] shows_noise(
                        imgbuf@,
                        noise_map@,
                        c,
                        r,
                    ),
                forall|c: int| 0 <= c < x ==> #[trigger] shows_noise(imgbuf@, noise_map@, c, y as int),
                forall|c: int, r: int|
                    0 <= c < width && y <= r < height && !(r == y && c < x) ==> imgbuf@[#[trigger] cell_index(
                        c,
                        r,
                        width as int,
                    )].channels() == seq![0u8, 0u8, 0u8],
            decreases row@.len() - x,
        {
            let ghost before = imgbuf@;
            imgbuf.put_pixel(x as u32, y as u32, noise_pixel(row[x]));
            proof {
                let at = cell_index(x as int, y as int, width as int);
                lemma_cell_index(x as int, y as int, width as int, height as int);
                assert forall|c: int, r: int| 0 <= c < width && 0 <= r < y implies #[trigger] shows_noise(
                    imgbuf@,
                    noise_map@,
                    c,
                    r,
                ) by {
                    lemma_cell_index(c, r, width as int, height as int);
                    assert(cell_index(c, r, width as int) != at);
                    assert(shows_noise(before, noise_map@, c, r));
                }
                assert forall|c: int| 0 <= c < x + 1 implies #[trigger] shows_noise(
                    imgbuf@,
                    noise_map@,
                    c,
                    y as int,
                ) by {
                    lemma_cell_index(c, y as int, width as int, height as int);
                    if c < x {
                        assert(cell_index(c, y as int, width as int) != at);
                        assert(shows_noise(before, noise_map@, c, y as int));
                    }
                }
                assert forall|c: int, r: int|
                    0 <= c < width && y <= r < height && !(r == y && c < x + 1) implies imgbuf@[#[trigger] cell_index(
                    c,
                    r,
                    width as int,
                )].channels() == seq![0u8, 0u8, 0u8] by {
                    lemma_cell_index(c, r, width as int, height as int);
                    assert(cell_index(c, r, width as int) != at);
                }
            }
            x = x + 1;
        }
        proof {
            assert forall|c: int| 0 <= c < width implies #[trigger] shows_noise(
                imgbuf@,
                noise_map@,
                c,
                y as int,
            ) by {
                lemma_cell_index(c, y as int, width as int, height as int);
                if c >= x {
                    assert(imgbuf@[cell_index(c, y as int, width as int)].channels() == seq![
                        0u8,
                        0u8,
                        0u8,
                    ]);
                }
            }
        }
        y = y + 1;
    }
    imgbuf
}

} // verus!
