use fungal_jungle::raster::{Rgb, RgbImage};
use fungal_jungle::scalar::{offset, UNBOUNDED_ABOVE, UNBOUNDED_BELOW, UNIT};

#[test]
fn unit_is_one_million() {
    assert_eq!(UNIT, 1_000_000);
    assert_eq!(UNBOUNDED_BELOW, i64::MIN);
    assert_eq!(UNBOUNDED_ABOVE, i64::MAX);
}

#[test]
fn offset_adds_inside_the_range() {
    assert_eq!(offset(-25_000, 700_000), 675_000);
    assert_eq!(offset(0, -30_000_000), -30_000_000);
}

#[test]
fn offset_saturates_at_both_ends() {
    assert_eq!(offset(i64::MAX, 700_000), i64::MAX);
    assert_eq!(offset(i64::MAX - 5, 700_000), i64::MAX);
    assert_eq!(offset(i64::MIN, -1), i64::MIN);
    assert_eq!(offset(i64::MIN, 100_000), i64::MIN + 100_000);
}

#[test]
fn grey_pixel_repeats_its_level() {
    assert_eq!(Rgb::grey(17), Rgb([17, 17, 17]));
}

#[test]
fn rgba_appends_opaque_alpha() {
    assert_eq!(Rgb([1, 2, 3]).to_rgba(), [1, 2, 3, 255]);
}

#[test]
fn new_raster_is_black() {
    let image = RgbImage::new(3, 2);
    assert_eq!(image.width(), 3);
    assert_eq!(image.height(), 2);
    for y in 0..2 {
        for x in 0..3 {
            assert_eq!(image.get_pixel(x, y), Rgb([0, 0, 0]));
        }
    }
}

#[test]
fn put_pixel_changes_one_cell() {
    let mut image = RgbImage::new(3, 2);
    image.put_pixel(2, 1, Rgb([9, 8, 7]));
    image.put_pixel(0, 0, Rgb([1, 1, 1]));
    for y in 0..2 {
        for x in 0..3 {
            let expected = if (x, y) == (2, 1) {
                Rgb([9, 8, 7])
            } else if (x, y) == (0, 0) {
                Rgb([1, 1, 1])
            } else {
                Rgb([0, 0, 0])
            };
            assert_eq!(image.get_pixel(x, y), expected);
        }
    }
}

#[test]
fn empty_raster_has_no_pixels() {
    let image = RgbImage::new(0, 5);
    assert_eq!(image.width(), 0);
    assert_eq!(image.height(), 5);
}

#[test]
fn raster_from_pixels_keeps_them_in_place() {
    let pixels = vec![Rgb([1, 0, 0]), Rgb([2, 0, 0]), Rgb([3, 0, 0]), Rgb([4, 0, 0]), Rgb([5, 0, 0]), Rgb([6, 0, 0])];
    let image = RgbImage::from_pixels(3, 2, pixels.clone());
    assert_eq!(image.pixels(), &pixels);
    assert_eq!(image.get_pixel(0, 1), Rgb([4, 0, 0]));
    assert_eq!(image.get_pixel(2, 0), Rgb([3, 0, 0]));
}
