use fungal_jungle::io::image::{generate_image, noise_pixel};
use fungal_jungle::raster::Rgb;

#[test]
fn noise_pixel_spreads_minus_one_to_one() {
    assert_eq!(noise_pixel(-1_000_000), Rgb([0, 0, 0]));
    assert_eq!(noise_pixel(0), Rgb([127, 127, 127]));
    assert_eq!(noise_pixel(1_000_000), Rgb([255, 255, 255]));
    assert_eq!(noise_pixel(500_000), Rgb([191, 191, 191]));
    assert_eq!(noise_pixel(-500_000), Rgb([63, 63, 63]));
    assert_eq!(noise_pixel(-992_157), Rgb([0, 0, 0]));
    assert_eq!(noise_pixel(-992_156), Rgb([1, 1, 1]));
}

#[test]
fn noise_pixel_clamps() {
    assert_eq!(noise_pixel(-1_000_001), Rgb([0, 0, 0]));
    assert_eq!(noise_pixel(i64::MIN), Rgb([0, 0, 0]));
    assert_eq!(noise_pixel(1_000_001), Rgb([255, 255, 255]));
    assert_eq!(noise_pixel(i64::MAX), Rgb([255, 255, 255]));
}

#[test]
fn image_has_one_pixel_per_value() {
    let map = vec![vec![-1_000_000, 0, 1_000_000], vec![500_000, -500_000, 250_000]];
    let image = generate_image(&map);
    assert_eq!(image.width(), 3);
    assert_eq!(image.height(), 2);
    assert_eq!(image.get_pixel(0, 0), Rgb([0, 0, 0]));
    assert_eq!(image.get_pixel(1, 0), Rgb([127, 127, 127]));
    assert_eq!(image.get_pixel(2, 0), Rgb([255, 255, 255]));
    assert_eq!(image.get_pixel(0, 1), Rgb([191, 191, 191]));
    assert_eq!(image.get_pixel(1, 1), Rgb([63, 63, 63]));
    assert_eq!(image.get_pixel(2, 1), Rgb([159, 159, 159]));
}

#[test]
fn short_rows_leave_black() {
    let map = vec![vec![1_000_000, 1_000_000, 1_000_000], vec![1_000_000], vec![]];
    let image = generate_image(&map);
    assert_eq!(image.width(), 3);
    assert_eq!(image.height(), 3);
    assert_eq!(image.get_pixel(0, 1), Rgb([255, 255, 255]));
    assert_eq!(image.get_pixel(1, 1), Rgb([0, 0, 0]));
    assert_eq!(image.get_pixel(2, 1), Rgb([0, 0, 0]));
    assert_eq!(image.get_pixel(0, 2), Rgb([0, 0, 0]));
    assert_eq!(image.get_pixel(2, 0), Rgb([255, 255, 255]));
}

#[test]
fn map_of_one_empty_row_is_an_empty_image() {
    let map: Vec<Vec<i64>> = vec![vec![]];
    let image = generate_image(&map);
    assert_eq!(image.width(), 0);
    assert_eq!(image.height(), 1);
}
