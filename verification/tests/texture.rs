use image::{DynamicImage, GrayImage, ImageBuffer, Rgb, Rgb32FImage, RgbImage, Rgba32FImage, RgbaImage};
use pathtracer::math::Point;
use pathtracer::texture::{CheckerTexture, ImageTexture, SolidColorTexture};

/// An image of three columns and two rows whose pixel in column x and row y
/// holds the bytes (10 x, 20 y, x + y).
fn small_image() -> DynamicImage {
    let mut raw = Vec::new();
    for y in 0..2u8 {
        for x in 0..3u8 {
            raw.push(10 * x);
            raw.push(20 * y);
            raw.push(x + y);
        }
    }
    DynamicImage::ImageRgb8(RgbImage::from_raw(3, 2, raw).unwrap())
}

#[test]
fn image_texture_knows_its_size() {
    let texture = ImageTexture::new(small_image());
    assert_eq!(texture.width(), 3);
    assert_eq!(texture.height(), 2);
}

#[test]
fn image_texture_hands_out_its_pixels() {
    let texture = ImageTexture::new(small_image());
    for y in 0..2u32 {
        for x in 0..3u32 {
            assert_eq!(texture.texel(x, y), Some((10 * x as u8, 20 * y as u8, (x + y) as u8)));
        }
    }
}

#[test]
fn image_texture_takes_the_last_column_and_row_beyond_the_image() {
    let texture = ImageTexture::new(small_image());
    assert_eq!(texture.texel(3, 0), Some((20, 0, 2)));
    assert_eq!(texture.texel(0, 2), Some((0, 20, 1)));
    assert_eq!(texture.texel(u32::MAX, u32::MAX), Some((20, 20, 3)));
}

#[test]
fn image_texture_without_pixels_has_no_colour() {
    let empty = ImageTexture::new(DynamicImage::ImageRgb8(RgbImage::new(0, 0)));
    assert_eq!(empty.texel(0, 0), None);
    let flat = ImageTexture::new(DynamicImage::ImageRgb8(RgbImage::new(4, 0)));
    assert_eq!(flat.width(), 4);
    assert_eq!(flat.height(), 0);
    assert_eq!(flat.texel(1, 0), None);
}

#[test]
fn image_texture_drops_the_fourth_channel() {
    let raw = vec![1, 2, 3, 200, 4, 5, 6, 100];
    let texture = ImageTexture::new(DynamicImage::ImageRgba8(RgbaImage::from_raw(2, 1, raw).unwrap()));
    assert_eq!(texture.texel(0, 0), Some((1, 2, 3)));
    assert_eq!(texture.texel(1, 0), Some((4, 5, 6)));
}

#[test]
fn image_texture_of_a_grey_image_is_grey() {
    let texture = ImageTexture::new(DynamicImage::ImageLuma8(GrayImage::from_raw(2, 1, vec![7, 250]).unwrap()));
    assert_eq!(texture.texel(0, 0), Some((7, 7, 7)));
    assert_eq!(texture.texel(1, 0), Some((250, 250, 250)));
}

#[test]
fn solid_texture_has_one_colour() {
    let colour = Point::new(3, 4, 5);
    assert_eq!(SolidColorTexture::new(colour).value(), colour);
}

#[test]
fn checker_takes_the_odd_texture_below_zero() {
    let checker = CheckerTexture::new(11, 22);
    assert_eq!(checker.field(-1, 0), 11);
    assert_eq!(checker.field(0, 0), 22);
    assert_eq!(checker.field(1, 0), 22);
    assert_eq!(checker.field(99, 100), 11);
}

#[test]
fn image_texture_of_sixteen_bits_is_scaled_to_bytes() {
    let raw: Vec<u16> = vec![0, 65535, 32768, 257, 514, 128];
    let image: ImageBuffer<Rgb<u16>, Vec<u16>> = ImageBuffer::from_raw(2, 1, raw).unwrap();
    let texture = ImageTexture::new(DynamicImage::ImageRgb16(image));
    assert_eq!(texture.texel(0, 0), Some((0, 255, 128)));
    assert_eq!(texture.texel(1, 0), Some((1, 2, 0)));
}

#[test]
fn image_texture_of_floats_has_no_colour() {
    let image = Rgb32FImage::from_raw(2, 1, vec![0.0, 0.5, 1.0, 0.25, 0.25, 0.25]).unwrap();
    let texture = ImageTexture::new(DynamicImage::ImageRgb32F(image));
    assert_eq!((texture.width(), texture.height()), (2, 1));
    assert_eq!(texture.texel(0, 0), None);
    assert_eq!(texture.texel(1, 0), None);
    let image = Rgba32FImage::from_raw(1, 1, vec![0.0, 0.5, 1.0, 1.0]).unwrap();
    assert_eq!(ImageTexture::new(DynamicImage::ImageRgba32F(image)).texel(0, 0), None);
}

#[test]
fn image_texture_of_floats_that_are_no_numbers_has_no_colour_either() {
    let image = Rgb32FImage::from_raw(1, 1, vec![f32::NAN, 0.5, f32::NAN]).unwrap();
    let texture = ImageTexture::new(DynamicImage::ImageRgb32F(image));
    assert_eq!(texture.texel(0, 0), None);
    assert_eq!(texture.texel(7, 7), None);
}
