//! Textures that are looked up rather than computed: the pixels of a decoded
//! image, and the choice between the two fields of a checker.

use crate::math::Color;
use image::{DynamicImage, GenericImageView};
use vstd::prelude::*;

verus! {

#[verifier::external_type_specification]
#[verifier::external_body]
pub struct ExDynamicImage(DynamicImage);

/// The width and the height of a decoded image, in pixels.
pub uninterp spec fn image_size(image: DynamicImage) -> (u32, u32);

/// The red, green and blue bytes of each pixel of a decoded image whose
/// channels are whole numbers, by column and row, counted from the top left.
/// Channels of 16 bits are scaled to bytes.
pub uninterp spec fn image_pixels(image: DynamicImage) -> Map<(u32, u32), (u8, u8, u8)>;

/// Whether the channels of a decoded image are whole numbers, of 8 or of 16
/// bits, and not floats.
pub uninterp spec fn image_integral(image: DynamicImage) -> bool;

/// The width of a decoded image.
///
/// This calls `DynamicImage::width` of the `image` crate, which hands out the
/// first of the image's dimensions.
#[verifier::external_body]
fn image_width(image: &DynamicImage) -> (r: u32)
    ensures
        r == image_size(*image).0,
{
    image.width()
}

/// The height of a decoded image.
///
/// This calls `DynamicImage::height` of the `image` crate, which hands out
/// the second of the image's dimensions.
#[verifier::external_body]
fn image_height(image: &DynamicImage) -> (r: u32)
    ensures
        r == image_size(*image).1,
{
    image.height()
}

/// The colour bytes of one pixel of a decoded image whose channels are
/// whole numbers, and none of an image whose channels are not.
///
/// This tells the variants of `DynamicImage` apart. For the eight variants
/// with channels of 8 or 16 bits it calls `GenericImageView::get_pixel` of
/// the `image` crate and keeps the first three channels of the pixel it
/// returns; for any other variant it makes no call, since `get_pixel` panics
/// on a channel of a float image that is not a number. `get_pixel` also
/// panics outside the image, so the column must lie below the width and the
/// row below the height.
#[verifier::external_body]
fn image_pixel(image: &DynamicImage, x: u32, y: u32) -> (r: Option<(u8, u8, u8)>)
    requires
        x < image_size(*image).0,
        y < image_size(*image).1,
    ensures
        r is Some <==> image_integral(*image),
        r matches Some(rgb) ==> rgb == image_pixels(*image)[(x, y)],
{
    match image {
        DynamicImage::ImageLuma8(_) | DynamicImage::ImageLumaA8(_) | DynamicImage::ImageRgb8(_)
        | DynamicImage::ImageRgba8(_) | DynamicImage::ImageLuma16(_)
        | DynamicImage::ImageLumaA16(_) | DynamicImage::ImageRgb16(_)
        | DynamicImage::ImageRgba16(_) => {
            let pixel = image.get_pixel(x, y);
            Some((pixel.0[0], pixel.0[1], pixel.0[2]))
        },
        _ => None,
    }
}

/// A texture whose colours are the pixels of a decoded image.
pub struct ImageTexture {
    image: DynamicImage,
}

impl ImageTexture {
    /// The decoded image behind this texture.
    pub closed spec fn spec_image(&self) -> DynamicImage {
        self.image
    }

    /// The column or row that a lookup at `at` lands on in an image of
    /// `extent` columns or rows: `at` itself, or the last one if `at` lies
    /// beyond it.
    pub open spec fn clamped(at: u32, extent: u32) -> u32 {
        if at >= extent {
            (extent - 1) as u32
        } else {
            at
        }
    }

    pub fn new(image: DynamicImage) -> (r: Self)
        ensures
            r.spec_image() == image,
    {
        Self { image }
    }

    /// The width of the image, in pixels.
    pub fn width(&self) -> (r: u32)
        ensures
            r == image_size(self.spec_image()).0,
    {
        image_width(&self.image)
    }

    /// The height of the image, in pixels.
    pub fn height(&self) -> (r: u32)
        ensures
            r == image_size(self.spec_image()).1,
    {
        image_height(&self.image)
    }

    /// The colour bytes of the pixel in column `i` and row `j`. A column or a
    /// row beyond the image is taken to be the last one. An image without
    /// pixels has no colour to give, and neither has an image whose channels
    /// are floats.
    pub fn texel(&self, i: u32, j: u32) -> (r: Option<(u8, u8, u8)>)
        ensures
            r is Some <==> image_size(self.spec_image()).0 > 0 && image_size(
                self.spec_image(),
            ).1 > 0 && image_integral(self.spec_image()),
            r matches Some(rgb) ==> rgb == image_pixels(self.spec_image())[(
                Self::clamped(i, image_size(self.spec_image()).0),
                Self::clamped(j, image_size(self.spec_image()).1),
            )],
    {
        let width: u32 = image_width(&self.image);
        let height: u32 = image_height(&self.image);
        if width == 0 || height == 0 {
            return None;
        }
        let mut i: u32 = i;
        let mut j: u32 = j;
        if i >= width {
            i = width - 1;
        }
        if j >= height {
            j = height - 1;
        }
        image_pixel(&self.image, i, j)
    }
}

/// A texture of one colour.
#[derive(Debug, Clone, Copy, PartialEq, Eq, Structural)]
pub struct SolidColorTexture {
    color: Color,
}

impl SolidColorTexture {
    pub closed spec fn spec_value(&self) -> Color {
        self.color
    }

    pub fn new(color: Color) -> (r: Self)
        ensures
            r.spec_value() == color,
    {
        Self { color }
    }

    /// The colour, the same at every point.
    #[verifier::when_used_as_spec(spec_value)]
    pub fn value(&self) -> (r: Color)
        ensures
            r == self.spec_value(),
    {
        self.color
    }
}

/// A checker in space: two textures, by their places in the scene's table
/// of textures, that take turns from field to field.
#[derive(Debug, Clone, Copy, PartialEq, Eq, Structural)]
pub struct CheckerTexture {
    pub odd: usize,
    pub even: usize,
}

impl CheckerTexture {
    pub fn new(odd: usize, even: usize) -> (r: Self)
        ensures
            r.odd == odd,
            r.even == even,
    {
        Self { odd, even }
    }

    /// The texture that colours a point: the odd one where `sines`, the
    /// product of the sines of the point's scaled coordinates, lies below
    /// `zero`, the rank of 0, and the even one elsewhere.
    pub open spec fn spec_field(self, sines: i64, zero: i64) -> usize {
        if sines < zero {
            self.odd
        } else {
            self.even
        }
    }

    /// The texture that colours a point.
    #[verifier::when_used_as_spec(spec_field)]
    pub fn field(self, sines: i64, zero: i64) -> (r: usize)
        ensures
            r == self.spec_field(sines, zero),
    {
        if sines < zero {
            self.odd
        } else {
            self.even
        }
    }
}

} // verus!
