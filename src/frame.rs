use vstd::prelude::*;

use image::DynamicImage;
use image::GenericImage;

verus! {

#[verifier::external_type_specification]
#[verifier::external_body]
pub struct ExDynamicImage(DynamicImage);

/// The pixels of an image, as `GenericImageView::get_pixel` reads them: one
/// `[red, green, blue, alpha]` entry for each `(x, y)` inside the image.
pub uninterp spec fn image_pixels(img: DynamicImage) -> Map<(u32, u32), Seq<u8>>;

/// Whether an image stores its pixels as 8-bit RGBA.
pub uninterp spec fn image_is_rgba8(img: DynamicImage) -> bool;

/// The pixel map of a `width` × `height` image whose every pixel is `px`.
pub open spec fn filled(width: u32, height: u32, px: Seq<u8>) -> Map<(u32, u32), Seq<u8>> {
    Map::new(|p: (u32, u32)| p.0 < width && p.1 < height, |p: (u32, u32)| px)
}

/// Relies on `DynamicImage::new_rgba8`: an 8-bit RGBA image of the given size,
/// every byte zero. It panics when `4 * width`, or that times `height`,
/// overflows `usize`.
#[verifier::external_body]
pub(crate) fn new_rgba8(width: u32, height: u32) -> (img: DynamicImage)
    requires
        4 * (width as int) <= usize::MAX,
        4 * (width as int) * (height as int) <= usize::MAX,
    ensures
        image_is_rgba8(img),
        image_pixels(img) == filled(width, height, seq![0u8, 0u8, 0u8, 0u8]),
{
    DynamicImage::new_rgba8(width, height)
}

/// Relies on `GenericImage::put_pixel` for `DynamicImage`: on an RGBA8 image it
/// stores the pixel at `(x, y)` as given and leaves the others. It panics when
/// `(x, y)` lies outside the image.
#[verifier::external_body]
pub(crate) fn put_pixel(img: &mut DynamicImage, x: u32, y: u32, px: [u8; 4])
    requires
        image_is_rgba8(*old(img)),
        image_pixels(*old(img)).contains_key((x, y)),
    ensures
        image_is_rgba8(*final(img)),
        image_pixels(*final(img)) == image_pixels(*old(img)).insert((x, y), px@),
{
    img.put_pixel(x, y, image::Rgba(px));
}

} // verus!
