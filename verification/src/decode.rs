//! From the bytes of an image file to a picture, and from a picture to a
//! smaller one.

use vstd::prelude::*;
use crate::raster::{is_picture, shown, PageImage, Raster};

verus! {

/// `image::ImageError`, the reason for which the image crate refuses bytes.
/// Only that there is one is used.
#[verifier::external_type_specification]
#[verifier::external_body]
pub struct ExImageError(image::ImageError);

/// What `image::load_from_memory` makes of `bytes`, as four bytes to the
/// pixel: width, height and pixels, or `None` where it gives an error.
pub uninterp spec fn decoded_rgba(bytes: Seq<u8>) -> Option<(u32, u32, Seq<u8>)>;

/// What `image::DynamicImage::resize` makes, with the `Triangle` filter, of the
/// picture of `width` by `height` pixels in `pixels`, for the bounds
/// `max_width` and `max_height`: width, height and pixels, or `None` where
/// `pixels` is too short for such a picture.
pub uninterp spec fn resized_rgba(
    width: u32,
    height: u32,
    pixels: Seq<u8>,
    max_width: u32,
    max_height: u32,
) -> Option<(u32, u32, Seq<u8>)>;

/// Calls `image::load_from_memory` on `bytes` and hands out the picture as
/// `into_rgba8` gives it. Nothing is claimed of the picture but that it is the
/// one that these bytes always give.
#[verifier::external_body]
fn decode_rgba(bytes: &Vec<u8>) -> (decoded: Result<(u32, u32, Vec<u8>), image::ImageError>)
    ensures
        match decoded {
            Ok(parts) => decoded_rgba(bytes@) == Some((parts.0, parts.1, parts.2@)),
            Err(_) => decoded_rgba(bytes@) is None,
        },
{
    let picture = image::load_from_memory(bytes)?.into_rgba8();
    Ok((picture.width(), picture.height(), picture.into_raw()))
}

/// Calls `image::DynamicImage::resize` with the `Triangle` filter on the
/// picture in `pixels`. The library's documentation says that the result keeps
/// the proportions and is as large as fits within the bounds; of that, the
/// contract claims that neither bound is exceeded and one of them is
/// reached.
#[verifier::external_body]
fn resize_rgba(width: u32, height: u32, pixels: Vec<u8>, max_width: u32, max_height: u32) -> (resized:
    Option<(u32, u32, Vec<u8>)>)
    requires
        is_picture(width as nat, height as nat, pixels@),
        max_width >= 1,
        max_height >= 1,
    ensures
        match resized {
            Some(parts) => resized_rgba(width, height, pixels@, max_width, max_height) == Some(
                (parts.0, parts.1, parts.2@),
            ) && parts.0 <= max_width && parts.1 <= max_height && (parts.0 == max_width
                || parts.1 == max_height),
            None => resized_rgba(width, height, pixels@, max_width, max_height) is None,
        },
{
    let source = image::RgbaImage::from_raw(width, height, pixels)?;
    let filter = image::imageops::FilterType::Triangle;
    let picture = image::DynamicImage::ImageRgba8(source).resize(max_width, max_height, filter);
    let picture = picture.into_rgba8();
    Some((picture.width(), picture.height(), picture.into_raw()))
}

/// The picture that is made of the parts `parts`, where they are a picture.
pub open spec fn picture_of(parts: Option<(u32, u32, Seq<u8>)>) -> Option<Raster> {
    match parts {
        Some((width, height, pixels)) => if is_picture(width as nat, height as nat, pixels) {
            Some(Raster { width: width as nat, height: height as nat, pixels })
        } else {
            None
        },
        None => None,
    }
}

/// The picture that the image file `bytes` holds, or `None` where the bytes
/// are no image that can be shown.
pub open spec fn decoded(bytes: Seq<u8>) -> Option<Raster> {
    picture_of(decoded_rgba(bytes))
}

/// `picture` made to fit within `max_width` by `max_height` pixels; `None`
/// where a bound is 0 or no picture comes of it.
pub open spec fn fitted(picture: Raster, max_width: u32, max_height: u32) -> Option<Raster> {
    if max_width == 0 || max_height == 0 {
        None
    } else {
        picture_of(
            resized_rgba(
                picture.width as u32,
                picture.height as u32,
                picture.pixels,
                max_width,
                max_height,
            ),
        )
    }
}

/// The picture that the image file `bytes` holds, or `None` where the bytes
/// are no image that can be shown.
pub fn decode_page(bytes: &Vec<u8>) -> (page: Option<PageImage>)
    ensures
        shown(page) == decoded(bytes@),
{
    match decode_rgba(bytes) {
        Ok(parts) => PageImage::new(parts.0, parts.1, parts.2),
        Err(_) => None,
    }
}

/// `image` made as large as fits within `max_width` by `max_height` pixels,
/// with its proportions kept, or `None` where no such picture could be made.
pub fn fit_within(image: PageImage, max_width: u32, max_height: u32) -> (fit: Option<PageImage>)
    ensures
        shown(fit) == fitted(image@, max_width, max_height),
        fit matches Some(small) ==> small@.width <= max_width && small@.height <= max_height && (
        small@.width == max_width || small@.height == max_height),
{
    if max_width == 0 || max_height == 0 {
        return None;
    }
    let width = image.width();
    let height = image.height();
    let pixels = image.into_pixels();
    match resize_rgba(width, height, pixels, max_width, max_height) {
        Some(parts) => PageImage::new(parts.0, parts.1, parts.2),
        None => None,
    }
}

} // verus!
