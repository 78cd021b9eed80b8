//! Decoded pictures: rows of pixels, four bytes to a pixel (red, green, blue,
//! alpha), with their width and height.

use vstd::prelude::*;

verus! {

/// A picture as a value: its size and its bytes.
pub struct Raster {
    pub width: nat,
    pub height: nat,
    pub pixels: Seq<u8>,
}

/// Whether `pixels` holds exactly a picture of `width` by `height` pixels, and
/// the picture is not empty.
pub open spec fn is_picture(width: nat, height: nat, pixels: Seq<u8>) -> bool {
    width >= 1 && height >= 1 && pixels.len() == 4 * width * height
}

/// A decoded picture that can be drawn.
pub struct PageImage {
    width: u32,
    height: u32,
    pixels: Vec<u8>,
}

impl View for PageImage {
    type V = Raster;

    closed spec fn view(&self) -> Raster {
        Raster { width: self.width as nat, height: self.height as nat, pixels: self.pixels@ }
    }
}

impl PageImage {
    #[verifier::type_invariant]
    spec fn well_formed(self) -> bool {
        is_picture(self.width as nat, self.height as nat, self.pixels@)
    }

    /// The picture of `width` by `height` pixels that `pixels` holds, or `None`
    /// where the bytes are not exactly such a picture.
    pub fn new(width: u32, height: u32, pixels: Vec<u8>) -> (made: Option<PageImage>)
        ensures
            made is Some <==> is_picture(width as nat, height as nat, pixels@),
            made matches Some(image) ==> image@ == (Raster {
                width: width as nat,
                height: height as nat,
                pixels: pixels@,
            }),
    {
        if width == 0 || height == 0 {
            return None;
        }
        proof {
            assert((width as int) * (height as int) <= 0xFFFF_FFFF * 0xFFFF_FFFF) by (nonlinear_arith)
                requires
                    0 <= width <= 0xFFFF_FFFF,
                    0 <= height <= 0xFFFF_FFFF,
            ;
        }
        let area: u64 = (width as u64) * (height as u64);
        let needed: u128 = 4 * (area as u128);
        if pixels.len() as u128 == needed {
            proof {
                assert(4 * (width as nat) * (height as nat) == 4 * ((width as nat) * (height as nat)))
                    by (nonlinear_arith);
            }
            Some(PageImage { width, height, pixels })
        } else {
            proof {
                assert(4 * (width as nat) * (height as nat) == 4 * ((width as nat) * (height as nat)))
                    by (nonlinear_arith);
            }
            None
        }
    }

    /// The number of pixels in a row.
    pub fn width(&self) -> (width: u32)
        ensures
            width == self@.width,
            width >= 1,
    {
        proof {
            use_type_invariant(self);
        }
        self.width
    }

    /// The number of rows.
    pub fn height(&self) -> (height: u32)
        ensures
            height == self@.height,
            height >= 1,
    {
        proof {
            use_type_invariant(self);
        }
        self.height
    }

    /// The bytes of the pixels, row after row.
    pub fn pixels(&self) -> (pixels: &Vec<u8>)
        ensures
            pixels@ == self@.pixels,
            is_picture(self@.width, self@.height, self@.pixels),
    {
        proof {
            use_type_invariant(self);
        }
        &self.pixels
    }

    /// The bytes of the pixels, row after row, as the picture's owner.
    pub fn into_pixels(self) -> (pixels: Vec<u8>)
        ensures
            pixels@ == self@.pixels,
            is_picture(self@.width, self@.height, self@.pixels),
    {
        proof {
            use_type_invariant(&self);
        }
        self.pixels
    }
}

/// The picture that `image` holds, where there is one.
pub open spec fn shown(image: Option<PageImage>) -> Option<Raster> {
    match image {
        Some(image) => Some(image@),
        None => None,
    }
}

} // verus!
