use vstd::prelude::*;

verus! {

/// A grayscale image as the translation logic reads it: one brightness
/// byte per pixel, row-major. Decoding into and encoding out of this form
/// is the surrounding application's business.
pub struct PixelImage {
    width: u32,
    height: u32,
    pixels: Vec<u8>,
}

impl PixelImage {
    #[verifier::type_invariant]
    spec fn wf(self) -> bool {
        self.pixels@.len() == (self.width as int) * (self.height as int)
    }

    /// The image's width in pixels, as the contracts speak of it.
    pub closed spec fn spec_width(&self) -> u32 {
        self.width
    }

    /// The image's height in pixels, as the contracts speak of it.
    pub closed spec fn spec_height(&self) -> u32 {
        self.height
    }

    /// The image's pixel bytes, as the contracts speak of them.
    pub closed spec fn spec_pixels(&self) -> Seq<u8> {
        self.pixels@
    }

    /// Accepts exactly a pixel buffer whose length matches the claimed
    /// dimensions.
    pub fn new(width: u32, height: u32, pixels: Vec<u8>) -> (r: Option<PixelImage>)
        ensures
            r is Some <==> (width as int) * (height as int) == pixels@.len(),
            r matches Some(img) ==> img.spec_width() == width && img.spec_height() == height
                && img.spec_pixels() == pixels@,
    {
        let n = pixels.len();
        match (width as usize).checked_mul(height as usize) {
            Some(area) => {
                if area == n {
                    Some(PixelImage { width, height, pixels })
                } else {
                    None
                }
            },
            None => None,
        }
    }

    /// Width in pixels.
    pub fn width(&self) -> (w: u32)
        ensures
            w == self.spec_width(),
    {
        self.width
    }

    /// Height in pixels.
    pub fn height(&self) -> (h: u32)
        ensures
            h == self.spec_height(),
    {
        self.height
    }

    /// The pixel bytes, row-major.
    pub fn pixels(&self) -> (p: &Vec<u8>)
        ensures
            p@ == self.spec_pixels(),
            p@.len() == (self.spec_width() as int) * (self.spec_height() as int),
    {
        proof {
            use_type_invariant(self);
        }
        &self.pixels
    }
}

} // verus!
