use vstd::prelude::*;

use crate::brightness_char_map::BrightnessCharMap;
use crate::pixel_image::PixelImage;
use crate::resize::{lanczos3_of, resize_lanczos3};
use crate::text::{spec_text, translate};

verus! {

/// How much an image's height is shrunk before translation, to offset
/// glyph cells being taller than wide.
pub const HEIGHT_SHRINK_AMOUNT: u32 = 2;

/// Translation of a whole image into one string of symbols, through a
/// dense brightness table.
pub trait AsChars {
    /// The text this image translates to through the given table.
    spec fn as_chars_spec(&self, lut: Seq<char>) -> Seq<char>;

    /// The image sizes the resampler accepts.
    spec fn as_chars_req(&self) -> bool;

    /// Shrinks the image's height, then maps every pixel of the result to
    /// its symbol, with a line break after each pixel row.
    fn as_chars(&self, char_map: &BrightnessCharMap) -> (s: String)
        requires
            self.as_chars_req(),
        ensures
            s@ == self.as_chars_spec(char_map@),
    ;
}

impl AsChars for PixelImage {
    open spec fn as_chars_spec(&self, lut: Seq<char>) -> Seq<char> {
        spec_text(
            lanczos3_of(
                self.spec_pixels(),
                self.spec_width(),
                self.spec_height(),
                self.spec_width(),
                ((self.spec_height() as int) / (HEIGHT_SHRINK_AMOUNT as int)) as u32,
            ),
            self.spec_width() as nat,
            lut,
            0u8,
        )
    }

    open spec fn as_chars_req(&self) -> bool {
        4 * (self.spec_width() as int) * (self.spec_height() as int) <= usize::MAX as int
    }

    fn as_chars(&self, char_map: &BrightnessCharMap) -> (s: String) {
        let w = self.width();
        let h = self.height();
        let nh = h / HEIGHT_SHRINK_AMOUNT;
        let resized = resize_lanczos3(self.pixels(), w, h, w, nh);
        translate(&resized, w, char_map.lut_vec(), 0)
    }
}

} // verus!
