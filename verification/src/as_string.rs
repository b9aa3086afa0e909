use vstd::prelude::*;

use crate::as_string_options::AsStringOptions;
use crate::char_brightnesses::CharBrightnesses;
use crate::pixel_image::PixelImage;
use crate::resize::{convolution_lanczos3_of, resize_convolution_lanczos3};
use crate::text::{spec_text, translate};
use vstd::arithmetic::mul::lemma_mul_upper_bound;

verus! {

/// How much an image's height is shrunk before translation, on top of the
/// configured shrink factor.
pub const HEIGHT_SHRINK_AMOUNT: u8 = 2;

/// Translation of a whole image into one string of symbols, with a
/// configurable shrink factor and darkening.
pub trait AsString {
    /// The text this image translates to through the given table, under
    /// the given options.
    spec fn as_string_spec(&self, lut: Seq<char>, options: AsStringOptions) -> Seq<char>;

    /// The images and options the resampler accepts: ones that leave at
    /// least one pixel after shrinking, within the resampler's size
    /// limits.
    spec fn as_string_req(&self, options: AsStringOptions) -> bool;

    /// Shrinks the image by the configured factor (and its height once
    /// more), then maps every darkened pixel of the result to its symbol,
    /// with a line break after each pixel row.
    fn as_string(&self, char_brightnesses_lut: &CharBrightnesses, options: &AsStringOptions) -> (s:
        String)
        requires
            self.as_string_req(*options),
        ensures
            s@ == self.as_string_spec(char_brightnesses_lut@, *options),
    ;
}

/// The width the image keeps after the configured shrink.
pub open spec fn spec_shrunk_width(img: &PixelImage, options: AsStringOptions) -> int {
    (img.spec_width() as int) / (options.spec_shrink_value() as int)
}

/// The height the image keeps after the configured shrink and the height
/// shrink.
pub open spec fn spec_shrunk_height(img: &PixelImage, options: AsStringOptions) -> int {
    ((img.spec_height() as int) / (options.spec_shrink_value() as int)) / (
    HEIGHT_SHRINK_AMOUNT as int)
}

impl AsString for PixelImage {
    open spec fn as_string_spec(&self, lut: Seq<char>, options: AsStringOptions) -> Seq<char> {
        spec_text(
            convolution_lanczos3_of(
                self.spec_pixels(),
                self.spec_width(),
                self.spec_height(),
                spec_shrunk_width(self, options) as u32,
                spec_shrunk_height(self, options) as u32,
            ),
            spec_shrunk_width(self, options) as nat,
            lut,
            options.spec_darken_value(),
        )
    }

    open spec fn as_string_req(&self, options: AsStringOptions) -> bool {
        &&& options.spec_shrink_value() >= 1
        &&& spec_shrunk_width(self, options) >= 1
        &&& spec_shrunk_height(self, options) >= 1
        &&& (self.spec_width() as int) * (self.spec_height() as int) <= u32::MAX as int
    }

    fn as_string(&self, char_brightnesses_lut: &CharBrightnesses, options: &AsStringOptions) -> (s:
        String) {
        let (shrink, darken) = options.get_values();
        let w = self.width();
        let h = self.height();
        let nw = w / shrink;
        let nh = (h / shrink) / (HEIGHT_SHRINK_AMOUNT as u32);
        proof {
            lemma_mul_upper_bound(nw as int, w as int, nh as int, h as int);
        }
        let resized = resize_convolution_lanczos3(self.pixels(), w, h, nw, nh);
        translate(&resized, nw, char_brightnesses_lut.lut_vec(), darken)
    }
}

} // verus!
