use vstd::prelude::*;

use fast_image_resize::{FilterType, Image, PixelType, ResizeAlg, Resizer};
use std::num::NonZeroU32;

verus! {

/// The pixels that `image`'s Lanczos3 resampling produces for a grayscale
/// buffer of the given dimensions, resized to the new dimensions. A pure
/// function of its arguments; its exact values are the resampler's
/// business.
pub uninterp spec fn lanczos3_of(
    pixels: Seq<u8>,
    width: u32,
    height: u32,
    nwidth: u32,
    nheight: u32,
) -> Seq<u8>;

/// The pixels that `fast_image_resize`'s Lanczos3 convolution produces
/// for a grayscale buffer of the given dimensions, resized to the new
/// dimensions. A pure function of its arguments; its exact values are the
/// resampler's business.
pub uninterp spec fn convolution_lanczos3_of(
    pixels: Seq<u8>,
    width: u32,
    height: u32,
    nwidth: u32,
    nheight: u32,
) -> Seq<u8>;

/// Relies on image::imageops::resize with FilterType::Lanczos3: the
/// result is an image of exactly the requested dimensions, and a pure
/// function of the source pixels and the dimensions. Shrinking only, so
/// the library never asks the resampler for buffers past its source size.
#[verifier::external_body]
pub(crate) fn resize_lanczos3(
    pixels: &Vec<u8>,
    width: u32,
    height: u32,
    nwidth: u32,
    nheight: u32,
) -> (r: Vec<u8>)
    requires
        pixels@.len() == (width as int) * (height as int),
        nwidth <= width,
        nheight <= height,
        4 * (width as int) * (height as int) <= usize::MAX as int,
    ensures
        r@.len() == (nwidth as int) * (nheight as int),
        r@ == lanczos3_of(pixels@, width, height, nwidth, nheight),
{
    let image = image::GrayImage::from_raw(width, height, pixels.clone()).unwrap();
    let resized = image::imageops::resize(
        &image,
        nwidth,
        nheight,
        image::imageops::FilterType::Lanczos3,
    );
    resized.into_raw()
}

/// Relies on fast_image_resize::Resizer::resize with
/// ResizeAlg::Convolution(FilterType::Lanczos3) on U8 pixels: it fills a
/// destination of exactly the requested dimensions, as a pure function of
/// the source pixels and the dimensions.
#[verifier::external_body]
pub(crate) fn resize_convolution_lanczos3(
    pixels: &Vec<u8>,
    width: u32,
    height: u32,
    nwidth: u32,
    nheight: u32,
) -> (r: Vec<u8>)
    requires
        pixels@.len() == (width as int) * (height as int),
        width >= 1,
        height >= 1,
        nwidth >= 1,
        nheight >= 1,
        (width as int) * (height as int) <= u32::MAX as int,
        (nwidth as int) * (nheight as int) <= u32::MAX as int,
    ensures
        r@.len() == (nwidth as int) * (nheight as int),
        r@ == convolution_lanczos3_of(pixels@, width, height, nwidth, nheight),
{
    let w = NonZeroU32::new(width).unwrap();
    let h = NonZeroU32::new(height).unwrap();
    let nw = NonZeroU32::new(nwidth).unwrap();
    let nh = NonZeroU32::new(nheight).unwrap();
    let src = Image::from_vec_u8(w, h, pixels.clone(), PixelType::U8).unwrap();
    let mut dst = Image::new(nw, nh, PixelType::U8);
    let mut resizer = Resizer::new(ResizeAlg::Convolution(FilterType::Lanczos3));
    resizer.resize(&src.view(), &mut dst.view_mut()).unwrap();
    dst.into_vec()
}

} // verus!
