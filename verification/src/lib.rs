//! Core of an image-to-text converter: symbols are sampled for visual
//! density, and a dense 256-slot lookup table maps every possible pixel
//! brightness to the symbol that best represents it.
//!
//! Rendering collaborators (font rasterization, text drawing) and image
//! input/output live outside this crate; the logic here works on plain
//! pixel buffers, coverage grids and sample pairs.

pub mod as_chars;
pub mod as_string;
pub mod as_string_options;
pub mod average_key_brightnesses;
pub mod brightness_char_map;
pub mod char_brightnesses;
pub mod coverage;
pub mod errors;
pub mod image_to_keys;
pub mod pixel_image;

mod resize;
mod text;
