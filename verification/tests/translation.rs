use textify::as_chars::AsChars;
use textify::as_string::AsString;
use textify::as_string_options::AsStringOptions;
use textify::average_key_brightnesses::AverageKeyBrightnesses;
use textify::brightness_char_map::BrightnessCharMap;
use textify::char_brightnesses::CharBrightnesses;
use textify::image_to_keys::ImageToKeys;
use textify::pixel_image::PixelImage;

#[test]
fn find_closest_brightness() {
    let vector = [0u8, 2, 4];
    assert_eq!(PixelImage::closest_brightness(&vector, 1), Some(0));
    assert_eq!(PixelImage::closest_brightness(&[], 1), None);
}

#[test]
fn pixel_image_checks_dimensions() {
    assert!(PixelImage::new(2, 3, vec![0; 6]).is_some());
    assert!(PixelImage::new(2, 3, vec![0; 5]).is_none());
    let img = PixelImage::new(2, 3, vec![1, 2, 3, 4, 5, 6]).unwrap();
    assert_eq!(img.width(), 2);
    assert_eq!(img.height(), 3);
    assert_eq!(img.pixels(), &vec![1, 2, 3, 4, 5, 6]);
}

#[test]
fn as_string_options_values() {
    let defaults = AsStringOptions::new();
    assert_eq!(defaults.get_values(), (1, 0));
    let custom = AsStringOptions::new().set_shrink(2).set_darken(5);
    assert_eq!(custom.get_values(), (2, 5));
    let default_impl: AsStringOptions = Default::default();
    assert_eq!(default_impl.get_values(), (1, 0));
}

#[test]
fn as_chars_black_image() {
    // A black image resized stays black, and brightness 0 maps to the
    // nearest sample, here the earlier of the two equally distant ones.
    let samples: Vec<(char, u8)> = vec![('a', 10), ('b', 20)];
    let char_map = BrightnessCharMap::new(&samples).unwrap();
    let image = PixelImage::new(2, 4, vec![0; 8]).unwrap();
    let text = image.as_chars(&char_map);
    assert_eq!(text, "aa\naa\n");
}

#[test]
fn as_string_black_image() {
    let char_map = CharBrightnesses::default();
    let image = PixelImage::new(4, 8, vec![0; 32]).unwrap();
    let text = image.as_string(&char_map, &AsStringOptions::new());
    assert_eq!(text, "````\n````\n````\n````\n");
}

#[test]
fn as_string_shrinks_by_options() {
    let char_map = CharBrightnesses::default();
    let image = PixelImage::new(8, 16, vec![0; 128]).unwrap();
    let text = image.as_string(&char_map, &AsStringOptions::new().set_shrink(2));
    assert_eq!(text, "````\n````\n````\n````\n");
}

#[test]
fn as_keys_black_image() {
    let keys: Vec<char> = vec!['k'];
    let images: Vec<Vec<u8>> = vec![vec![0, 0, 0, 0]];
    let set = AverageKeyBrightnesses::new(&keys, &images).unwrap();
    let image = PixelImage::new(2, 2, vec![0; 4]).unwrap();
    let rows = image.as_keys(&set).unwrap();
    assert_eq!(rows, vec!["kk".to_string()]);
}

#[test]
fn as_keys_without_brightnesses() {
    let keys: Vec<char> = Vec::new();
    let images: Vec<Vec<u8>> = Vec::new();
    let set = AverageKeyBrightnesses::new(&keys, &images).unwrap();
    let image = PixelImage::new(2, 2, vec![0; 4]).unwrap();
    let r = image.as_keys(&set);
    assert_eq!(r, Err("Couldn't find any brightnesses.".to_string()));
}
