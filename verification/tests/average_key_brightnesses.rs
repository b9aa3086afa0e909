use image::{GrayImage, Luma};
use imageproc::drawing::draw_filled_rect;
use imageproc::rect::Rect;
use textify::average_key_brightnesses::AverageKeyBrightnesses;
use textify::errors::BuildError;

fn sample_set() -> AverageKeyBrightnesses {
    let keys: Vec<char> = vec!['a', 'b', 'c'];
    let images: Vec<Vec<u8>> = vec![vec![10, 10, 10, 10], vec![0, 100], vec![255; 3]];
    AverageKeyBrightnesses::new(&keys, &images).unwrap()
}

#[test]
fn average_brightness() {
    let bright_image = draw_filled_rect(
        &GrayImage::new(100, 100),
        Rect::at(0, 0).of_size(100, 100),
        Luma([255]),
    );
    let dark_image = draw_filled_rect(
        &GrayImage::new(100, 100),
        Rect::at(0, 0).of_size(100, 100),
        Luma([0]),
    );
    assert_eq!(
        AverageKeyBrightnesses::average_brightness(&dark_image.into_raw()),
        0
    );
    assert_eq!(
        AverageKeyBrightnesses::average_brightness(&bright_image.into_raw()),
        255
    );
}

#[test]
fn keys_average_brightnesses() {
    let keys: Vec<char> = vec!['a', 'b'];
    let images: Vec<Vec<u8>> = vec![vec![10, 20, 30, 40], vec![7]];
    let brightnesses = AverageKeyBrightnesses::keys_average_brightnesses(&keys, &images).unwrap();
    assert_eq!(brightnesses, vec![25, 7]);
}

#[test]
fn average_key_brightnesses_new() {
    let keys: Vec<char> = vec!['a', 'b'];
    let images: Vec<Vec<u8>> = vec![vec![10, 20, 30, 40], vec![7]];
    let average_key_brightnesses = AverageKeyBrightnesses::new(&keys, &images).unwrap();
    let brightnesses = AverageKeyBrightnesses::keys_average_brightnesses(&keys, &images).unwrap();
    assert_eq!(average_key_brightnesses.brightnesses(), &brightnesses);
    assert_eq!(average_key_brightnesses.keys(), &keys);
}

#[test]
fn as_tuple() {
    let average_key_brightnesses = sample_set();
    assert_eq!(
        average_key_brightnesses.as_tuple()[0],
        (
            average_key_brightnesses.brightnesses()[0],
            average_key_brightnesses.keys()[0]
        )
    )
}

#[test]
fn as_hash_map() {
    let average_key_brightnesses = sample_set();
    let first_tuple = average_key_brightnesses.as_tuple()[0];
    let binding = average_key_brightnesses.as_hash_map();
    let hash_map_tuple = binding.get_key_value(&first_tuple.0).unwrap();
    assert_eq!(hash_map_tuple, (&first_tuple.0, &first_tuple.1))
}

#[test]
fn empty_rendering_surfaces() {
    let keys: Vec<char> = vec!['a', 'b'];
    let images: Vec<Vec<u8>> = vec![vec![10], Vec::new()];
    let r = AverageKeyBrightnesses::new(&keys, &images);
    assert!(matches!(r, Err(BuildError::DegenerateGlyphArea('b'))));
}

#[test]
fn duplicate_brightness_keeps_later_key_in_map() {
    let keys: Vec<char> = vec!['a', 'b'];
    let images: Vec<Vec<u8>> = vec![vec![5, 5], vec![5]];
    let set = AverageKeyBrightnesses::new(&keys, &images).unwrap();
    let map = set.as_hash_map();
    assert_eq!(map.len(), 1);
    assert_eq!(map.get(&5), Some(&'b'));
}
