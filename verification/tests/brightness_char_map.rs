use textify::brightness_char_map::BrightnessCharMap;
use textify::errors::BuildError;

#[test]
fn brightness_char_map_get_brightness_tuples() {
    let samples: Vec<(char, u8)> = vec![('a', 10), ('b', 20), ('c', 200)];
    let _char_map = BrightnessCharMap::new(&samples).unwrap();
}

#[test]
fn nearest_sample_scenario() {
    let samples: Vec<(char, u8)> = vec![('a', 10), ('b', 20)];
    let table = BrightnessCharMap::new(&samples).unwrap();
    assert_eq!(table.get(10), 'a');
    assert_eq!(table.get(20), 'b');
    assert_eq!(table.get(15), 'a');
    assert_eq!(table.get(0), 'a');
    assert_eq!(table.get(255), 'b');
}

#[test]
fn duplicate_identical_sample() {
    let samples: Vec<(char, u8)> = vec![('x', 0), ('x', 0)];
    let table = BrightnessCharMap::new(&samples).unwrap();
    assert_eq!(table.get(0), 'x');
    for b in 0..=255u8 {
        assert_eq!(table.get(b), 'x');
    }
}

#[test]
fn empty_sample_sequence() {
    let samples: Vec<(char, u8)> = Vec::new();
    let r = BrightnessCharMap::new(&samples);
    assert!(matches!(r, Err(BuildError::EmptyAlphabet)));
}

#[test]
fn deterministic_build() {
    let samples: Vec<(char, u8)> = vec![('q', 3), ('w', 250), ('e', 128), ('w', 128)];
    let t1 = BrightnessCharMap::new(&samples).unwrap();
    let t2 = BrightnessCharMap::new(&samples).unwrap();
    for b in 0..=255u8 {
        assert_eq!(t1.get(b), t2.get(b));
    }
}

#[test]
fn order_sensitivity() {
    let forward: Vec<(char, u8)> = vec![('a', 10), ('b', 20)];
    let backward: Vec<(char, u8)> = vec![('b', 20), ('a', 10)];
    let t1 = BrightnessCharMap::new(&forward).unwrap();
    let t2 = BrightnessCharMap::new(&backward).unwrap();
    assert_eq!(t1.get(15), 'a');
    assert_eq!(t2.get(15), 'b');
}

#[test]
fn totality_single_sample() {
    let samples: Vec<(char, u8)> = vec![('z', 77)];
    let table = BrightnessCharMap::new(&samples).unwrap();
    for b in 0..=255u8 {
        assert_eq!(table.get(b), 'z');
    }
}

#[test]
fn exact_match_fidelity() {
    let samples: Vec<(char, u8)> = vec![('a', 5), ('b', 100), ('c', 101), ('d', 255)];
    let table = BrightnessCharMap::new(&samples).unwrap();
    for (c, b) in samples {
        assert_eq!(table.get(b), c);
    }
}

#[test]
fn halt_on_equal_distance() {
    // Slot 11 is equally far from both samples: the earlier one keeps it.
    let tie: Vec<(char, u8)> = vec![('a', 10), ('b', 12)];
    let t = BrightnessCharMap::new(&tie).unwrap();
    assert_eq!(t.get(11), 'a');
    // Slot 12 is strictly closer to the later sample: the later one takes it.
    let closer: Vec<(char, u8)> = vec![('a', 10), ('b', 13)];
    let t = BrightnessCharMap::new(&closer).unwrap();
    assert_eq!(t.get(12), 'b');
    assert_eq!(t.get(11), 'a');
}
