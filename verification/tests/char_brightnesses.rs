use textify::char_brightnesses::CharBrightnesses;
use textify::coverage::CoverageGrid;
use textify::errors::BuildError;

fn square_grid(side: usize, on_cells: usize) -> CoverageGrid {
    let mut cells = vec![false; side * side];
    for cell in cells.iter_mut().take(on_cells) {
        *cell = true;
    }
    CoverageGrid::new(side, side, cells).unwrap()
}

#[test]
fn index() {
    let char_brightnesses = CharBrightnesses::default();
    for i in 0..=255u8 {
        char_brightnesses.index(i);
    }
}

#[test]
fn default_table_contents() {
    let char_brightnesses = CharBrightnesses::default();
    assert_eq!(char_brightnesses.index(0), '`');
    assert_eq!(char_brightnesses.index(2), '.');
    assert_eq!(char_brightnesses.index(61), 'm');
    assert_eq!(char_brightnesses.index(62), 'W');
    assert_eq!(char_brightnesses.index(255), 'W');
}

#[test]
fn brightness_tuples_to_lut() {
    let tuples: Vec<(char, u8)> = vec![('#', 30), ('.', 220), (' ', 250)];
    let char_lut = CharBrightnesses::brightness_tuples_to_lut(&tuples);
    assert_eq!(char_lut.len(), 256);
    assert_eq!(char_lut[30], '#');
    assert_eq!(char_lut[220], '.');
    assert_eq!(char_lut[0], '#');
    assert_eq!(char_lut[255], ' ');
}

#[test]
fn char_brightnesses_new() {
    let chars: Vec<char> = vec!['a', 'b'];
    let grids = vec![Some(square_grid(4, 0)), Some(square_grid(4, 16))];
    let table = CharBrightnesses::new(&chars, &grids, 255).unwrap();
    // 'a' covers nothing (brightness 0); 'b' covers everything (255).
    assert_eq!(table.index(0), 'a');
    assert_eq!(table.index(255), 'b');
    assert_eq!(table.index(127), 'a');
    assert_eq!(table.index(128), 'b');
}

#[test]
fn char_brightnesses_get_brightness_tuples() {
    let chars: Vec<char> = vec!['x', 'y', 'z'];
    let grids = vec![
        Some(square_grid(4, 0)),
        Some(square_grid(4, 8)),
        Some(square_grid(4, 16)),
    ];
    let tuples = CharBrightnesses::get_brightness_tuples(&chars, &grids, 255).unwrap();
    assert_eq!(tuples.len(), chars.len());
    assert_eq!(tuples[0], ('x', 0));
    assert_eq!(tuples[1], ('y', 127));
    assert_eq!(tuples[2], ('z', 255));
}

#[test]
fn char_brightnesses_average_brightness() {
    // More covered cells never means lower brightness.
    let mut collection: Vec<u8> = Vec::with_capacity(3);
    for on_cells in [0usize, 5, 16] {
        let grid = square_grid(4, on_cells);
        collection.push(CharBrightnesses::average_brightness(&grid, 255));
    }
    for i in 0..collection.len() - 1 {
        assert!(collection[i] <= collection[i + 1]);
    }
    // The exact formula: on-count times intensity over area, rounded down.
    let half = square_grid(2, 2);
    assert_eq!(CharBrightnesses::average_brightness(&half, 255), 127);
    assert_eq!(CharBrightnesses::average_brightness(&half, 100), 50);
}

#[test]
fn rendering_failure_surfaces() {
    let chars: Vec<char> = vec!['a', 'b', 'c'];
    let grids = vec![Some(square_grid(2, 1)), None, None];
    let r = CharBrightnesses::new(&chars, &grids, 255);
    assert!(matches!(r, Err(BuildError::RenderingFailure('b'))));
}

#[test]
fn degenerate_glyph_area_surfaces() {
    let chars: Vec<char> = vec!['a', 'b'];
    let empty = CoverageGrid::new(0, 0, Vec::new()).unwrap();
    let grids = vec![Some(empty), Some(square_grid(2, 1))];
    let r = CharBrightnesses::new(&chars, &grids, 255);
    assert!(matches!(r, Err(BuildError::DegenerateGlyphArea('a'))));
}

#[test]
fn empty_alphabet_surfaces() {
    let chars: Vec<char> = Vec::new();
    let grids: Vec<Option<CoverageGrid>> = Vec::new();
    let r = CharBrightnesses::new(&chars, &grids, 255);
    assert!(matches!(r, Err(BuildError::EmptyAlphabet)));
}

#[test]
fn coverage_grid_checks_dimensions() {
    assert!(CoverageGrid::new(3, 3, vec![true; 9]).is_some());
    assert!(CoverageGrid::new(3, 3, vec![true; 8]).is_none());
    let grid = CoverageGrid::new(2, 3, vec![true, false, true, false, false, false]).unwrap();
    assert_eq!(grid.area(), 6);
    assert_eq!(grid.on_count(), 2);
}
