use vstd::prelude::*;

use crate::brightness_char_map::{spec_table, BrightnessCharMap};
use crate::coverage::{count_on, lemma_count_on_bounds, CoverageGrid};
use crate::errors::BuildError;
use vstd::arithmetic::div_mod::{lemma_div_by_multiple, lemma_div_is_ordered};
use vstd::arithmetic::mul::{lemma_mul_inequality, lemma_mul_upper_bound};

verus! {

/// The table that `CharBrightnesses::default` holds: a table once derived
/// from the full printable alphabet, kept as plain data so that a caller
/// without a rendering collaborator still has a usable mapping.
pub const DEFAULT_CHAR_LUT: [char; 256] = [
    '`', '`', '.', '.', '\'', ':', '1', '1', ';', '-', '=', '=', '/', '_', '_', ')',
    '\\', '<', '~', '~', 'l', '}', '}', ']', ']', 'v', 'F', 'c', 'x', 'j', 's', 't',
    'Z', 'Y', 'f', 'o', 'y', 'z', 'N', 'S', 'u', 'u', 'e', 'G', 'w', 'M', 'M', 'p',
    'q', 'q', 'Q', 'B', 'B', 'B', 'B', 'g', 'g', 'm', 'm', 'm', 'm', 'm', 'W', 'W',
    'W', 'W', 'W', 'W', 'W', 'W', 'W', 'W', 'W', 'W', 'W', 'W', 'W', 'W', 'W', 'W',
    'W', 'W', 'W', 'W', 'W', 'W', 'W', 'W', 'W', 'W', 'W', 'W', 'W', 'W', 'W', 'W',
    'W', 'W', 'W', 'W', 'W', 'W', 'W', 'W', 'W', 'W', 'W', 'W', 'W', 'W', 'W', 'W',
    'W', 'W', 'W', 'W', 'W', 'W', 'W', 'W', 'W', 'W', 'W', 'W', 'W', 'W', 'W', 'W',
    'W', 'W', 'W', 'W', 'W', 'W', 'W', 'W', 'W', 'W', 'W', 'W', 'W', 'W', 'W', 'W',
    'W', 'W', 'W', 'W', 'W', 'W', 'W', 'W', 'W', 'W', 'W', 'W', 'W', 'W', 'W', 'W',
    'W', 'W', 'W', 'W', 'W', 'W', 'W', 'W', 'W', 'W', 'W', 'W', 'W', 'W', 'W', 'W',
    'W', 'W', 'W', 'W', 'W', 'W', 'W', 'W', 'W', 'W', 'W', 'W', 'W', 'W', 'W', 'W',
    'W', 'W', 'W', 'W', 'W', 'W', 'W', 'W', 'W', 'W', 'W', 'W', 'W', 'W', 'W', 'W',
    'W', 'W', 'W', 'W', 'W', 'W', 'W', 'W', 'W', 'W', 'W', 'W', 'W', 'W', 'W', 'W',
    'W', 'W', 'W', 'W', 'W', 'W', 'W', 'W', 'W', 'W', 'W', 'W', 'W', 'W', 'W', 'W',
    'W', 'W', 'W', 'W', 'W', 'W', 'W', 'W', 'W', 'W', 'W', 'W', 'W', 'W', 'W', 'W',
];

/// Average brightness of a grid: count of "on" cells, scaled by the
/// foreground intensity and divided (rounding down) by the total cell
/// count.
pub open spec fn spec_avg_brightness(on: int, area: int, intensity: u8) -> int {
    on * (intensity as int) / area
}

/// Whether the rendering collaborator delivered a usable grid for one
/// symbol: a grid at all, and one with nonzero area.
pub open spec fn renders_ok(g: Option<CoverageGrid>) -> bool {
    match g {
        Some(gr) => gr.spec_area() > 0,
        None => false,
    }
}

/// The error that one symbol's failed rendering surfaces.
pub open spec fn defect_error(c: char, g: Option<CoverageGrid>) -> BuildError {
    match g {
        None => BuildError::RenderingFailure(c),
        Some(_) => BuildError::DegenerateGlyphArea(c),
    }
}

/// The sample one symbol contributes, given its coverage grid.
pub open spec fn sample_of(c: char, g: Option<CoverageGrid>, intensity: u8) -> (char, u8) {
    match g {
        Some(gr) => (
            c,
            spec_avg_brightness(count_on(gr.spec_cells()), gr.spec_area(), intensity) as u8,
        ),
        None => (c, 0u8),
    }
}

/// The full sample sequence of an alphabet, in alphabet order.
pub open spec fn spec_samples(
    chars: Seq<char>,
    grids: Seq<Option<CoverageGrid>>,
    intensity: u8,
) -> Seq<(char, u8)> {
    Seq::new(chars.len(), |j: int| sample_of(chars[j], grids[j], intensity))
}

/// A dense brightness-to-symbol table, built from an alphabet whose
/// symbols were rasterized to coverage grids.
pub struct CharBrightnesses {
    char_lut: Vec<char>,
}

impl View for CharBrightnesses {
    type V = Seq<char>;

    closed spec fn view(&self) -> Seq<char> {
        self.char_lut@
    }
}

impl CharBrightnesses {
    #[verifier::type_invariant]
    spec fn wf(self) -> bool {
        self.char_lut@.len() == 256
    }

    /// Samples every symbol of the alphabet and builds the dense table.
    /// Fails on the first symbol whose rendering failed or came back with
    /// zero area, and on an empty alphabet; succeeds otherwise, with the
    /// table the propagation model describes for these samples.
    pub fn new(chars: &Vec<char>, grids: &Vec<Option<CoverageGrid>>, intensity: u8) -> (r: Result<
        CharBrightnesses,
        BuildError,
    >)
        requires
            chars@.len() == grids@.len(),
        ensures
            chars@.len() == 0 ==> r == Err::<CharBrightnesses, BuildError>(
                BuildError::EmptyAlphabet,
            ),
            chars@.len() > 0 && (forall|j: int| 0 <= j < grids@.len() ==> renders_ok(grids@[j]))
                ==> (r matches Ok(t) && t@ == spec_table(spec_samples(chars@, grids@, intensity))),
            (exists|j: int| 0 <= j < grids@.len() && !renders_ok(grids@[j])) ==> (r matches Err(e)
                && exists|j: int|
                0 <= j < grids@.len() && !renders_ok(grids@[j]) && e == defect_error(
                    chars@[j],
                    grids@[j],
                ) && (forall|m: int| 0 <= m < j ==> renders_ok(grids@[m]))),
    {
        if chars.len() == 0 {
            return Err(BuildError::EmptyAlphabet);
        }
        let tuples = Self::get_brightness_tuples(chars, grids, intensity)?;
        let char_lut = Self::brightness_tuples_to_lut(&tuples);
        Ok(CharBrightnesses { char_lut })
    }

    /// Reduces every symbol's coverage grid to one (symbol, brightness)
    /// sample, in alphabet order; stops at the first symbol whose
    /// rendering failed or has zero area.
    pub fn get_brightness_tuples(
        chars: &Vec<char>,
        grids: &Vec<Option<CoverageGrid>>,
        intensity: u8,
    ) -> (r: Result<Vec<(char, u8)>, BuildError>)
        requires
            chars@.len() == grids@.len(),
        ensures
            (forall|j: int| 0 <= j < grids@.len() ==> renders_ok(grids@[j])) <==> r is Ok,
            r matches Ok(v) ==> v@ == spec_samples(chars@, grids@, intensity),
            r matches Err(e) ==> exists|j: int|
                0 <= j < grids@.len() && !renders_ok(grids@[j]) && e == defect_error(
                    chars@[j],
                    grids@[j],
                ) && (forall|m: int| 0 <= m < j ==> renders_ok(grids@[m])),
    {
        let mut out: Vec<(char, u8)> = Vec::with_capacity(chars.len());
        let mut j: usize = 0;
        while j < chars.len()
            invariant
                chars@.len() == grids@.len(),
                j <= chars@.len(),
                out@.len() == j,
                forall|m: int| 0 <= m < j ==> renders_ok(grids@[m]),
                forall|m: int|
                    0 <= m < j ==> out@[m] == sample_of(chars@[m], grids@[m], intensity),
            decreases chars@.len() - j,
        {
            let c: char = chars[j];
            let gopt: &Option<CoverageGrid> = &grids[j];
            match gopt {
                None => {
                    return Err(BuildError::RenderingFailure(c));
                },
                Some(g) => {
                    let area = g.area();
                    if area == 0 {
                        return Err(BuildError::DegenerateGlyphArea(c));
                    }
                    let b = Self::average_brightness(g, intensity);
                    out.push((c, b));
                },
            }
            j = j + 1;
        }
        proof {
            assert(out@ =~= spec_samples(chars@, grids@, intensity));
        }
        Ok(out)
    }

    /// Average brightness of one rasterized symbol: "on" cells over total
    /// cells, scaled to the foreground intensity, rounded down. Total for
    /// every grid with nonzero area; the result always fits a brightness
    /// byte.
    pub fn average_brightness(grid: &CoverageGrid, intensity: u8) -> (b: u8)
        requires
            grid.spec_area() > 0,
        ensures
            b as int == spec_avg_brightness(count_on(grid.spec_cells()), grid.spec_area(), intensity),
    {
        let area = grid.area();
        let on = grid.on_count();
        proof {
            lemma_mul_upper_bound(on as int, usize::MAX as int, intensity as int, 255);
        }
        let num: u128 = (on as u128) * (intensity as u128);
        let q: u128 = num / (area as u128);
        proof {
            broadcast use lemma_count_on_bounds;

            lemma_mul_inequality(on as int, area as int, intensity as int);
            lemma_div_is_ordered(
                (on as int) * (intensity as int),
                (area as int) * (intensity as int),
                area as int,
            );
            lemma_div_by_multiple(intensity as int, area as int);
        }
        q as u8
    }

    /// Expands samples into the dense table; the algorithm itself lives
    /// with `BrightnessCharMap`, which this table shares.
    pub fn brightness_tuples_to_lut(tuples: &Vec<(char, u8)>) -> (lut: Vec<char>)
        ensures
            lut@ == spec_table(tuples@),
    {
        BrightnessCharMap::brightness_tuples_to_lut(tuples)
    }

    /// The table's backing storage, for the translation loops.
    pub(crate) fn lut_vec(&self) -> (r: &Vec<char>)
        ensures
            r@ == self@,
            r@.len() == 256,
    {
        proof {
            use_type_invariant(self);
        }
        &self.char_lut
    }

    /// Looks the symbol for one brightness value up; total over all 256
    /// brightness values.
    pub fn index(&self, index: u8) -> (c: char)
        ensures
            c == self@[index as int],
    {
        proof {
            use_type_invariant(self);
        }
        self.char_lut[index as usize]
    }
}

impl Default for CharBrightnesses {
    /// The table built once from the full printable alphabet, as plain
    /// data.
    fn default() -> (r: Self)
        ensures
            r@ == DEFAULT_CHAR_LUT@,
    {
        let mut char_lut: Vec<char> = Vec::with_capacity(256);
        let mut i: usize = 0;
        while i < 256
            invariant
                i <= 256,
                char_lut@.len() == i,
                forall|q: int| 0 <= q < i ==> char_lut@[q] == DEFAULT_CHAR_LUT@[q],
            decreases 256 - i,
        {
            char_lut.push(DEFAULT_CHAR_LUT[i]);
            i = i + 1;
        }
        proof {
            assert(char_lut@ =~= DEFAULT_CHAR_LUT@);
        }
        CharBrightnesses { char_lut }
    }
}

} // verus!
