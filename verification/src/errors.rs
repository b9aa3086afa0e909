use vstd::prelude::*;

verus! {

/// Errors that can arise while sampling symbols and building the
/// brightness lookup table. No error can occur during lookup: a built
/// table is total over all 256 brightness values.
#[derive(Clone, Copy, PartialEq, Eq, Structural, Debug)]
pub enum BuildError {
    /// The rendering collaborator could not produce a coverage grid for
    /// this symbol. The table build is aborted rather than silently
    /// continuing with a partial alphabet.
    RenderingFailure(char),
    /// This symbol rasterized to a grid of zero total area, so no
    /// average brightness can be computed for it.
    DegenerateGlyphArea(char),
    /// No samples were supplied: no meaningful table can be produced.
    EmptyAlphabet,
}

} // verus!
