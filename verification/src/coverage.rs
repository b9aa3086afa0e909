use vstd::prelude::*;

verus! {

/// How many cells of a coverage grid are "on".
pub open spec fn count_on(cells: Seq<bool>) -> int
    decreases cells.len(),
{
    if cells.len() == 0 {
        0
    } else {
        count_on(cells.drop_last()) + if cells.last() {
            1int
        } else {
            0int
        }
    }
}

/// The count of "on" cells lies between zero and the cell count.
pub broadcast proof fn lemma_count_on_bounds(cells: Seq<bool>)
    ensures
        0 <= #[trigger] count_on(cells) <= cells.len(),
    decreases cells.len(),
{
    if cells.len() > 0 {
        lemma_count_on_bounds(cells.drop_last());
    }
}

/// A rasterized symbol, reduced to what the brightness computation reads:
/// a rectangular grid of on/off cells, stored row-major. The rendering
/// collaborator that produces it is outside this crate.
pub struct CoverageGrid {
    width: usize,
    height: usize,
    cells: Vec<bool>,
}

impl CoverageGrid {
    #[verifier::type_invariant]
    spec fn wf(self) -> bool {
        self.cells@.len() == self.width * self.height
    }

    /// The grid's total cell count, as the contracts speak of it.
    pub closed spec fn spec_area(&self) -> int {
        self.width * self.height
    }

    /// The grid's cells, as the contracts speak of them.
    pub closed spec fn spec_cells(&self) -> Seq<bool> {
        self.cells@
    }

    /// Accepts exactly a cell buffer whose length matches the claimed
    /// dimensions.
    pub fn new(width: usize, height: usize, cells: Vec<bool>) -> (r: Option<CoverageGrid>)
        ensures
            r is Some <==> width * height == cells@.len(),
            r matches Some(g) ==> g.spec_area() == cells@.len() && g.spec_cells() == cells@,
    {
        let n = cells.len();
        match width.checked_mul(height) {
            Some(area) => {
                if area == n {
                    Some(CoverageGrid { width, height, cells })
                } else {
                    None
                }
            },
            None => None,
        }
    }

    /// Total cell count.
    pub fn area(&self) -> (a: usize)
        ensures
            a as int == self.spec_area(),
    {
        proof {
            use_type_invariant(self);
        }
        self.cells.len()
    }

    /// Count of "on" cells.
    pub fn on_count(&self) -> (n: usize)
        ensures
            n as int == count_on(self.spec_cells()),
            n as int <= self.spec_area(),
    {
        proof {
            use_type_invariant(self);
            broadcast use lemma_count_on_bounds;

        }
        let mut n: usize = 0;
        let mut k: usize = 0;
        while k < self.cells.len()
            invariant
                k <= self.cells@.len(),
                n as int == count_on(self.cells@.take(k as int)),
                n <= k,
            decreases self.cells@.len() - k,
        {
            proof {
                assert(self.cells@.take(k as int + 1).drop_last() =~= self.cells@.take(k as int));
                assert(self.cells@.take(k as int + 1).last() == self.cells@[k as int]);
            }
            if self.cells[k] {
                n = n + 1;
            }
            k = k + 1;
        }
        proof {
            assert(self.cells@.take(self.cells@.len() as int) =~= self.cells@);
            broadcast use lemma_count_on_bounds;

        }
        n
    }
}

} // verus!
