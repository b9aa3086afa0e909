use vstd::prelude::*;

use crate::errors::BuildError;

verus! {

// ---------------------------------------------------------------------------
// Mathematical model of the table builder.
//
// A sample is a pair (symbol, brightness). Samples are applied in input
// order; each sample claims its own coordinate unconditionally and claims a
// neighbouring slot exactly when it lies strictly closer to that slot than
// every sample applied before it. Ties therefore stay with the
// earlier-supplied sample, except at a sample's exact coordinate, where the
// latest sample with that brightness wins.
// ---------------------------------------------------------------------------

/// Distance on the brightness axis between a sample at `b` and slot `i`.
pub open spec fn dist_to(b: u8, i: int) -> int {
    if b as int >= i {
        b as int - i
    } else {
        i - b as int
    }
}

/// Distance from slot `i` to the nearest sample of `samples`, or 256 (one
/// past the largest possible distance) when no sample has been applied.
pub open spec fn slot_dist(samples: Seq<(char, u8)>, i: int) -> int
    decreases samples.len(),
{
    if samples.len() == 0 {
        256
    } else {
        let prev = slot_dist(samples.drop_last(), i);
        let d = dist_to(samples.last().1, i);
        if d < prev {
            d
        } else {
            prev
        }
    }
}

/// The symbol that slot `i` holds after the samples are applied in order:
/// a sample overwrites the slot when it is strictly closer than every
/// earlier sample, and always overwrites its own exact coordinate.
pub open spec fn slot_sym(samples: Seq<(char, u8)>, i: int) -> char
    decreases samples.len(),
{
    if samples.len() == 0 {
        '\0'
    } else {
        let prev = slot_sym(samples.drop_last(), i);
        let prev_d = slot_dist(samples.drop_last(), i);
        let d = dist_to(samples.last().1, i);
        if d == 0 {
            samples.last().0
        } else if d < prev_d {
            samples.last().0
        } else {
            prev
        }
    }
}

/// The dense 256-slot table that the builder must produce.
pub open spec fn spec_table(samples: Seq<(char, u8)>) -> Seq<char> {
    Seq::new(256, |i: int| slot_sym(samples, i))
}

// ---------------------------------------------------------------------------
// The table itself.
// ---------------------------------------------------------------------------

/// A dense, immutable map from every brightness byte to one symbol.
pub struct BrightnessCharMap {
    char_lut: Vec<char>,
}

impl View for BrightnessCharMap {
    type V = Seq<char>;

    closed spec fn view(&self) -> Seq<char> {
        self.char_lut@
    }
}

impl BrightnessCharMap {
    #[verifier::type_invariant]
    spec fn wf(self) -> bool {
        self.char_lut@.len() == 256
    }

    /// Builds the table from the ordered samples. Fails exactly when no
    /// sample is supplied; otherwise the result is the table that the
    /// nearest-sample propagation model describes.
    pub fn new(tuples: &Vec<(char, u8)>) -> (r: Result<BrightnessCharMap, BuildError>)
        ensures
            tuples@.len() == 0 ==> r == Err::<BrightnessCharMap, BuildError>(
                BuildError::EmptyAlphabet,
            ),
            tuples@.len() > 0 ==> (r matches Ok(m) && m@ == spec_table(tuples@)),
    {
        if tuples.len() == 0 {
            return Err(BuildError::EmptyAlphabet);
        }
        let char_lut = Self::brightness_tuples_to_lut(tuples);
        Ok(BrightnessCharMap { char_lut })
    }

    /// Looks the symbol for one brightness value up. Total: once a table
    /// exists, every brightness byte has a symbol.
    pub fn get(&self, brightness: u8) -> (c: char)
        ensures
            c == self@[brightness as int],
    {
        proof {
            use_type_invariant(self);
        }
        self.char_lut[brightness as usize]
    }

    /// The table's backing storage, for the translation loops.
    pub(crate) fn lut_vec(&self) -> (r: &Vec<char>)
        ensures
            r@ == self@,
            r@.len() == 256,
    {
        proof {
            use_type_invariant(self);
        }
        &self.char_lut
    }

    /// Expands the sparse samples into a dense 256-entry table by
    /// nearest-sample propagation: each sample claims its own slot, then
    /// claims neighbouring slots outward until a strictly closer earlier
    /// claim stops it (an equally close claim also stops it).
    pub fn brightness_tuples_to_lut(tuples: &Vec<(char, u8)>) -> (lut: Vec<char>)
        ensures
            lut@ == spec_table(tuples@),
    {
        broadcast use lemma_slot_dist_bounds;

        let mut lut: Vec<char> = Vec::with_capacity(256);
        let mut dist: Vec<u16> = Vec::with_capacity(256);
        let mut j: usize = 0;
        while j < 256
            invariant
                j <= 256,
                lut@.len() == j,
                dist@.len() == j,
                forall|q: int| 0 <= q < j ==> lut@[q] == '\0',
                forall|q: int| 0 <= q < j ==> dist@[q] == 256u16,
            decreases 256 - j,
        {
            lut.push('\0');
            dist.push(256u16);
            j = j + 1;
        }

        let mut k: usize = 0;
        while k < tuples.len()
            invariant
                k <= tuples@.len(),
                lut@.len() == 256,
                dist@.len() == 256,
                forall|q: int|
                    0 <= q < 256 ==> dist@[q] as int == #[trigger] slot_dist(
                        tuples@.take(k as int),
                        q,
                    ),
                forall|q: int|
                    0 <= q < 256 ==> lut@[q] == #[trigger] slot_sym(tuples@.take(k as int), q),
            decreases tuples@.len() - k,
        {
            let pair: (char, u8) = tuples[k];
            let c: char = pair.0;
            let b: u8 = pair.1;
            let bi: usize = b as usize;
            let ghost sold = tuples@.take(k as int);
            let ghost snew = sold.push((c, b));
            proof {
                assert(tuples@.take(k as int + 1) =~= snew);
            }

            // The sample's own coordinate: an exact match always wins.
            lut.set(bi, c);
            dist.set(bi, 0u16);
            proof {
                lemma_slot_step(sold, c, b, bi as int);
            }

            // Propagate leftward, from bi - 1 down to 0.
            let mut i: usize = bi;
            while i > 0
                invariant_except_break
                    i <= bi,
                    bi == b as usize,
                    bi < 256,
                    lut@.len() == 256,
                    dist@.len() == 256,
                    snew == sold.push((c, b)),
                    forall|q: int|
                        i <= q <= bi ==> dist@[q] as int == #[trigger] slot_dist(snew, q),
                    forall|q: int| i <= q <= bi ==> lut@[q] == #[trigger] slot_sym(snew, q),
                    forall|q: int| 0 <= q < i ==> dist@[q] as int == #[trigger] slot_dist(sold, q),
                    forall|q: int| 0 <= q < i ==> lut@[q] == #[trigger] slot_sym(sold, q),
                    forall|q: int|
                        bi < q < 256 ==> dist@[q] as int == #[trigger] slot_dist(sold, q),
                    forall|q: int| bi < q < 256 ==> lut@[q] == #[trigger] slot_sym(sold, q),
                ensures
                    lut@.len() == 256,
                    dist@.len() == 256,
                    forall|q: int|
                        0 <= q <= bi ==> dist@[q] as int == #[trigger] slot_dist(snew, q),
                    forall|q: int| 0 <= q <= bi ==> lut@[q] == #[trigger] slot_sym(snew, q),
                    forall|q: int|
                        bi < q < 256 ==> dist@[q] as int == #[trigger] slot_dist(sold, q),
                    forall|q: int| bi < q < 256 ==> lut@[q] == #[trigger] slot_sym(sold, q),
                decreases i,
            {
                i = i - 1;
                let d: u16 = (bi - i) as u16;
                if d < dist[i] {
                    lut.set(i, c);
                    dist.set(i, d);
                    proof {
                        lemma_slot_step(sold, c, b, i as int);
                    }
                } else {
                    proof {
                        assert(dist@[i as int] as int == slot_dist(sold, i as int));
                        assert forall|q: int| 0 <= q <= i implies dist@[q] as int
                            == #[trigger] slot_dist(snew, q) by {
                            lemma_halt_below(sold, c, b, i as int, q);
                            assert(dist@[q] as int == slot_dist(sold, q));
                        }
                        assert forall|q: int| 0 <= q <= i implies lut@[q] == #[trigger] slot_sym(
                            snew,
                            q,
                        ) by {
                            lemma_halt_below(sold, c, b, i as int, q);
                            assert(lut@[q] == slot_sym(sold, q));
                        }
                    }
                    break;
                }
            }

            // Propagate rightward, from bi + 1 up to 255, by the symmetric
            // rule.
            let mut i: usize = bi;
            while i < 255
                invariant_except_break
                    bi <= i < 256,
                    bi == b as usize,
                    lut@.len() == 256,
                    dist@.len() == 256,
                    snew == sold.push((c, b)),
                    forall|q: int| 0 <= q <= i ==> dist@[q] as int == #[trigger] slot_dist(snew, q),
                    forall|q: int| 0 <= q <= i ==> lut@[q] == #[trigger] slot_sym(snew, q),
                    forall|q: int|
                        i < q < 256 ==> dist@[q] as int == #[trigger] slot_dist(sold, q),
                    forall|q: int| i < q < 256 ==> lut@[q] == #[trigger] slot_sym(sold, q),
                ensures
                    lut@.len() == 256,
                    dist@.len() == 256,
                    forall|q: int|
                        0 <= q < 256 ==> dist@[q] as int == #[trigger] slot_dist(snew, q),
                    forall|q: int| 0 <= q < 256 ==> lut@[q] == #[trigger] slot_sym(snew, q),
                decreases 255 - i,
            {
                i = i + 1;
                let d: u16 = (i - bi) as u16;
                if d < dist[i] {
                    lut.set(i, c);
                    dist.set(i, d);
                    proof {
                        lemma_slot_step(sold, c, b, i as int);
                    }
                } else {
                    proof {
                        assert(dist@[i as int] as int == slot_dist(sold, i as int));
                        assert forall|q: int| i <= q < 256 implies dist@[q] as int
                            == #[trigger] slot_dist(snew, q) by {
                            lemma_halt_above(sold, c, b, i as int, q);
                            assert(dist@[q] as int == slot_dist(sold, q));
                        }
                        assert forall|q: int| i <= q < 256 implies lut@[q] == #[trigger] slot_sym(
                            snew,
                            q,
                        ) by {
                            lemma_halt_above(sold, c, b, i as int, q);
                            assert(lut@[q] == slot_sym(sold, q));
                        }
                    }
                    break;
                }
            }

            proof {
                assert(tuples@.take(k as int + 1) == snew);
            }
            k = k + 1;
        }
        proof {
            assert(tuples@.take(tuples@.len() as int) =~= tuples@);
            assert(lut@ =~= spec_table(tuples@));
        }
        lut
    }
}

// ---------------------------------------------------------------------------
// Laws of the built table.
// ---------------------------------------------------------------------------

/// Totality: after a build from at least one sample, every slot holds the
/// symbol of some sample, at the distance of the nearest sample (at most
/// 255, so no slot is left unset).
pub proof fn lemma_table_total(samples: Seq<(char, u8)>, i: int)
    requires
        samples.len() > 0,
        0 <= i < 256,
    ensures
        slot_dist(samples, i) <= 255,
        exists|j: int|
            0 <= j < samples.len() && samples[j].0 == slot_sym(samples, i) && dist_to(
                samples[j].1,
                i,
            ) == slot_dist(samples, i),
    decreases samples.len(),
{
    broadcast use lemma_slot_dist_bounds;

    let n = samples.len() - 1;
    let d = dist_to(samples[n].1, i);
    if samples.len() == 1 {
        assert(samples[0].0 == slot_sym(samples, i) && dist_to(samples[0].1, i) == slot_dist(
            samples,
            i,
        ));
    } else {
        lemma_table_total(samples.drop_last(), i);
        if d < slot_dist(samples.drop_last(), i) || d == 0 {
            assert(samples[n].0 == slot_sym(samples, i) && dist_to(samples[n].1, i) == slot_dist(
                samples,
                i,
            ));
        } else {
            let j = choose|j: int|
                0 <= j < samples.drop_last().len() && samples.drop_last()[j].0 == slot_sym(
                    samples.drop_last(),
                    i,
                ) && dist_to(samples.drop_last()[j].1, i) == slot_dist(samples.drop_last(), i);
            assert(samples[j].0 == slot_sym(samples, i) && dist_to(samples[j].1, i) == slot_dist(
                samples,
                i,
            ));
        }
    }
}

/// Exact-match fidelity: the slot at a sample's own brightness holds that
/// sample's symbol. Two samples at one brightness with different symbols
/// are excluded: there the latest such sample wins the coordinate, so the
/// claim cannot hold for both.
pub proof fn lemma_exact_match_fidelity(samples: Seq<(char, u8)>, j: int)
    requires
        0 <= j < samples.len(),
        forall|j1: int, j2: int|
            0 <= j1 < samples.len() && 0 <= j2 < samples.len() && samples[j1].1 == samples[j2].1
                ==> samples[j1].0 == samples[j2].0,
    ensures
        slot_dist(samples, samples[j].1 as int) == 0,
        slot_sym(samples, samples[j].1 as int) == samples[j].0,
    decreases samples.len(),
{
    broadcast use lemma_slot_dist_bounds;

    let n = samples.len() - 1;
    let i = samples[j].1 as int;
    if j < n {
        lemma_exact_match_fidelity(samples.drop_last(), j);
        let d = dist_to(samples[n].1, i);
        if d == 0 {
            assert(samples[n].1 == samples[j].1);
        }
    }
}

/// A sample's own coordinate is always claimed at distance zero, and by
/// the latest sample with that brightness: exact matches always win at
/// their own coordinate, and duplicates resolve deterministically.
pub proof fn lemma_exact_coordinate_latest(samples: Seq<(char, u8)>, j: int)
    requires
        0 <= j < samples.len(),
    ensures
        slot_dist(samples, samples[j].1 as int) == 0,
        exists|k: int|
            j <= k < samples.len() && samples[k].1 == samples[j].1 && samples[k].0 == slot_sym(
                samples,
                samples[j].1 as int,
            ) && (forall|m: int| k < m < samples.len() ==> samples[m].1 != samples[j].1),
    decreases samples.len(),
{
    broadcast use lemma_slot_dist_bounds;

    let n = samples.len() - 1;
    let i = samples[j].1 as int;
    if samples[n].1 == samples[j].1 {
        assert(j <= n < samples.len() && samples[n].1 == samples[j].1 && samples[n].0 == slot_sym(
            samples,
            i,
        ) && (forall|m: int| n < m < samples.len() ==> samples[m].1 != samples[j].1));
    } else {
        assert(samples.drop_last()[j] == samples[j]);
        lemma_exact_coordinate_latest(samples.drop_last(), j);
        assert(dist_to(samples[n].1, i) > 0);
        assert(slot_sym(samples, i) == slot_sym(samples.drop_last(), i));
        let k = choose|k: int|
            j <= k < samples.drop_last().len() && samples.drop_last()[k].1
                == samples.drop_last()[j].1 && samples.drop_last()[k].0 == slot_sym(
                samples.drop_last(),
                samples.drop_last()[j].1 as int,
            ) && (forall|m: int|
                k < m < samples.drop_last().len() ==> samples.drop_last()[m].1
                    != samples.drop_last()[j].1);
        assert(samples.drop_last()[k] == samples[k]);
        assert forall|m: int| k < m < samples.len() implies samples[m].1 != samples[j].1 by {
            if m < n {
                assert(samples.drop_last()[m] == samples[m]);
            }
        }
        assert(j <= k < samples.len() && samples[k].1 == samples[j].1 && samples[k].0 == slot_sym(
            samples,
            i,
        ) && (forall|m: int| k < m < samples.len() ==> samples[m].1 != samples[j].1));
    }
}

/// The slot a sample claims is decided by nearest-first order: if sample
/// `j` lies strictly closer to slot `i` than every sample before it, and
/// at least as close as every sample after it, then slot `i` holds sample
/// `j`'s symbol. This is exactly the earlier-in-input-order tie rule:
/// among equidistant samples the least index wins.
pub proof fn lemma_earliest_nearest_wins(samples: Seq<(char, u8)>, i: int, j: int)
    requires
        0 <= i < 256,
        0 <= j < samples.len(),
        dist_to(samples[j].1, i) > 0,
        forall|k: int|
            0 <= k < samples.len() ==> dist_to(samples[k].1, i) >= dist_to(samples[j].1, i),
        forall|k: int| 0 <= k < j ==> dist_to(samples[k].1, i) > dist_to(samples[j].1, i),
    ensures
        slot_dist(samples, i) == dist_to(samples[j].1, i),
        slot_sym(samples, i) == samples[j].0,
    decreases samples.len(),
{
    broadcast use lemma_slot_dist_bounds;

    let n = samples.len() - 1;
    let d0 = dist_to(samples[j].1, i);
    lemma_slot_dist_le(samples, i, j);
    lemma_slot_dist_ge(samples, i, d0);
    if j == n {
        assert forall|k: int| 0 <= k < samples.drop_last().len() implies dist_to(
            samples.drop_last()[k].1,
            i,
        ) >= d0 + 1 by {
            assert(samples.drop_last()[k] == samples[k]);
        }
        lemma_slot_dist_ge(samples.drop_last(), i, d0 + 1);
    } else {
        lemma_earliest_nearest_wins(samples.drop_last(), i, j);
        assert(dist_to(samples[n].1, i) >= d0);
    }
}

/// Monotonic nearness: between two samples with no sample strictly between
/// them, each slot belongs to the strictly closer of the two; at an exact
/// midpoint the earlier-supplied of the two brightnesses wins.
pub proof fn lemma_monotonic_nearness(samples: Seq<(char, u8)>, i: int, j1: int, j2: int)
    requires
        0 <= j1 < samples.len(),
        0 <= j2 < samples.len(),
        (samples[j1].1 as int) < i < (samples[j2].1 as int),
        forall|k: int|
            0 <= k < samples.len() ==> samples[k].1 <= samples[j1].1 || samples[k].1
                >= samples[j2].1,
    ensures
        i - samples[j1].1 < samples[j2].1 - i ==> exists|k: int|
            0 <= k < samples.len() && samples[k].1 == samples[j1].1 && samples[k].0 == slot_sym(
                samples,
                i,
            ) && (forall|m: int| 0 <= m < k ==> samples[m].1 != samples[j1].1),
        samples[j2].1 - i < i - samples[j1].1 ==> exists|k: int|
            0 <= k < samples.len() && samples[k].1 == samples[j2].1 && samples[k].0 == slot_sym(
                samples,
                i,
            ) && (forall|m: int| 0 <= m < k ==> samples[m].1 != samples[j2].1),
        i - samples[j1].1 == samples[j2].1 - i ==> exists|k: int|
            0 <= k < samples.len() && (samples[k].1 == samples[j1].1 || samples[k].1
                == samples[j2].1) && samples[k].0 == slot_sym(samples, i) && (forall|m: int|
                0 <= m < k ==> samples[m].1 != samples[j1].1 && samples[m].1 != samples[j2].1),
{
    let b1 = samples[j1].1;
    let b2 = samples[j2].1;
    let d1 = i - b1;
    let d2 = b2 as int - i;
    if d1 < d2 {
        let k = lemma_first_at_either(samples, b1, b1, j1);
        assert(dist_to(samples[k].1, i) == d1);
        assert forall|m: int| 0 <= m < samples.len() implies dist_to(samples[m].1, i) >= d1 by {}
        assert forall|m: int| 0 <= m < k implies dist_to(samples[m].1, i) > d1 by {}
        lemma_earliest_nearest_wins(samples, i, k);
    } else if d2 < d1 {
        let k = lemma_first_at_either(samples, b2, b2, j2);
        assert(dist_to(samples[k].1, i) == d2);
        assert forall|m: int| 0 <= m < samples.len() implies dist_to(samples[m].1, i) >= d2 by {}
        assert forall|m: int| 0 <= m < k implies dist_to(samples[m].1, i) > d2 by {}
        lemma_earliest_nearest_wins(samples, i, k);
    } else {
        let k = lemma_first_at_either(samples, b1, b2, j1);
        assert(dist_to(samples[k].1, i) == d1);
        assert forall|m: int| 0 <= m < samples.len() implies dist_to(samples[m].1, i) >= d1 by {}
        assert forall|m: int| 0 <= m < k implies dist_to(samples[m].1, i) > d1 by {}
        lemma_earliest_nearest_wins(samples, i, k);
    }
}

/// Determinism: the built table is a function of the ordered sample
/// sequence alone, so two builds from the same sequence agree exactly.
pub proof fn lemma_build_deterministic(samples: Seq<(char, u8)>, t1: Seq<char>, t2: Seq<char>)
    requires
        t1 == spec_table(samples),
        t2 == spec_table(samples),
    ensures
        t1 == t2,
{
}

/// Returns the first index whose brightness is `bx` or `by`, given a
/// witness index `w` holding one of them.
proof fn lemma_first_at_either(samples: Seq<(char, u8)>, bx: u8, by: u8, w: int) -> (k: int)
    requires
        0 <= w < samples.len(),
        samples[w].1 == bx || samples[w].1 == by,
    ensures
        0 <= k < samples.len(),
        samples[k].1 == bx || samples[k].1 == by,
        forall|m: int| 0 <= m < k ==> samples[m].1 != bx && samples[m].1 != by,
    decreases samples.len(),
{
    if samples[0].1 == bx || samples[0].1 == by {
        0
    } else {
        let k0 = lemma_first_at_either(samples.drop_first(), bx, by, w - 1);
        assert forall|m: int| 0 <= m < k0 + 1 implies samples[m].1 != bx && samples[m].1 != by by {
            if m > 0 {
                assert(samples.drop_first()[m - 1] == samples[m]);
            }
        }
        k0 + 1
    }
}

/// The nearest recorded distance never exceeds the distance to any one
/// sample.
proof fn lemma_slot_dist_le(samples: Seq<(char, u8)>, i: int, k: int)
    requires
        0 <= k < samples.len(),
    ensures
        slot_dist(samples, i) <= dist_to(samples[k].1, i),
    decreases samples.len(),
{
    if k < samples.len() - 1 {
        lemma_slot_dist_le(samples.drop_last(), i, k);
    }
}

/// If every sample lies at distance at least `m` from slot `i`, the
/// nearest recorded distance is at least `m`.
proof fn lemma_slot_dist_ge(samples: Seq<(char, u8)>, i: int, m: int)
    requires
        m <= 256,
        forall|k: int| 0 <= k < samples.len() ==> dist_to(samples[k].1, i) >= m,
    ensures
        slot_dist(samples, i) >= m,
    decreases samples.len(),
{
    if samples.len() > 0 {
        assert forall|k: int| 0 <= k < samples.drop_last().len() implies dist_to(
            samples.drop_last()[k].1,
            i,
        ) >= m by {
            assert(samples.drop_last()[k] == samples[k]);
        }
        lemma_slot_dist_ge(samples.drop_last(), i, m);
    }
}

// ---------------------------------------------------------------------------
// Supporting lemmas for the propagation proof.
// ---------------------------------------------------------------------------

/// Nearest distances are never negative and never exceed the 256 sentinel.
pub broadcast proof fn lemma_slot_dist_bounds(samples: Seq<(char, u8)>, i: int)
    ensures
        0 <= #[trigger] slot_dist(samples, i) <= 256,
    decreases samples.len(),
{
    if samples.len() > 0 {
        lemma_slot_dist_bounds(samples.drop_last(), i);
    }
}

/// Applying one more sample changes a slot exactly as the builder's
/// overwrite rule says.
proof fn lemma_slot_step(samples: Seq<(char, u8)>, c: char, b: u8, i: int)
    ensures
        slot_dist(samples.push((c, b)), i) == (if dist_to(b, i) < slot_dist(samples, i) {
            dist_to(b, i)
        } else {
            slot_dist(samples, i)
        }),
        slot_sym(samples.push((c, b)), i) == (if dist_to(b, i) == 0 {
            c
        } else if dist_to(b, i) < slot_dist(samples, i) {
            c
        } else {
            slot_sym(samples, i)
        }),
{
    broadcast use lemma_slot_dist_bounds;

    assert(samples.push((c, b)).drop_last() =~= samples);
    assert(samples.push((c, b)).last() == (c, b));
}

/// Recorded nearest distances change by at most one between neighbouring
/// slots, so a propagation that has been beaten once stays beaten.
proof fn lemma_slot_dist_lipschitz(samples: Seq<(char, u8)>, lo: int, hi: int)
    requires
        lo <= hi,
    ensures
        slot_dist(samples, lo) <= slot_dist(samples, hi) + (hi - lo),
        slot_dist(samples, hi) <= slot_dist(samples, lo) + (hi - lo),
    decreases samples.len(),
{
    if samples.len() > 0 {
        lemma_slot_dist_lipschitz(samples.drop_last(), lo, hi);
    }
}

/// When a leftward propagation from `b` is stopped at slot `i`, every slot
/// at or below `i` already holds a claim at least as close, so the new
/// sample changes none of them.
proof fn lemma_halt_below(samples: Seq<(char, u8)>, c: char, b: u8, i: int, q: int)
    requires
        0 <= q <= i < b as int,
        dist_to(b, i) >= slot_dist(samples, i),
    ensures
        slot_dist(samples.push((c, b)), q) == slot_dist(samples, q),
        slot_sym(samples.push((c, b)), q) == slot_sym(samples, q),
{
    lemma_slot_dist_lipschitz(samples, q, i);
    lemma_slot_step(samples, c, b, q);
}

/// The symmetric fact for a rightward propagation stopped at slot `i`.
proof fn lemma_halt_above(samples: Seq<(char, u8)>, c: char, b: u8, i: int, q: int)
    requires
        (b as int) < i <= q,
        dist_to(b, i) >= slot_dist(samples, i),
    ensures
        slot_dist(samples.push((c, b)), q) == slot_dist(samples, q),
        slot_sym(samples.push((c, b)), q) == slot_sym(samples, q),
{
    lemma_slot_dist_lipschitz(samples, i, q);
    lemma_slot_step(samples, c, b, q);
}

} // verus!

