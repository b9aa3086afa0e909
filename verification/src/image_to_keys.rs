use vstd::prelude::*;

use crate::average_key_brightnesses::{
    spec_pairs_map, AverageKeyBrightnesses, KEY_WIDTH_MULTIPLIER,
};
use crate::pixel_image::PixelImage;
use crate::resize::{lanczos3_of, resize_lanczos3};
use crate::text::push_char;
use vstd::pervasive::unreached;

verus! {

/// Distance between two brightness bytes.
pub open spec fn dist_between(a: u8, b: u8) -> int {
    if a >= b {
        a - b
    } else {
        b - a
    }
}

/// The measured brightness nearest to `input`: scanning in order, a later
/// value replaces the current one only when strictly closer, so the
/// earliest of equally near values stays.
pub open spec fn spec_closest(s: Seq<u8>, input: u8) -> u8
    decreases s.len(),
{
    if s.len() <= 1 {
        s[0]
    } else {
        let prev = spec_closest(s.drop_last(), input);
        if dist_between(s.last(), input) < dist_between(prev, input) {
            s.last()
        } else {
            prev
        }
    }
}

/// The nearest brightness is one of the measured ones.
pub proof fn lemma_spec_closest_member(s: Seq<u8>, input: u8)
    requires
        s.len() > 0,
    ensures
        exists|j: int| 0 <= j < s.len() && s[j] == spec_closest(s, input),
    decreases s.len(),
{
    if s.len() > 1 {
        lemma_spec_closest_member(s.drop_last(), input);
        let prev = spec_closest(s.drop_last(), input);
        if dist_between(s.last(), input) < dist_between(prev, input) {
            assert(s[s.len() - 1] == spec_closest(s, input));
        } else {
            let j = choose|j: int| 0 <= j < s.drop_last().len() && s.drop_last()[j] == prev;
            assert(s[j] == spec_closest(s, input));
        }
    } else {
        assert(s[0] == spec_closest(s, input));
    }
}

/// Every brightness that occurs among the samples has an entry in the
/// collected map.
pub proof fn lemma_pairs_map_contains(samples: Seq<(char, u8)>, b: u8)
    requires
        exists|j: int| 0 <= j < samples.len() && samples[j].1 == b,
    ensures
        spec_pairs_map(samples).contains_key(b),
    decreases samples.len(),
{
    if samples.len() > 0 && samples.last().1 != b {
        let j = choose|j: int| 0 <= j < samples.len() && samples[j].1 == b;
        assert(samples.drop_last()[j] == samples[j]);
        lemma_pairs_map_contains(samples.drop_last(), b);
    }
}

/// One pixel row translated through the measured brightnesses: each pixel
/// maps to the key recorded for its nearest measured brightness.
pub open spec fn spec_key_row(row: Seq<u8>, bs: Seq<u8>, m: Map<u8, char>) -> Seq<char> {
    Seq::new(row.len(), |x: int| m[spec_closest(bs, row[x])])
}

/// Translation of a whole image into one line of keys per pixel row,
/// through the measured key brightnesses.
pub trait ImageToKeys {
    /// Finds the measured brightness nearest to the input, the earliest
    /// on ties; nothing when no brightnesses were measured.
    fn closest_brightness(vector: &[u8], input: u8) -> (r: Option<u8>)
        ensures
            r == if vector@.len() == 0 {
                Option::<u8>::None
            } else {
                Option::Some(spec_closest(vector@, input))
            },
    {
        if vector.len() == 0 {
            return None;
        }
        let mut best: u8 = vector[0];
        let mut k: usize = 1;
        while k < vector.len()
            invariant
                1 <= k <= vector@.len(),
                best == spec_closest(vector@.take(k as int), input),
            decreases vector@.len() - k,
        {
            proof {
                assert(vector@.take(k as int + 1).drop_last() =~= vector@.take(k as int));
                assert(vector@.take(k as int + 1).last() == vector@[k as int]);
            }
            let cand = vector[k];
            let dc = if cand >= input {
                cand - input
            } else {
                input - cand
            };
            let db = if best >= input {
                best - input
            } else {
                input - best
            };
            if dc < db {
                best = cand;
            }
            k = k + 1;
        }
        proof {
            assert(vector@.take(vector@.len() as int) =~= vector@);
        }
        Some(best)
    }

    /// The rows of keys this image translates to, given the samples.
    spec fn as_keys_spec(&self, samples: Seq<(char, u8)>) -> Seq<Seq<char>>;

    /// Whether translation succeeds: it fails exactly when pixels exist
    /// but no brightness was measured to match them against.
    spec fn as_keys_ok(&self, samples: Seq<(char, u8)>) -> bool;

    /// The image sizes the resampler accepts.
    spec fn as_keys_req(&self) -> bool;

    /// Shrinks the image's height, then maps every pixel of the result to
    /// the key whose measured brightness is nearest, one string per pixel
    /// row.
    fn as_keys(&self, key_brightnesses: &AverageKeyBrightnesses) -> (r: Result<Vec<String>, String>)
        requires
            self.as_keys_req(),
        ensures
            r is Ok <==> self.as_keys_ok(key_brightnesses@),
            r matches Ok(rows) ==> rows@.len() == self.as_keys_spec(key_brightnesses@).len() && (
            forall|y: int|
                0 <= y < rows@.len() ==> rows@[y]@ == self.as_keys_spec(key_brightnesses@)[y]),
            r matches Err(e) ==> e@ == "Couldn't find any brightnesses."@,
    ;
}

impl ImageToKeys for PixelImage {
    open spec fn as_keys_spec(&self, samples: Seq<(char, u8)>) -> Seq<Seq<char>> {
        let w = self.spec_width() as int;
        let nh = (self.spec_height() as int) / (KEY_WIDTH_MULTIPLIER as int);
        let resized = lanczos3_of(
            self.spec_pixels(),
            self.spec_width(),
            self.spec_height(),
            self.spec_width(),
            nh as u32,
        );
        Seq::new(
            nh as nat,
            |y: int|
                spec_key_row(
                    resized.subrange(y * w, (y + 1) * w),
                    samples.map_values(|s: (char, u8)| s.1),
                    spec_pairs_map(samples),
                ),
        )
    }

    open spec fn as_keys_ok(&self, samples: Seq<(char, u8)>) -> bool {
        samples.len() > 0 || (self.spec_width() as int) * ((self.spec_height() as int) / (
        KEY_WIDTH_MULTIPLIER as int)) == 0
    }

    open spec fn as_keys_req(&self) -> bool {
        4 * (self.spec_width() as int) * (self.spec_height() as int) <= usize::MAX as int
    }

    fn as_keys(&self, key_brightnesses: &AverageKeyBrightnesses) -> (r: Result<
        Vec<String>,
        String,
    >) {
        broadcast use vstd::std_specs::hash::group_hash_axioms;

        let brightnesses = key_brightnesses.brightnesses();
        let map = key_brightnesses.as_hash_map();
        let w = self.width();
        let h = self.height();
        let nh = h / (KEY_WIDTH_MULTIPLIER as u32);
        let resized = resize_lanczos3(self.pixels(), w, h, w, nh);
        let n = resized.len();
        let ghost samples = key_brightnesses@;
        let ghost bs = samples.map_values(|s: (char, u8)| s.1);
        let ghost pm = spec_pairs_map(samples);
        proof {
            assert(brightnesses@ =~= bs);
        }
        if brightnesses.len() == 0 && n > 0 {
            return Err("Couldn't find any brightnesses.".to_owned());
        }
        let mut rows: Vec<String> = Vec::new();
        if w == 0 {
            let mut y: u32 = 0;
            while y < nh
                invariant
                    y <= nh,
                    rows@.len() == y,
                    forall|m: int| 0 <= m < y ==> rows@[m]@ == Seq::<char>::empty(),
                decreases nh - y,
            {
                rows.push(String::new());
                y = y + 1;
            }
            proof {
                assert forall|m: int| 0 <= m < nh implies rows@[m]@ == self.as_keys_spec(samples)[m]
                    by {
                    assert(self.as_keys_spec(samples)[m] =~= Seq::<char>::empty());
                }
            }
            return Ok(rows);
        }
        let wu = w as usize;
        let mut pos: usize = 0;
        let mut y: usize = 0;
        while n - pos >= wu
            invariant
                wu == w as int,
                wu >= 1,
                n == resized@.len(),
                n == (w as int) * (nh as int),
                pos == y * wu,
                pos <= n,
                y <= nh,
                rows@.len() == y,
                brightnesses@ == bs,
                bs.len() == samples.len(),
                bs.len() > 0 || n == 0,
                map@ == pm,
                pm == spec_pairs_map(samples),
                bs == samples.map_values(|s: (char, u8)| s.1),
                forall|m: int|
                    0 <= m < y ==> rows@[m]@ == #[trigger] spec_key_row(
                        resized@.subrange(m * wu, (m + 1) * wu),
                        bs,
                        pm,
                    ),
            decreases n - pos,
        {
            let ghost row = resized@.subrange(pos as int, pos + wu);
            let mut rs = String::new();
            let mut x: usize = 0;
            while x < wu
                invariant
                    x <= wu,
                    wu >= 1,
                    pos + wu <= n,
                    n == resized@.len(),
                    bs.len() > 0,
                    bs.len() == samples.len(),
                    brightnesses@ == bs,
                    map@ == pm,
                    pm == spec_pairs_map(samples),
                    bs == samples.map_values(|s: (char, u8)| s.1),
                    row == resized@.subrange(pos as int, pos + wu),
                    rs@ == spec_key_row(row, bs, pm).take(x as int),
                decreases wu - x,
            {
                let p = resized[pos + x];
                let cb = match Self::closest_brightness(brightnesses.as_slice(), p) {
                    Some(v) => v,
                    None => unreached(),
                };
                proof {
                    lemma_spec_closest_member(bs, p);
                    let j = choose|j: int| 0 <= j < bs.len() && bs[j] == cb;
                    assert(samples[j].1 == cb);
                    lemma_pairs_map_contains(samples, cb);
                }
                let ch = match map.get(&cb) {
                    Some(c) => *c,
                    None => unreached(),
                };
                push_char(&mut rs, ch);
                proof {
                    assert(row[x as int] == resized@[pos + x]);
                    assert(spec_key_row(row, bs, pm).take(x as int + 1) =~= spec_key_row(
                        row,
                        bs,
                        pm,
                    ).take(x as int).push(ch));
                }
                x = x + 1;
            }
            proof {
                assert(spec_key_row(row, bs, pm).take(wu as int) =~= spec_key_row(row, bs, pm));
            }
            rows.push(rs);
            pos = pos + wu;
            proof {
                assert(n == wu * (nh as int)) by (nonlinear_arith)
                    requires
                        n == (w as int) * (nh as int),
                        wu == w as int,
                ;
                assert(y + 1 <= nh) by (nonlinear_arith)
                    requires
                        (y as int) * wu + wu <= wu * (nh as int),
                        wu >= 1,
                ;
            }
            y = y + 1;
            proof {
                assert(pos == y * wu) by (nonlinear_arith)
                    requires
                        pos == (y - 1) * wu + wu,
                ;
            }
        }
        proof {
            assert(y == nh) by (nonlinear_arith)
                requires
                    pos == y * wu,
                    pos <= n,
                    n - pos < wu,
                    n == (w as int) * (nh as int),
                    wu == w as int,
                    wu >= 1,
                    y <= nh,
            ;
            assert forall|m: int| 0 <= m < nh implies rows@[m]@ == self.as_keys_spec(samples)[m]
                by {
                assert(rows@[m]@ == spec_key_row(resized@.subrange(m * wu, (m + 1) * wu), bs, pm));
            }
        }
        Ok(rows)
    }
}

} // verus!
