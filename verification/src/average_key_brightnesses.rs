use vstd::prelude::*;

use crate::errors::BuildError;
use std::collections::HashMap;
use vstd::arithmetic::div_mod::{lemma_div_by_multiple, lemma_div_is_ordered};

verus! {

/// The printable keys an alphabet is usually drawn from.
pub const PRINTABLE_CHARACTERS: &'static str =
    "!\"#$%&'()*+,-./0123456789:;<=>?@ABCDEFGHIJKLMNOPQRSTUVWXYZ[\\]^_`abcdefghijklmnopqrstuvwxyz{|}~";

/// How many times a key row is repeated vertically when rendered.
pub const KEY_REPETITION: u8 = 3;

/// How much wider than tall a rendered key cell is taken to be.
pub const KEY_WIDTH_MULTIPLIER: u8 = 2;

/// How many copies of a key one rendered chunk row holds.
pub const CHUNK_WIDTH_KEY_AMOUNT: usize = 6;

/// Sum of a pixel buffer's brightness bytes.
pub open spec fn sum_bytes(s: Seq<u8>) -> int
    decreases s.len(),
{
    if s.len() == 0 {
        0
    } else {
        sum_bytes(s.drop_last()) + s.last()
    }
}

/// The byte sum lies between zero and 255 per pixel.
pub broadcast proof fn lemma_sum_bytes_bounds(s: Seq<u8>)
    ensures
        0 <= #[trigger] sum_bytes(s) <= 255 * s.len(),
    decreases s.len(),
{
    if s.len() > 0 {
        lemma_sum_bytes_bounds(s.drop_last());
    }
}

/// The map that collecting the (brightness, key) pairs produces: a later
/// pair with the same brightness overwrites an earlier one.
pub open spec fn spec_pairs_map(samples: Seq<(char, u8)>) -> Map<u8, char>
    decreases samples.len(),
{
    if samples.len() == 0 {
        Map::empty()
    } else {
        spec_pairs_map(samples.drop_last()).insert(samples.last().1, samples.last().0)
    }
}

/// An ordered alphabet together with the average brightness measured for
/// each of its keys: the sample sequence that the table builder consumes.
pub struct AverageKeyBrightnesses {
    keys: Vec<char>,
    brightnesses: Vec<u8>,
}

impl View for AverageKeyBrightnesses {
    type V = Seq<(char, u8)>;

    closed spec fn view(&self) -> Seq<(char, u8)> {
        Seq::new(self.keys@.len(), |j: int| (self.keys@[j], self.brightnesses@[j]))
    }
}

impl AverageKeyBrightnesses {
    #[verifier::type_invariant]
    spec fn wf(self) -> bool {
        self.keys@.len() == self.brightnesses@.len()
    }

    /// Measures every key of the alphabet on its rendered pixel buffer.
    /// Fails on the first key whose buffer is empty (a zero-area
    /// rendering); succeeds otherwise with one sample per key, in key
    /// order.
    pub fn new(keys: &Vec<char>, images: &Vec<Vec<u8>>) -> (r: Result<
        AverageKeyBrightnesses,
        BuildError,
    >)
        requires
            keys@.len() == images@.len(),
        ensures
            (forall|j: int| 0 <= j < images@.len() ==> images@[j]@.len() > 0) <==> r is Ok,
            r matches Ok(a) ==> a@.len() == keys@.len() && (forall|j: int|
                0 <= j < keys@.len() ==> #[trigger] a@[j] == (
                    keys@[j],
                    (sum_bytes(images@[j]@) / images@[j]@.len() as int) as u8,
                )),
            r matches Err(e) ==> exists|j: int|
                0 <= j < images@.len() && images@[j]@.len() == 0 && e
                    == BuildError::DegenerateGlyphArea(keys@[j]) && (forall|m: int|
                    0 <= m < j ==> images@[m]@.len() > 0),
    {
        let brightnesses = Self::keys_average_brightnesses(keys, images)?;
        let a = AverageKeyBrightnesses { keys: keys.clone(), brightnesses };
        proof {
            broadcast use lemma_sum_bytes_bounds;

            assert(forall|j: int|
                0 <= j < keys@.len() ==> #[trigger] a@[j] == (
                    keys@[j],
                    (sum_bytes(images@[j]@) / images@[j]@.len() as int) as u8,
                ));
        }
        Ok(a)
    }

    /// Reduces every key's rendered pixel buffer to one average
    /// brightness, in key order; stops at the first key with an empty
    /// buffer.
    pub fn keys_average_brightnesses(keys: &Vec<char>, images: &Vec<Vec<u8>>) -> (r: Result<
        Vec<u8>,
        BuildError,
    >)
        requires
            keys@.len() == images@.len(),
        ensures
            (forall|j: int| 0 <= j < images@.len() ==> images@[j]@.len() > 0) <==> r is Ok,
            r matches Ok(v) ==> v@.len() == keys@.len() && (forall|j: int|
                0 <= j < keys@.len() ==> #[trigger] v@[j] as int == sum_bytes(images@[j]@)
                    / images@[j]@.len() as int),
            r matches Err(e) ==> exists|j: int|
                0 <= j < images@.len() && images@[j]@.len() == 0 && e
                    == BuildError::DegenerateGlyphArea(keys@[j]) && (forall|m: int|
                    0 <= m < j ==> images@[m]@.len() > 0),
    {
        let mut out: Vec<u8> = Vec::with_capacity(keys.len());
        let mut j: usize = 0;
        while j < keys.len()
            invariant
                keys@.len() == images@.len(),
                j <= keys@.len(),
                out@.len() == j,
                forall|m: int| 0 <= m < j ==> images@[m]@.len() > 0,
                forall|m: int|
                    0 <= m < j ==> #[trigger] out@[m] as int == sum_bytes(images@[m]@)
                        / images@[m]@.len() as int,
            decreases keys@.len() - j,
        {
            let image: &Vec<u8> = &images[j];
            if image.len() == 0 {
                return Err(BuildError::DegenerateGlyphArea(keys[j]));
            }
            out.push(Self::average_brightness(image));
            j = j + 1;
        }
        Ok(out)
    }

    /// Average brightness of a pixel buffer: the byte sum divided by the
    /// pixel count, rounded down. The result always fits a brightness
    /// byte.
    pub fn average_brightness(pixels: &Vec<u8>) -> (b: u8)
        requires
            pixels@.len() > 0,
        ensures
            b as int == sum_bytes(pixels@) / pixels@.len() as int,
    {
        let mut acc: u128 = 0;
        let mut k: usize = 0;
        while k < pixels.len()
            invariant
                k <= pixels@.len(),
                acc as int == sum_bytes(pixels@.take(k as int)),
                acc <= 255 * (k as u128),
            decreases pixels@.len() - k,
        {
            proof {
                assert(pixels@.take(k as int + 1).drop_last() =~= pixels@.take(k as int));
                assert(pixels@.take(k as int + 1).last() == pixels@[k as int]);
            }
            acc = acc + (pixels[k] as u128);
            k = k + 1;
        }
        proof {
            assert(pixels@.take(pixels@.len() as int) =~= pixels@);
            broadcast use lemma_sum_bytes_bounds;

            lemma_div_is_ordered(
                sum_bytes(pixels@),
                255 * (pixels@.len() as int),
                pixels@.len() as int,
            );
            lemma_div_by_multiple(255, pixels@.len() as int);
        }
        let len: u128 = pixels.len() as u128;
        (acc / len) as u8
    }

    /// The measured brightnesses, in key order.
    pub fn brightnesses(&self) -> (r: &Vec<u8>)
        ensures
            r@.len() == self@.len(),
            forall|j: int| 0 <= j < self@.len() ==> r@[j] == self@[j].1,
    {
        proof {
            use_type_invariant(self);
        }
        &self.brightnesses
    }

    /// The alphabet, in input order.
    pub fn keys(&self) -> (r: &Vec<char>)
        ensures
            r@.len() == self@.len(),
            forall|j: int| 0 <= j < self@.len() ==> r@[j] == self@[j].0,
    {
        proof {
            use_type_invariant(self);
        }
        &self.keys
    }

    /// The samples as (brightness, key) pairs, in key order.
    pub fn as_tuple(&self) -> (r: Vec<(u8, char)>)
        ensures
            r@.len() == self@.len(),
            forall|j: int| 0 <= j < self@.len() ==> #[trigger] r@[j] == (self@[j].1, self@[j].0),
    {
        proof {
            use_type_invariant(self);
        }
        let mut out: Vec<(u8, char)> = Vec::with_capacity(self.keys.len());
        let mut j: usize = 0;
        while j < self.keys.len()
            invariant
                self.wf(),
                j <= self.keys@.len(),
                out@.len() == j,
                forall|m: int|
                    0 <= m < j ==> #[trigger] out@[m] == (self.brightnesses@[m], self.keys@[m]),
            decreases self.keys@.len() - j,
        {
            out.push((self.brightnesses[j], self.keys[j]));
            j = j + 1;
        }
        out
    }

    /// The samples as a brightness-to-key map; among keys measured at the
    /// same brightness the later one stays, as collecting the pairs into
    /// a map does.
    pub fn as_hash_map(&self) -> (m: HashMap<u8, char>)
        ensures
            m@ == spec_pairs_map(self@),
    {
        proof {
            use_type_invariant(self);
        }
        broadcast use vstd::std_specs::hash::group_hash_axioms;

        let mut m: HashMap<u8, char> = HashMap::new();
        let mut j: usize = 0;
        while j < self.keys.len()
            invariant
                self.wf(),
                j <= self.keys@.len(),
                m@ == spec_pairs_map(self@.take(j as int)),
            decreases self.keys@.len() - j,
        {
            proof {
                assert(self@.take(j as int + 1).drop_last() =~= self@.take(j as int));
                assert(self@.take(j as int + 1).last() == self@[j as int]);
            }
            m.insert(self.brightnesses[j], self.keys[j]);
            j = j + 1;
        }
        proof {
            assert(self@.take(self@.len() as int) =~= self@);
        }
        m
    }
}

} // verus!
