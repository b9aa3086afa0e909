use vstd::prelude::*;

verus! {

/// Saturating darkening of one pixel.
pub open spec fn spec_sat_sub(p: u8, d: u8) -> u8 {
    if p >= d {
        (p - d) as u8
    } else {
        0u8
    }
}

/// One pixel row translated through a 256-slot table, after darkening.
pub open spec fn spec_row(row: Seq<u8>, lut: Seq<char>, darken: u8) -> Seq<char> {
    Seq::new(row.len(), |x: int| lut[spec_sat_sub(row[x], darken) as int])
}

/// A whole pixel buffer translated row by row: each full row of `width`
/// pixels becomes its characters followed by a line break; a trailing
/// partial row (never produced by a well-formed image) gets no break, and
/// a zero-width image translates to nothing.
pub open spec fn spec_text(pixels: Seq<u8>, width: nat, lut: Seq<char>, darken: u8) -> Seq<char>
    decreases pixels.len(),
{
    if width == 0 || pixels.len() == 0 {
        Seq::empty()
    } else if pixels.len() < width {
        spec_row(pixels, lut, darken)
    } else {
        spec_row(pixels.take(width as int), lut, darken).push('\n') + spec_text(
            pixels.skip(width as int),
            width,
            lut,
            darken,
        )
    }
}

/// Relies on String::push: appends exactly one character.
#[verifier::external_body]
pub(crate) fn push_char(s: &mut String, c: char)
    ensures
        final (s)@ == old(s)@.push(c),
{
    s.push(c);
}

/// Translates a pixel buffer into text, one looked-up symbol per pixel
/// and a line break after every full row of `width` pixels.
pub(crate) fn translate(pixels: &Vec<u8>, width: u32, lut: &Vec<char>, darken: u8) -> (s: String)
    requires
        lut@.len() == 256,
    ensures
        s@ == spec_text(pixels@, width as nat, lut@, darken),
{
    let mut s = String::new();
    if width == 0 {
        return s;
    }
    let w = width as usize;
    let n = pixels.len();
    let mut pos: usize = 0;
    proof {
        assert(pixels@.skip(0) =~= pixels@);
        assert(s@ + spec_text(pixels@, width as nat, lut@, darken) =~= spec_text(
            pixels@,
            width as nat,
            lut@,
            darken,
        ));
    }
    while n - pos >= w
        invariant
            w == width as int,
            w >= 1,
            n == pixels@.len(),
            pos <= pixels@.len(),
            lut@.len() == 256,
            s@ + spec_text(pixels@.skip(pos as int), width as nat, lut@, darken) == spec_text(
                pixels@,
                width as nat,
                lut@,
                darken,
            ),
        decreases pixels@.len() - pos,
    {
        let ghost s0 = s@;
        let ghost rest = pixels@.skip(pos as int);
        let ghost row = rest.take(w as int);
        let mut x: usize = 0;
        while x < w
            invariant
                x <= w,
                w == width as int,
                n == pixels@.len(),
                pos + w <= n,
                lut@.len() == 256,
                rest == pixels@.skip(pos as int),
                row == rest.take(w as int),
                s@ == s0 + spec_row(row, lut@, darken).take(x as int),
            decreases w - x,
        {
            proof {
                assert(pos + x < pixels@.len());
            }
            let p = pixels[pos + x];
            let shifted = if p >= darken {
                p - darken
            } else {
                0
            };
            let c = lut[shifted as usize];
            push_char(&mut s, c);
            proof {
                assert(row[x as int] == pixels@[pos + x]);
                assert(spec_row(row, lut@, darken).take(x as int + 1) =~= spec_row(
                    row,
                    lut@,
                    darken,
                ).take(x as int).push(c));
            }
            x = x + 1;
        }
        push_char(&mut s, '\n');
        proof {
            assert(spec_row(row, lut@, darken).take(w as int) =~= spec_row(row, lut@, darken));
        }
        pos = pos + w;
        proof {
            assert(rest.skip(w as int) =~= pixels@.skip(pos as int));
            assert(s@ + spec_text(pixels@.skip(pos as int), width as nat, lut@, darken) =~= s0
                + spec_text(rest, width as nat, lut@, darken));
        }
    }
    let ghost s1 = s@;
    let ghost tail = pixels@.skip(pos as int);
    let start = pos;
    let mut x: usize = pos;
    while x < n
        invariant
            start == pos,
            n == pixels@.len(),
            start <= x <= pixels@.len(),
            pixels@.len() - start < w,
            w == width as int,
            w >= 1,
            lut@.len() == 256,
            tail == pixels@.skip(start as int),
            s@ == s1 + spec_row(tail, lut@, darken).take(x - start),
        decreases pixels@.len() - x,
    {
        let p = pixels[x];
        let shifted = if p >= darken {
            p - darken
        } else {
            0
        };
        let c = lut[shifted as usize];
        push_char(&mut s, c);
        proof {
            assert(tail[x - start] == pixels@[x as int]);
            assert(spec_row(tail, lut@, darken).take(x - start + 1) =~= spec_row(
                tail,
                lut@,
                darken,
            ).take(x - start).push(c));
        }
        x = x + 1;
    }
    proof {
        assert(spec_row(tail, lut@, darken).take(pixels@.len() - start) =~= spec_row(
            tail,
            lut@,
            darken,
        ));
        assert(s@ =~= spec_text(pixels@, width as nat, lut@, darken));
    }
    s
}

} // verus!
