//! Text measurement and score formatting for the renderer: the few parts
//! of text handling that are pure arithmetic on bytes. Rasterization of
//! glyphs stays outside this crate.

use vstd::prelude::*;
use vstd::string::StringSliceAdditionalSpecFns;

verus! {

/// Number of glyphs of the bitmap font.
pub const GLYPH_COUNT: u32 = 256;

/// Width of every glyph of the bitmap font, in pixels.
pub const GLYPH_WIDTH: u32 = 8;

/// Anything that can be measured as a run of glyph bytes.
pub trait StrAsBytes {
    /// The bytes the text stands for.
    spec fn bytes_view(&self) -> Seq<u8>;

    /// Hand out the bytes.
    fn as_bytes(&self) -> (r: &[u8])
        ensures
            r@ == self.bytes_view(),
    ;
}

impl StrAsBytes for str {
    open spec fn bytes_view(&self) -> Seq<u8> {
        self.spec_bytes()
    }

    fn as_bytes(&self) -> (r: &[u8]) {
        str::as_bytes(self)
    }
}

impl StrAsBytes for [u8] {
    open spec fn bytes_view(&self) -> Seq<u8> {
        self@
    }

    fn as_bytes(&self) -> (r: &[u8]) {
        self
    }
}

/// Width in pixels of `text` drawn at `scale`: each glyph is
/// `GLYPH_WIDTH * scale` wide and consecutive glyphs are `scale` apart.
pub fn text_width<T: StrAsBytes + ?Sized>(text: &T, scale: u32) -> (r: i32)
    requires
        1 <= text.bytes_view().len(),
        text.bytes_view().len() * GLYPH_WIDTH * scale + (text.bytes_view().len() - 1) * scale
            <= i32::MAX,
    ensures
        r == text.bytes_view().len() * GLYPH_WIDTH * scale + (text.bytes_view().len() - 1) * scale,
{
    let bytes = text.as_bytes();
    let len = bytes.len();
    proof {
        assert(len * GLYPH_WIDTH * scale + (len - 1) * scale <= i32::MAX);
        assert(len <= len * GLYPH_WIDTH * scale + (len - 1) * scale || scale == 0) by (nonlinear_arith)
            requires 1 <= len,
        ;
        assert(scale <= len * GLYPH_WIDTH * scale || scale == 0) by (nonlinear_arith)
            requires 1 <= len,
        ;
        assert(len * GLYPH_WIDTH <= len * GLYPH_WIDTH * scale || scale == 0) by (nonlinear_arith)
            requires 1 <= len,
        ;
    }
    if scale == 0 {
        return 0;
    }
    let glyphs = len as i32 * GLYPH_WIDTH as i32 * scale as i32;
    let gaps = (len - 1) as i32 * scale as i32;
    proof {
        assert(len as i32 * GLYPH_WIDTH as i32 * scale as i32 == len * GLYPH_WIDTH * scale)
            by (nonlinear_arith)
            requires
                1 <= len <= i32::MAX,
                1 <= scale,
                len * GLYPH_WIDTH * scale + (len - 1) * scale <= i32::MAX,
        ;
    }
    glyphs + gaps
}

/// The decimal digits of `n`, as ASCII bytes, most significant first and
/// without leading zeroes.
pub open spec fn dec_digits(n: nat) -> Seq<u8>
    decreases n,
{
    if n < 10 {
        seq![(48 + n) as u8]
    } else {
        dec_digits(n / 10).push((48 + n % 10) as u8)
    }
}

/// The score as text: the decimal digits of `points`, ready to be drawn
/// in the status bar.
pub fn points_text(points: u32) -> (r: Vec<u8>)
    ensures
        r@ == dec_digits(points as nat),
{
    let mut reversed: Vec<u8> = Vec::new();
    let mut n = points;
    loop
        invariant_except_break
            dec_digits(points as nat) == dec_digits(n as nat) + reversed@.reverse(),
        ensures
            dec_digits(points as nat) == reversed@.reverse(),
        decreases n,
    {
        proof {
            assert(reversed@.push(((48 + n as nat % 10) as u8)).reverse() =~= seq![(48 + n as nat
                % 10) as u8] + reversed@.reverse());
            if n >= 10 {
                assert(dec_digits(n as nat) == dec_digits(n as nat / 10).push(
                    (48 + n as nat % 10) as u8,
                ));
                assert(dec_digits(n as nat / 10) + (seq![(48 + n as nat % 10) as u8]
                    + reversed@.reverse()) =~= dec_digits(n as nat) + reversed@.reverse());
            } else {
                assert(dec_digits(n as nat) =~= seq![(48 + n as nat) as u8]);
                assert(seq![(48 + n as nat) as u8] + reversed@.reverse() =~= dec_digits(n as nat)
                    + reversed@.reverse());
            }
        }
        reversed.push((48 + n % 10) as u8);
        if n < 10 {
            proof {
                assert(Seq::<u8>::empty() + reversed@.reverse() =~= reversed@.reverse());
            }
            break;
        }
        n = n / 10;
        proof {
            assert(dec_digits(points as nat) =~= dec_digits(n as nat) + reversed@.reverse());
        }
    }
    let mut r: Vec<u8> = Vec::new();
    let mut i = reversed.len();
    while i > 0
        invariant
            i <= reversed@.len(),
            r@ == reversed@.skip(i as int).reverse(),
        decreases i,
    {
        i = i - 1;
        let b = reversed[i];
        r.push(b);
        proof {
            assert(r@ =~= reversed@.skip(i as int).reverse());
        }
    }
    proof {
        assert(reversed@.skip(0) =~= reversed@);
    }
    r
}

} // verus!
