//! The glyph atlas pixel buffer: copying a rendered glyph's RGB rows into
//! the RGBA atlas at its allocated place, and the byte range uploaded
//! afterwards.

use vstd::prelude::*;
use vstd::arithmetic::div_mod::{lemma_fundamental_div_mod, lemma_fundamental_div_mod_converse};

verus! {

/// Byte `i` of the atlas after a glyph of `w` by `h` RGB pixels `src` is
/// copied to column `dx`, row `dy` of an atlas whose rows are `stride`
/// bytes: inside the glyph's rectangle the glyph's color with opaque
/// alpha, elsewhere the byte as it was.
pub open spec fn blit_byte(old: Seq<u8>, src: Seq<u8>, stride: int, dx: int, dy: int, w: int, h: int, i: int) -> u8 {
    let row = i / stride;
    let col = i % stride;
    if dy <= row < dy + h && 4 * dx <= col < 4 * (dx + w) {
        let r = row - dy;
        let x = col / 4 - dx;
        let c = col % 4;
        if c == 3 {
            255u8
        } else {
            src[(r * w + x) * 3 + c]
        }
    } else {
        old[i]
    }
}

/// Byte `i` is among those the copy has written after `rows` full rows and
/// `cols` pixels of the next row.
pub open spec fn blit_done(stride: int, dx: int, dy: int, w: int, h: int, rows: int, cols: int, i: int) -> bool {
    let row = i / stride;
    let col = i % stride;
    &&& dy <= row < dy + h
    &&& 4 * dx <= col < 4 * (dx + w)
    &&& (row - dy < rows || (row - dy == rows && col < 4 * (dx + cols)))
}

proof fn lemma_position(stride: int, dx: int, w: int, row: int, x: int, c: int)
    requires
        0 <= c < 4,
        0 <= x < w,
        0 <= dx,
        4 * (dx + w) <= stride,
        0 <= row,
    ensures
        (row * stride + 4 * (dx + x) + c) / stride == row,
        (row * stride + 4 * (dx + x) + c) % stride == 4 * (dx + x) + c,
        (4 * (dx + x) + c) / 4 == dx + x,
        (4 * (dx + x) + c) % 4 == c,
{
    let i = row * stride + 4 * (dx + x) + c;
    lemma_fundamental_div_mod_converse(i, stride, row, 4 * (dx + x) + c);
    lemma_fundamental_div_mod_converse(4 * (dx + x) + c, 4, dx + x, c);
}

proof fn lemma_decompose(i: int, stride: int)
    requires
        stride > 0,
        i >= 0,
    ensures
        i == (i / stride) * stride + i % stride,
        i % stride == 4 * ((i % stride) / 4) + (i % stride) % 4,
        0 <= i % stride < stride,
        0 <= (i % stride) % 4 < 4,
        i / stride >= 0,
{
    lemma_fundamental_div_mod(i, stride);
    lemma_fundamental_div_mod(i % stride, 4);
    assert((i / stride) * stride == stride * (i / stride)) by (nonlinear_arith);
    assert(i / stride >= 0) by (nonlinear_arith)
        requires i >= 0, stride > 0;
}

/// Copies a glyph of `w` by `h` RGB pixels into the RGBA atlas buffer at
/// column `dx`, row `dy`, each pixel followed by an opaque alpha byte;
/// `stride` is the byte length of an atlas row.
pub fn blit_rgb_glyph(pixels: &mut Vec<u8>, stride: usize, dx: usize, dy: usize, src: &[u8], w: usize, h: usize)
    requires
        w > 0,
        h > 0,
        4 * (dx + w) <= stride,
        (dy + h - 1) * stride + 4 * (dx + w) <= old(pixels)@.len(),
        3 * w * h <= src@.len(),
    ensures
        final(pixels)@.len() == old(pixels)@.len(),
        forall|i: int| 0 <= i < final(pixels)@.len() ==> #[trigger] final(pixels)@[i] == blit_byte(
            old(pixels)@,
            src@,
            stride as int,
            dx as int,
            dy as int,
            w as int,
            h as int,
            i,
        ),
{
    let ghost old_px = pixels@;
    let ghost (s, x0, y0, wi, hi) = (stride as int, dx as int, dy as int, w as int, h as int);
    let n: usize = pixels.len();
    let src_len: usize = src.len();
    let mut row: usize = 0;
    while row < h
        invariant
            n == pixels@.len(),
            n == old_px.len(),
            src_len == src@.len(),
            s == stride, x0 == dx, y0 == dy, wi == w, hi == h,
            w > 0,
            h > 0,
            4 * (dx + w) <= stride,
            (dy + h - 1) * stride + 4 * (dx + w) <= n,
            3 * w * h <= src@.len(),
            0 <= row <= h,
            forall|i: int| 0 <= i < n ==> #[trigger] pixels@[i] == if blit_done(s, x0, y0, wi, hi, row as int, 0, i) {
                blit_byte(old_px, src@, s, x0, y0, wi, hi, i)
            } else {
                old_px[i]
            },
        decreases h - row,
    {
        proof {
            assert((dy + row) * stride + 4 * (dx + w) <= n) by (nonlinear_arith)
                requires row < h, (dy + h - 1) * stride + 4 * (dx + w) <= n, stride >= 0;
            assert(row * w * 3 + 3 * w <= src@.len()) by (nonlinear_arith)
                requires row < h, 3 * w * h <= src@.len();
            assert((dy + row) * stride <= n) by (nonlinear_arith)
                requires (dy + row) * stride + 4 * (dx + w) <= n;
            assert(row * w <= row * w * 3) by (nonlinear_arith);
            assert(dy + row <= (dy + row) * stride) by (nonlinear_arith)
                requires stride >= 4;
        }
        let dst_off: usize = (dy + row) * stride + dx * 4;
        let src_off: usize = row * w * 3;
        let mut x: usize = 0;
        while x < w
            invariant
                n == pixels@.len(),
                n == old_px.len(),
                src_len == src@.len(),
                s == stride, x0 == dx, y0 == dy, wi == w, hi == h,
                4 * (dx + w) <= stride,
                (dy + row) * stride + 4 * (dx + w) <= n,
                src_off + 3 * w <= src@.len(),
                dst_off == (dy + row) * stride + dx * 4,
                src_off == row * w * 3,
                0 <= row < h,
                0 <= x <= w,
                forall|i: int| 0 <= i < n ==> #[trigger] pixels@[i] == if blit_done(s, x0, y0, wi, hi, row as int, x as int, i) {
                    blit_byte(old_px, src@, s, x0, y0, wi, hi, i)
                } else {
                    old_px[i]
                },
            decreases w - x,
        {
            let p: usize = dst_off + 4 * x;
            let q: usize = src_off + 3 * x;
            let ghost before = pixels@;
            pixels.set(p, src[q]);
            pixels.set(p + 1, src[q + 1]);
            pixels.set(p + 2, src[q + 2]);
            pixels.set(p + 3, 255u8);
            proof {
                assert forall|i: int| 0 <= i < n implies #[trigger] pixels@[i] == if blit_done(
                    s,
                    x0,
                    y0,
                    wi,
                    hi,
                    row as int,
                    x + 1,
                    i,
                ) {
                    blit_byte(old_px, src@, s, x0, y0, wi, hi, i)
                } else {
                    old_px[i]
                } by {
                    lemma_decompose(i, s);
                    let rw = i / s;
                    let col = i % s;
                    if p <= i < p + 4 {
                        let c = i - p;
                        lemma_position(s, x0, wi, y0 + row, x as int, c);
                        assert(i == (y0 + row) * s + 4 * (x0 + x) + c);
                        assert(rw == y0 + row);
                        assert(col == 4 * (x0 + x) + c);
                        assert((row * w + x) * 3 + c == q + c) by (nonlinear_arith)
                            requires q == src_off + 3 * x, src_off == row * w * 3;
                    } else {
                        assert(pixels@[i] == before[i]);
                        if rw == y0 + row && 4 * (x0 + x) <= col < 4 * (x0 + x + 1) {
                            let c = col % 4;
                            assert(col == 4 * (x0 + x) + c) by {
                                lemma_fundamental_div_mod_converse(col, 4, x0 + x, col - 4 * (x0 + x));
                            }
                            assert(i == (y0 + row) * s + 4 * (x0 + x) + c);
                            assert(false);
                        }
                    }
                }
            }
            x += 1;
        }
        proof {
            assert forall|i: int| 0 <= i < n implies #[trigger] pixels@[i] == if blit_done(
                s,
                x0,
                y0,
                wi,
                hi,
                row + 1,
                0,
                i,
            ) {
                blit_byte(old_px, src@, s, x0, y0, wi, hi, i)
            } else {
                old_px[i]
            } by {
                if s > 0 {
                    lemma_decompose(i, s);
                }
            }
        }
        row += 1;
    }
    proof {
        assert forall|i: int| 0 <= i < n implies #[trigger] pixels@[i] == blit_byte(old_px, src@, s, x0, y0, wi, hi, i) by {
            if s > 0 {
                lemma_decompose(i, s);
            }
        }
    }
}

/// The bytes of the atlas buffer uploaded after a glyph of `w` by `h`
/// pixels was copied to column `dx`, row `dy`: from the glyph's first byte
/// to the end of its last row.
pub fn glyph_upload_range(stride: usize, dx: usize, dy: usize, w: usize, h: usize) -> (r: (usize, usize))
    requires
        h > 0,
        (dy + h - 1) * stride + 4 * (dx + w) <= usize::MAX,
    ensures
        r.0 == dy * stride + 4 * dx,
        r.1 == r.0 + (h - 1) * stride + 4 * w,
{
    proof {
        assert(dy * stride + 4 * dx + (h - 1) * stride + 4 * w == (dy + h - 1) * stride + 4 * (dx + w)) by (nonlinear_arith);
        assert(dy * stride <= (dy + h - 1) * stride) by (nonlinear_arith)
            requires h > 0;
    }
    let start: usize = dy * stride + dx * 4;
    (start, start + (h - 1) * stride + w * 4)
}

/// The characters of `chars` the atlas holds no glyph for, in order and
/// with repeats, given the characters it holds.
pub open spec fn missing_spec(present: Seq<char>, chars: Seq<char>) -> Seq<char> {
    chars.filter(|c: char| !present.contains(c))
}

/// The characters of `chars` that still need a glyph, given the characters
/// `present` in the atlas: those not present, in order, repeats included.
pub fn missing_glyphs(present: &Vec<char>, chars: &Vec<char>) -> (r: Vec<char>)
    ensures
        r@ == missing_spec(present@, chars@),
{
    let mut out: Vec<char> = Vec::new();
    let mut i: usize = 0;
    while i < chars.len()
        invariant
            i <= chars@.len(),
            out@ == chars@.take(i as int).filter(|c: char| !present@.contains(c)),
        decreases chars@.len() - i,
    {
        let c = chars[i];
        let mut held = false;
        let mut j: usize = 0;
        while j < present.len()
            invariant
                j <= present@.len(),
                held == present@.take(j as int).contains(c),
            decreases present@.len() - j,
        {
            let ghost pre = present@.take(j as int);
            assert(present@.take(j as int + 1) =~= pre.push(present@[j as int]));
            if present[j] == c {
                held = true;
                assert(pre.push(present@[j as int])[j as int] == c);
            }
            proof {
                if held && present@[j as int] != c {
                    let w = choose|w: int| 0 <= w < pre.len() && pre[w] == c;
                    assert(pre.push(present@[j as int])[w] == c);
                }
                if !held {
                    assert forall|w: int| 0 <= w < pre.len() + 1 implies pre.push(present@[j as int])[w] != c by {
                        if w < pre.len() {
                            assert(pre.push(present@[j as int])[w] == pre[w]);
                        }
                    }
                }
            }
            j += 1;
        }
        assert(present@.take(j as int) =~= present@);
        proof {
            assert(chars@.take(i as int + 1) =~= chars@.take(i as int).push(c));
            chars@.take(i as int).lemma_filter_push(c, |c: char| !present@.contains(c));
        }
        if !held {
            out.push(c);
        }
        i += 1;
    }
    assert(chars@.take(i as int) =~= chars@);
    out
}

} // verus!
