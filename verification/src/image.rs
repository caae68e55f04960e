//! Pixel-buffer preprocessing for text recognition. Buffers hold 32-bit BGRA
//! pixels, row after row, four bytes per pixel (blue, green, red, alpha).
use vstd::prelude::*;
use vstd::arithmetic::div_mod::{lemma_fundamental_div_mod_converse};

verus! {

/// Byte `c` of the pixel at column `x`, row `y` of a buffer `width` pixels wide.
pub open spec fn pixel_byte(s: Seq<u8>, width: int, x: int, y: int, c: int) -> u8 {
    s[(y * width + x) * 4 + c]
}

/// For `x < width`, the flat byte index of `(x, y, c)` splits back into them.
pub proof fn lemma_pixel_index(width: int, x: int, y: int, c: int)
    requires
        0 <= x < width,
        0 <= y,
        0 <= c < 4,
    ensures
        ((y * width + x) * 4 + c) / 4 == y * width + x,
        ((y * width + x) * 4 + c) % 4 == c,
        (y * width + x) / width == y,
        (y * width + x) % width == x,
{
    lemma_fundamental_div_mod_converse((y * width + x) * 4 + c, 4, y * width + x, c);
    lemma_fundamental_div_mod_converse(y * width + x, width, y, x);
}

/// Byte `i` of a buffer `nw` pixels wide that is `src` (`w` wide) enlarged
/// by `scale` with nearest-neighbour sampling.
pub open spec fn upscaled_byte(src: Seq<u8>, w: int, scale: int, nw: int, i: int) -> u8 {
    let p = i / 4;
    src[(((p / nw) / scale) * w + (p % nw) / scale) * 4 + i % 4]
}

/// The side length `pick_scale` enlarges a `w` by `h` region by before
/// recognition: small regions are enlarged more.
pub open spec fn scale_for(w: u32, h: u32) -> u32 {
    let m = if w >= h { w } else { h };
    if m < 80 { 8 } else if m < 160 { 5 } else { 3 }
}

pub fn pick_scale(w: u32, h: u32) -> (s: u32)
    ensures
        s == scale_for(w, h),
{
    let m = if w >= h { w } else { h };
    if m < 80 {
        8
    } else if m < 160 {
        5
    } else {
        3
    }
}

/// Enlarges a `w` by `h` BGRA buffer `scale` times in each direction by
/// repeating pixels. Returns the new buffer with its width and height.
pub fn upscale(bgra: &[u8], w: u32, h: u32, scale: u32) -> (r: (Vec<u8>, u32, u32))
    requires
        w * scale <= u32::MAX,
        h * scale <= u32::MAX,
        (w * scale) * (h * scale) * 4 <= u32::MAX,
        scale > 0 ==> bgra@.len() >= w * h * 4,
    ensures
        r.1 == w * scale,
        r.2 == h * scale,
        r.0@.len() == r.1 * r.2 * 4,
        forall|x: int, y: int, c: int|
            0 <= x < r.1 && 0 <= y < r.2 && 0 <= c < 4 ==> #[trigger] pixel_byte(r.0@, r.1 as int, x, y, c)
                == pixel_byte(bgra@, w as int, x / scale as int, y / scale as int, c),
{
    let nw = w * scale;
    let nh = h * scale;
    let mut out: Vec<u8> = Vec::new();
    let mut y: u32 = 0;
    assert(0 * nw * 4 == 0) by (nonlinear_arith);
    while y < nh
        invariant
            nw == w * scale,
            nh == h * scale,
            nw * nh * 4 <= u32::MAX,
            scale > 0 ==> bgra@.len() >= w * h * 4,
            y <= nh,
            out@.len() == y * nw * 4,
            forall|i: int| 0 <= i < out@.len() ==> #[trigger] out@[i] == upscaled_byte(bgra@, w as int, scale as int, nw as int, i),
        decreases nh - y,
    {
        assert(scale > 0) by (nonlinear_arith)
            requires y < nh, nh == h * scale;
        let sy = y / scale;
        assert(sy < h) by (nonlinear_arith)
            requires sy == y / scale, y < h * scale, scale > 0;
        let mut x: u32 = 0;
        while x < nw
            invariant
                nw == w * scale,
                nh == h * scale,
                nw * nh * 4 <= u32::MAX,
                bgra@.len() >= w * h * 4,
                scale > 0,
                y < nh,
                sy == y / scale,
                sy < h,
                x <= nw,
                out@.len() == (y * nw + x) * 4,
                forall|i: int| 0 <= i < out@.len() ==> #[trigger] out@[i] == upscaled_byte(bgra@, w as int, scale as int, nw as int, i),
            decreases nw - x,
        {
            let sx = x / scale;
            assert(sx < w) by (nonlinear_arith)
                requires sx == x / scale, x < w * scale, scale > 0;
            assert(sy * w + sx < w * h) by (nonlinear_arith)
                requires sy < h, sx < w;
            assert(w * h <= nw * nh) by (nonlinear_arith)
                requires nw == w * scale, nh == h * scale, scale > 0;
            let si: usize = (sy as usize * w as usize + sx as usize) * 4;
            let ghost p: int = y * nw + x;
            assert((y * nw + x + 1) * 4 <= nw * nh * 4) by (nonlinear_arith)
                requires y < nh, x < nw;
            let ghost before = out@;
            out.push(bgra[si]);
            out.push(bgra[si + 1]);
            out.push(bgra[si + 2]);
            out.push(bgra[si + 3]);
            proof {
                assert forall|i: int| 0 <= i < out@.len() implies #[trigger] out@[i] == upscaled_byte(
                    bgra@,
                    w as int,
                    scale as int,
                    nw as int,
                    i,
                ) by {
                    if i >= before.len() {
                        let c = i - p * 4;
                        lemma_pixel_index(nw as int, x as int, y as int, c);
                        assert(i == (y * nw + x) * 4 + c);
                    } else {
                        assert(out@[i] == before[i]);
                    }
                }
            }
            x += 1;
        }
        assert((y + 1) * nw * 4 == (y * nw + nw) * 4) by (nonlinear_arith);
        y += 1;
    }
    assert(out@.len() == nw * nh * 4) by (nonlinear_arith)
        requires out@.len() == nh * nw * 4;
    proof {
        assert forall|x: int, y: int, c: int|
            0 <= x < nw && 0 <= y < nh && 0 <= c < 4 implies #[trigger] pixel_byte(out@, nw as int, x, y, c)
                == pixel_byte(bgra@, w as int, x / scale as int, y / scale as int, c) by {
            lemma_pixel_index(nw as int, x, y, c);
            assert((y * nw + x) * 4 + c < nw * nh * 4) by (nonlinear_arith)
                requires 0 <= y < nh, 0 <= x < nw, 0 <= c < 4;
            assert(out@[(y * nw + x) * 4 + c] == upscaled_byte(bgra@, w as int, scale as int, nw as int, (y * nw + x) * 4 + c));
        }
    }
    (out, nw, nh)
}

} // verus!

verus! {

/// Among the first `k` pixels, how many have a first byte of at most `t`.
pub open spec fn dark_count(s: Seq<u8>, t: u8, k: int) -> nat
    decreases k,
{
    if k <= 0 {
        0
    } else {
        dark_count(s, t, k - 1) + if s[4 * (k - 1)] <= t { 1nat } else { 0nat }
    }
}

/// Whether binarising at `t` inverts the result: more than 70 % (rounded
/// down) of the pixels came out black.
pub open spec fn inverts(s: Seq<u8>, t: u8) -> bool {
    let total = s.len() / 4;
    dark_count(s, t, total as int) > (total * 70) / 100
}

/// Byte `i` of `s` binarised at `t`: in every whole pixel the three colour
/// bytes become 0 where the first byte is at most `t` and 255 elsewhere,
/// swapped if the picture came out mostly black; alpha bytes and any
/// trailing partial pixel are kept.
pub open spec fn binarized_byte(s: Seq<u8>, t: u8, i: int) -> u8 {
    let total = s.len() / 4;
    if i >= total * 4 || i % 4 == 3 {
        s[i]
    } else if (s[i - i % 4] <= t) != inverts(s, t) {
        0
    } else {
        255
    }
}

pub open spec fn binarized(s: Seq<u8>, t: u8) -> Seq<u8> {
    Seq::new(s.len(), |i: int| binarized_byte(s, t, i))
}

proof fn lemma_dark_count_le(s: Seq<u8>, t: u8, k: int)
    requires
        0 <= k,
    ensures
        dark_count(s, t, k) <= k,
    decreases k,
{
    if k > 0 {
        lemma_dark_count_le(s, t, k - 1);
    }
}

/// Turns the grey picture in `bgra` black and white at threshold `t`, and
/// inverts it when most of it came out black, so that text is dark on light.
pub fn binarize(bgra: &mut Vec<u8>, t: u8)
    ensures
        final(bgra)@ == binarized(old(bgra)@, t),
{
    let ghost s = bgra@;
    let total = bgra.len() / 4;
    assert(total * 4 <= bgra.len());
    let mut black: usize = 0;
    for k in 0..total
        invariant
            total * 4 <= s.len() <= usize::MAX,
            bgra@ == s,
            total == s.len() / 4,
            black == dark_count(s, t, k as int),
            black <= k,
    {
        if bgra[4 * k] <= t {
            black += 1;
        }
    }
    let invert = (black as u128) > (total as u128) * 70 / 100;
    assert(invert == inverts(s, t));
    for k in 0..total
        invariant
            total * 4 <= s.len() <= usize::MAX,
            total == s.len() / 4,
            invert == inverts(s, t),
            bgra@.len() == s.len(),
            forall|i: int| 0 <= i < 4 * k ==> #[trigger] bgra@[i] == binarized_byte(s, t, i),
            forall|i: int| 4 * k <= i < s.len() ==> #[trigger] bgra@[i] == s[i],
    {
        let v: u8 = if (bgra[4 * k] <= t) != invert { 0 } else { 255 };
        bgra.set(4 * k, v);
        bgra.set(4 * k + 1, v);
        bgra.set(4 * k + 2, v);
        assert forall|i: int| 0 <= i < 4 * (k + 1) implies #[trigger] bgra@[i] == binarized_byte(s, t, i) by {
            if i >= 4 * k {
                assert(i - i % 4 == 4 * k);
            }
        }
    }
    assert(bgra@ =~= binarized(s, t));
}

/// `threshold_fixed`: binarising at the middle grey level.
pub fn threshold_fixed(bgra: &mut Vec<u8>)
    ensures
        final(bgra)@ == binarized(old(bgra)@, 128),
{
    binarize(bgra, 128);
}

/// Among the first `k` pixels, how many have first byte `v`.
pub open spec fn level_count(s: Seq<u8>, v: int, k: int) -> nat
    decreases k,
{
    if k <= 0 {
        0
    } else {
        level_count(s, v, k - 1) + if s[4 * (k - 1)] == v { 1nat } else { 0nat }
    }
}

proof fn lemma_level_count_le(s: Seq<u8>, v: int, k: int)
    requires
        0 <= k,
    ensures
        level_count(s, v, k) <= k,
    decreases k,
{
    if k > 0 {
        lemma_level_count_le(s, v, k - 1);
    }
}

/// The grey-level histogram of a picture: entry `v` counts the whole pixels
/// whose first byte is `v`.
pub fn histogram(bgra: &[u8]) -> (hist: Vec<u64>)
    ensures
        hist@.len() == 256,
        forall|v: int| 0 <= v < 256 ==> #[trigger] hist@[v] == level_count(bgra@, v, (bgra@.len() / 4) as int),
{
    let total = bgra.len() / 4;
    assert(total * 4 <= bgra.len());
    let mut hist: Vec<u64> = Vec::new();
    for v in 0..256usize
        invariant
            hist@.len() == v,
            forall|u: int| 0 <= u < v ==> #[trigger] hist@[u] == 0,
    {
        hist.push(0);
    }
    for k in 0..total
        invariant
            total * 4 <= bgra@.len() <= usize::MAX,
            total == bgra@.len() / 4,
            hist@.len() == 256,
            forall|v: int| 0 <= v < 256 ==> #[trigger] hist@[v] == level_count(bgra@, v, k as int),
    {
        let v = bgra[4 * k] as usize;
        proof {
            lemma_level_count_le(bgra@, v as int, k as int);
        }
        let c = hist[v];
        hist.set(v, c + 1);
    }
    hist
}

/// Sets the alpha byte of every whole pixel to 255.
pub fn force_opaque(pixels: &mut Vec<u8>)
    ensures
        final(pixels)@.len() == old(pixels)@.len(),
        forall|i: int| 0 <= i < old(pixels)@.len() ==> #[trigger] final(pixels)@[i] == if i < (old(pixels)@.len() / 4) * 4 && i % 4 == 3 {
            255u8
        } else {
            old(pixels)@[i]
        },
{
    let ghost s = pixels@;
    let total = pixels.len() / 4;
    assert(total * 4 <= pixels.len());
    for k in 0..total
        invariant
            total * 4 <= s.len() <= usize::MAX,
            total == s.len() / 4,
            pixels@.len() == s.len(),
            forall|i: int| 0 <= i < s.len() ==> #[trigger] pixels@[i] == if i < 4 * k && i % 4 == 3 {
                255u8
            } else {
                s[i]
            },
    {
        let ghost before = pixels@;
        pixels.set(4 * k + 3, 255);
        assert forall|i: int| 0 <= i < s.len() implies #[trigger] pixels@[i] == if i < 4 * (k + 1) && i % 4
            == 3 {
            255u8
        } else {
            s[i]
        } by {
            if i != 4 * k + 3 {
                assert(pixels@[i] == before[i]);
                if 4 * k <= i < 4 * (k + 1) {
                    assert(i % 4 == i - 4 * k);
                }
            }
        }
    }
}

} // verus!

verus! {

proof fn lemma_dark_count_binarized(s: Seq<u8>, t: u8, k: int)
    requires
        t < 255,
        0 <= k <= s.len() / 4,
    ensures
        dark_count(binarized(s, t), t, k) == if inverts(s, t) {
            k - dark_count(s, t, k)
        } else {
            dark_count(s, t, k) as int
        },
    decreases k,
{
    if k > 0 {
        lemma_dark_count_binarized(s, t, k - 1);
        lemma_dark_count_le(s, t, k - 1);
        let i = 4 * (k - 1);
        assert(i % 4 == 0);
        assert(binarized(s, t)[i] == binarized_byte(s, t, i));
    }
}

proof fn lemma_dark_count_full(s: Seq<u8>, k: int)
    requires
        0 <= k,
    ensures
        dark_count(s, 255, k) == k,
    decreases k,
{
    if k > 0 {
        lemma_dark_count_full(s, k - 1);
    }
}

/// Binarising a picture that is already black and white changes nothing:
/// the operation is idempotent for every threshold.
pub proof fn lemma_binarize_idempotent(s: Seq<u8>, t: u8)
    ensures
        binarized(binarized(s, t), t) == binarized(s, t),
{
    let r = binarized(s, t);
    let total = s.len() / 4;
    lemma_dark_count_le(s, t, total as int);
    let f = (total * 70) / 100;
    assert(f * 100 <= total * 70 < f * 100 + 100);
    if t < 255 {
        lemma_dark_count_binarized(s, t, total as int);
        assert(!inverts(r, t));
    } else {
        lemma_dark_count_full(s, total as int);
        lemma_dark_count_full(r, total as int);
        assert(inverts(r, t) == inverts(s, t));
    }
    assert forall|i: int| 0 <= i < r.len() implies #[trigger] binarized_byte(r, t, i) == r[i] by {
        if i < total * 4 && i % 4 != 3 {
            let p = i - i % 4;
            assert(p % 4 == 0);
            assert(p < total * 4);
            assert(r[p] == binarized_byte(s, t, p));
            assert(r[i] == binarized_byte(s, t, i));
        }
    }
    assert(binarized(r, t) =~= r);
}

/// How many whole pixels of `s` have a first byte of 0: after binarising,
/// the black ones.
pub open spec fn black_count(s: Seq<u8>) -> nat {
    dark_count(s, 0, (s.len() / 4) as int)
}

proof fn lemma_black_count_binarized(s: Seq<u8>, t: u8, k: int)
    requires
        0 <= k <= s.len() / 4,
    ensures
        dark_count(binarized(s, t), 0, k) == if inverts(s, t) {
            k - dark_count(s, t, k)
        } else {
            dark_count(s, t, k) as int
        },
    decreases k,
{
    if k > 0 {
        lemma_black_count_binarized(s, t, k - 1);
        lemma_dark_count_le(s, t, k - 1);
        let i = 4 * (k - 1);
        assert(i % 4 == 0);
        assert(binarized(s, t)[i] == binarized_byte(s, t, i));
    }
}

/// Whatever the level, binarising leaves at most 70 % (rounded down) of the
/// whole pixels black: a picture that came out darker is inverted.
pub proof fn lemma_binarize_mostly_light(s: Seq<u8>, t: u8)
    ensures
        black_count(binarized(s, t)) <= ((s.len() / 4) * 70) / 100,
{
    let total = s.len() / 4;
    let d = dark_count(s, t, total as int);
    lemma_black_count_binarized(s, t, total as int);
    lemma_dark_count_le(s, t, total as int);
    let f = (total * 70) / 100;
    assert(f * 100 <= total * 70 < f * 100 + 100);
    assert(binarized(s, t).len() == s.len());
    if inverts(s, t) {
        assert(d > f);
        assert(total - d <= f);
    }
}

/// After binarising, every colour byte of a whole pixel is 0 or 255.
pub proof fn lemma_binarized_black_white(s: Seq<u8>, t: u8, i: int)
    requires
        0 <= i < (s.len() / 4) * 4,
        i % 4 != 3,
    ensures
        binarized(s, t)[i] == 0 || binarized(s, t)[i] == 255,
{
}

} // verus!
