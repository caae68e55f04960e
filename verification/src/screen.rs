//! A captured picture of the whole virtual screen, and reading from it.
use vstd::prelude::*;
use crate::image::{pixel_byte, lemma_pixel_index};

verus! {

/// The pixels of the virtual screen, captured once when an overlay opens.
/// `x`, `y` are the screen coordinates of its top-left corner.
#[derive(Clone)]
pub struct ScreenCapture {
    pub x: i32,
    pub y: i32,
    pub width: i32,
    pub height: i32,
    /// BGRA pixels, row after row.
    pub pixels: Vec<u8>,
}

impl ScreenCapture {
    /// The picture is not empty, its pixel buffer has the size its width and
    /// height give, and a pixel's index fits the 32-bit arithmetic used on it.
    pub open spec fn wf(&self) -> bool {
        &&& self.width > 0
        &&& self.height > 0
        &&& self.width * self.height <= i32::MAX
        &&& self.pixels@.len() == self.width * self.height * 4
    }

    /// Wraps captured pixels; `None` unless they form a well-formed picture.
    pub fn new(x: i32, y: i32, width: i32, height: i32, pixels: Vec<u8>) -> (r: Option<ScreenCapture>)
        ensures
            match r {
                Some(c) => c.wf() && c.x == x && c.y == y && c.width == width && c.height == height
                    && c.pixels@ == pixels@,
                None => !(width > 0 && height > 0 && width * height <= i32::MAX
                    && pixels@.len() == width * height * 4),
            },
    {
        if width <= 0 || height <= 0 {
            return None;
        }
        assert((width as u64) * (height as u64) <= u64::MAX) by (nonlinear_arith)
            requires 0 < width <= i32::MAX, 0 < height <= i32::MAX;
        let area = (width as u64) * (height as u64);
        if area > i32::MAX as u64 || pixels.len() as u64 != area * 4 {
            return None;
        }
        Some(ScreenCapture { x, y, width, height, pixels })
    }
}

/// The rectangle `w` by `h` at screen point `(x, y)` is non-empty and lies
/// inside the capture.
pub open spec fn crop_fits(cap: &ScreenCapture, x: i32, y: i32, w: i32, h: i32) -> bool {
    &&& w > 0
    &&& h > 0
    &&& x - cap.x >= 0
    &&& y - cap.y >= 0
    &&& x - cap.x + w <= cap.width
    &&& y - cap.y + h <= cap.height
}

/// Byte `i` of the `w`-wide crop whose top-left pixel is `(lx, ly)`.
pub open spec fn cropped_byte(cap: &ScreenCapture, lx: int, ly: int, w: int, i: int) -> u8 {
    let p = i / 4;
    cap.pixels@[((ly + p / w) * cap.width + lx + p % w) * 4 + i % 4]
}

/// Copies the `w` by `h` rectangle at screen point `(x, y)` out of the
/// capture; `None` when it is empty or not wholly inside.
pub fn crop_region(cap: &ScreenCapture, x: i32, y: i32, w: i32, h: i32) -> (r: Option<(u32, u32, Vec<u8>)>)
    requires
        cap.wf(),
        w > 0 && h > 0 ==> i32::MIN <= x - cap.x <= i32::MAX && i32::MIN <= y - cap.y <= i32::MAX,
        w > 0 && h > 0 && x - cap.x >= 0 && y - cap.y >= 0 ==> x - cap.x + w <= i32::MAX,
        w > 0 && h > 0 && x - cap.x >= 0 && y - cap.y >= 0 && x - cap.x + w <= cap.width
            ==> y - cap.y + h <= i32::MAX,
    ensures
        r is None <==> !crop_fits(cap, x, y, w, h),
        r matches Some(t) ==> {
            &&& t.0 == w
            &&& t.1 == h
            &&& t.2@.len() == w * h * 4
            &&& forall|c: int, rr: int, k: int|
                0 <= c < w && 0 <= rr < h && 0 <= k < 4 ==> #[trigger] pixel_byte(t.2@, w as int, c, rr, k)
                    == pixel_byte(cap.pixels@, cap.width as int, x - cap.x + c, y - cap.y + rr, k)
        },
{
    if w <= 0 || h <= 0 {
        return None;
    }
    let lx = x - cap.x;
    let ly = y - cap.y;
    if lx < 0 || ly < 0 || lx + w > cap.width || ly + h > cap.height {
        return None;
    }
    let cw = cap.width as usize;
    let wu = w as usize;
    let hu = h as usize;
    let lxu = lx as usize;
    let lyu = ly as usize;
    let ghost ww = w as int;
    let mut out: Vec<u8> = Vec::new();
    let mut row: usize = 0;
    assert(0 * wu * 4 == 0) by (nonlinear_arith);
    assert(wu * hu <= cap.width * cap.height) by (nonlinear_arith)
        requires wu <= cap.width, hu <= cap.height, wu >= 0, hu >= 0;
    while row < hu
        invariant
            cap.wf(),
            cw == cap.width,
            ww == w,
            wu == w,
            hu == h,
            lxu == lx,
            lyu == ly,
            lx + w <= cap.width,
            ly + h <= cap.height,
            wu * hu <= cap.width * cap.height,
            row <= hu,
            out@.len() == row * wu * 4,
            forall|i: int| 0 <= i < out@.len() ==> #[trigger] out@[i] == cropped_byte(cap, lx as int, ly as int, ww, i),
        decreases hu - row,
    {
        let mut col: usize = 0;
        while col < wu
            invariant
                cap.wf(),
                cw == cap.width,
                ww == w,
                wu == w,
                hu == h,
                lxu == lx,
                lyu == ly,
                lx + w <= cap.width,
                ly + h <= cap.height,
                wu * hu <= cap.width * cap.height,
                row < hu,
                col <= wu,
                out@.len() == (row * wu + col) * 4,
                forall|i: int| 0 <= i < out@.len() ==> #[trigger] out@[i] == cropped_byte(cap, lx as int, ly as int, ww, i),
            decreases wu - col,
        {
            assert((lyu + row) * cw + lxu + col < cap.width * cap.height) by (nonlinear_arith)
                requires lyu + row < cap.height, lxu + col < cw, cw == cap.width, cap.height > 0;
            assert((row * wu + col + 1) * 4 <= wu * hu * 4) by (nonlinear_arith)
                requires row < hu, col < wu;
            assert(((lyu + row) * cw + lxu + col) * 4 + 3 < cap.pixels.len());
            let si: usize = ((lyu + row) * cw + lxu + col) * 4;
            let ghost before = out@;
            let ghost p: int = row * wu + col;
            out.push(cap.pixels[si]);
            out.push(cap.pixels[si + 1]);
            out.push(cap.pixels[si + 2]);
            out.push(cap.pixels[si + 3]);
            proof {
                assert(before.len() == p * 4);
                assert(out@[p * 4] == cap.pixels@[si as int]);
                assert(out@[p * 4 + 1] == cap.pixels@[si + 1]);
                assert(out@[p * 4 + 2] == cap.pixels@[si + 2]);
                assert(out@[p * 4 + 3] == cap.pixels@[si + 3]);
                assert forall|i: int| 0 <= i < out@.len() implies #[trigger] out@[i] == cropped_byte(
                    cap,
                    lx as int,
                    ly as int,
                    ww,
                    i,
                ) by {
                    if i >= before.len() {
                        let c = i - p * 4;
                        lemma_pixel_index(wu as int, col as int, row as int, c);
                        assert(i == (row * wu + col) * 4 + c);
                        assert(i / 4 == p);
                        assert(p / ww == row);
                        assert(p % ww == col);
                        assert(out@[i] == cap.pixels@[si + c]);
                    } else {
                        assert(out@[i] == before[i]);
                    }
                }
            }
            col += 1;
        }
        assert((row + 1) * wu * 4 == (row * wu + wu) * 4) by (nonlinear_arith);
        row += 1;
    }
    assert(out@.len() == w * h * 4) by (nonlinear_arith)
        requires out@.len() == hu * wu * 4, wu == w, hu == h;
    proof {
        assert forall|c: int, rr: int, k: int|
            0 <= c < w && 0 <= rr < h && 0 <= k < 4 implies #[trigger] pixel_byte(out@, w as int, c, rr, k)
                == pixel_byte(cap.pixels@, cap.width as int, x - cap.x + c, y - cap.y + rr, k) by {
            lemma_pixel_index(w as int, c, rr, k);
            assert((rr * w + c) * 4 + k < w * h * 4) by (nonlinear_arith)
                requires 0 <= rr < h, 0 <= c < w, 0 <= k < 4;
            assert(out@[(rr * w + c) * 4 + k] == cropped_byte(cap, lx as int, ly as int, ww, (rr * w + c) * 4 + k));
        }
    }
    Some((w as u32, h as u32, out))
}

/// `v` limited to `lo..=hi`.
pub open spec fn clamp(v: int, lo: int, hi: int) -> int {
    if v < lo {
        lo
    } else if v > hi {
        hi
    } else {
        v
    }
}

pub fn clamp_i32(v: i32, lo: i32, hi: i32) -> (r: i32)
    requires
        lo <= hi,
    ensures
        r == clamp(v as int, lo as int, hi as int),
{
    if v < lo {
        lo
    } else if v > hi {
        hi
    } else {
        v
    }
}

/// The red, green and blue of the screen pixel at `(x, y)`, the point first
/// moved to the nearest pixel of the capture.
pub fn color_at(cap: &ScreenCapture, x: i32, y: i32) -> (r: (u8, u8, u8))
    requires
        cap.wf(),
        i32::MIN <= x - cap.x <= i32::MAX,
        i32::MIN <= y - cap.y <= i32::MAX,
    ensures
        ({
            let lx = clamp(x - cap.x, 0, cap.width - 1);
            let ly = clamp(y - cap.y, 0, cap.height - 1);
            r == (
                pixel_byte(cap.pixels@, cap.width as int, lx, ly, 2),
                pixel_byte(cap.pixels@, cap.width as int, lx, ly, 1),
                pixel_byte(cap.pixels@, cap.width as int, lx, ly, 0),
            )
        }),
{
    let lx = clamp_i32(x - cap.x, 0, cap.width - 1);
    let ly = clamp_i32(y - cap.y, 0, cap.height - 1);
    assert(ly * cap.width + lx < cap.width * cap.height) by (nonlinear_arith)
        requires 0 <= ly < cap.height, 0 <= lx < cap.width;
    assert(((ly * cap.width + lx) as usize) * 4 + 2 < cap.pixels.len());
    let idx = ((ly * cap.width + lx) as usize) * 4;
    (cap.pixels[idx + 2], cap.pixels[idx + 1], cap.pixels[idx])
}

} // verus!
