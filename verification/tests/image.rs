use quiettools::image::{binarize, force_opaque, histogram, threshold_fixed, upscale};

fn px(v: &[[u8; 4]]) -> Vec<u8> {
    v.iter().flat_map(|p| p.iter().copied()).collect()
}

#[test]
fn upscale_repeats_pixels() {
    // 2 x 1 picture: red, blue
    let src = px(&[[0, 0, 255, 255], [255, 0, 0, 255]]);
    let (out, w, h) = upscale(&src, 2, 1, 2);
    assert_eq!((w, h), (4, 2));
    let expect = px(&[
        [0, 0, 255, 255], [0, 0, 255, 255], [255, 0, 0, 255], [255, 0, 0, 255],
        [0, 0, 255, 255], [0, 0, 255, 255], [255, 0, 0, 255], [255, 0, 0, 255],
    ]);
    assert_eq!(out, expect);
}

#[test]
fn upscale_by_one_copies() {
    let src: Vec<u8> = (0u8..24).collect();
    let (out, w, h) = upscale(&src, 3, 2, 1);
    assert_eq!((w, h), (3, 2));
    assert_eq!(out, src);
}

#[test]
fn upscale_by_zero_is_empty() {
    let (out, w, h) = upscale(&[], 5, 5, 0);
    assert_eq!((out.len(), w, h), (0, 0, 0));
}

#[test]
fn binarize_thresholds_colour_bytes_and_keeps_alpha() {
    let mut p = px(&[[10, 10, 10, 7], [200, 200, 200, 8], [128, 1, 2, 9], [129, 0, 0, 10]]);
    binarize(&mut p, 128);
    // two of four dark: no inversion
    assert_eq!(p, px(&[[0, 0, 0, 7], [255, 255, 255, 8], [0, 0, 0, 9], [255, 255, 255, 10]]));
}

#[test]
fn binarize_inverts_mostly_dark_pictures() {
    let mut p = px(&[[10, 0, 0, 1], [20, 0, 0, 1], [30, 0, 0, 1], [250, 0, 0, 1]]);
    binarize(&mut p, 100);
    // three of four dark is more than 70 %: light text on dark becomes dark on light
    assert_eq!(p, px(&[[255, 255, 255, 1], [255, 255, 255, 1], [255, 255, 255, 1], [0, 0, 0, 1]]));
    // exactly 70 % dark is not inverted: 7 of 10
    let mut q: Vec<u8> = Vec::new();
    for i in 0..10u8 {
        q.extend_from_slice(&[if i < 7 { 0 } else { 255 }, 0, 0, 0]);
    }
    let before = q.clone();
    binarize(&mut q, 128);
    assert_eq!(q[0], 0);
    assert_eq!(q[36], 255);
    assert_eq!(q.len(), before.len());
}

#[test]
fn binarize_keeps_trailing_partial_pixel_and_is_idempotent() {
    let mut p = vec![100, 100, 100, 100, 200, 200, 200, 200, 5, 6];
    binarize(&mut p, 150);
    assert_eq!(p, vec![0, 0, 0, 100, 255, 255, 255, 200, 5, 6]);
    let once = p.clone();
    binarize(&mut p, 150);
    assert_eq!(p, once);
}

#[test]
fn threshold_fixed_uses_128() {
    let mut p = px(&[[128, 0, 0, 0], [129, 0, 0, 0], [255, 0, 0, 0], [0, 0, 0, 0]]);
    threshold_fixed(&mut p);
    assert_eq!(p, px(&[[0, 0, 0, 0], [255, 255, 255, 0], [255, 255, 255, 0], [0, 0, 0, 0]]));
}

#[test]
fn histogram_counts_first_bytes() {
    let p = px(&[[3, 9, 9, 9], [3, 1, 1, 1], [255, 0, 0, 0]]);
    let h = histogram(&p);
    assert_eq!(h.len(), 256);
    assert_eq!(h[3], 2);
    assert_eq!(h[255], 1);
    assert_eq!(h[9], 0);
    assert_eq!(h.iter().sum::<u64>(), 3);
}

#[test]
fn force_opaque_sets_alpha() {
    let mut p = vec![1, 2, 3, 4, 5, 6, 7, 8, 9];
    force_opaque(&mut p);
    assert_eq!(p, vec![1, 2, 3, 255, 5, 6, 7, 255, 9]);
}

fn black_pixels(p: &[u8]) -> usize {
    p.chunks_exact(4).filter(|c| c[0] == 0).count()
}

#[test]
fn binarize_leaves_at_most_seventy_percent_black_at_every_level() {
    let mut base: Vec<u8> = Vec::new();
    for i in 0..7u8 {
        base.extend_from_slice(&[i * 37, 9, 9, 255]);
    }
    for t in [0u8, 36, 74, 111, 148, 185, 222, 254, 255] {
        let mut p = base.clone();
        binarize(&mut p, t);
        assert!(black_pixels(&p) * 100 <= 7 * 70, "level {}", t);
        let once = p.clone();
        binarize(&mut p, t);
        assert_eq!(p, once, "level {}", t);
    }
}

#[test]
fn binarize_at_top_level_turns_everything_white() {
    let mut p = px(&[[0, 1, 2, 3], [255, 4, 5, 6]]);
    binarize(&mut p, 255);
    assert_eq!(p, px(&[[255, 255, 255, 3], [255, 255, 255, 6]]));
    binarize(&mut p, 255);
    assert_eq!(p, px(&[[255, 255, 255, 3], [255, 255, 255, 6]]));
}
