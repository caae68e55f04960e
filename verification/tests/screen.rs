use quiettools::screen::{color_at, crop_region, ScreenCapture};

fn capture() -> ScreenCapture {
    // 3 x 2 screen at (-10, 5); pixel (x, y) holds [x, y, 10 * x + y, 255]
    let mut px = Vec::new();
    for y in 0..2u8 {
        for x in 0..3u8 {
            px.extend_from_slice(&[x, y, 10 * x + y, 255]);
        }
    }
    ScreenCapture::new(-10, 5, 3, 2, px).unwrap()
}

#[test]
fn new_checks_the_buffer() {
    assert!(ScreenCapture::new(0, 0, 2, 2, vec![0; 16]).is_some());
    assert!(ScreenCapture::new(0, 0, 2, 2, vec![0; 15]).is_none());
    assert!(ScreenCapture::new(0, 0, 0, 2, vec![]).is_none());
    assert!(ScreenCapture::new(0, 0, 2, -1, vec![]).is_none());
}

#[test]
fn crop_copies_the_rectangle() {
    let cap = capture();
    let (w, h, px) = crop_region(&cap, -9, 5, 2, 2).unwrap();
    assert_eq!((w, h), (2, 2));
    assert_eq!(px, vec![1, 0, 10, 255, 2, 0, 20, 255, 1, 1, 11, 255, 2, 1, 21, 255]);
    let (_, _, whole) = crop_region(&cap, -10, 5, 3, 2).unwrap();
    assert_eq!(whole, cap.pixels);
}

#[test]
fn crop_refuses_empty_or_outside_rectangles() {
    let cap = capture();
    assert!(crop_region(&cap, -10, 5, 0, 1).is_none());
    assert!(crop_region(&cap, -10, 5, 1, -1).is_none());
    assert!(crop_region(&cap, -11, 5, 1, 1).is_none());
    assert!(crop_region(&cap, -10, 4, 1, 1).is_none());
    assert!(crop_region(&cap, -9, 5, 3, 1).is_none());
    assert!(crop_region(&cap, -10, 6, 1, 2).is_none());
}

#[test]
fn color_at_reads_rgb_and_clamps() {
    let cap = capture();
    assert_eq!(color_at(&cap, -8, 6), (21, 1, 2));
    assert_eq!(color_at(&cap, -100, -100), (0, 0, 0));
    assert_eq!(color_at(&cap, 100, 100), (21, 1, 2));
}
