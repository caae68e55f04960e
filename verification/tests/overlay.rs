use quiettools::overlay::{
    message_panel, message_width, popup_layout,
    color_hex, color_rgb, open_color_picker, open_text_extractor, point_from_lparam, CursorShape, Mode,
    Overlay, OverlayAction, PickedColor, Point, Rect, TextPanel,
};
use quiettools::screen::ScreenCapture;

const ESC: u16 = 0x1B;
const LEFT: u16 = 0x25;
const UP: u16 = 0x26;
const RIGHT: u16 = 0x27;
const DOWN: u16 = 0x28;

fn lp(x: i16, y: i16) -> isize {
    ((x as u16 as u32) | ((y as u16 as u32) << 16)) as i32 as isize
}

/// A 400 x 300 screen at (100, 50) whose pixel (x, y) is blue x % 256, green y % 256, red 7.
fn screen() -> ScreenCapture {
    let (w, h) = (400i32, 300i32);
    let mut px = Vec::with_capacity((w * h * 4) as usize);
    for y in 0..h {
        for x in 0..w {
            px.extend_from_slice(&[(x % 256) as u8, (y % 256) as u8, 7, 255]);
        }
    }
    ScreenCapture::new(100, 50, w, h, px).unwrap()
}

fn picker() -> Overlay {
    open_color_picker(screen())
}

#[test]
fn opening_puts_the_cursor_in_the_middle() {
    let o = picker();
    assert_eq!(o.mode, Mode::Color);
    assert_eq!(o.cursor, Point { x: 300, y: 200 });
    assert!(!o.busy && !o.selecting && o.picked.is_none() && o.error.is_none());
    let t = open_text_extractor(screen());
    assert_eq!(t.mode, Mode::Text);
}

#[test]
fn arrows_move_one_pixel_or_five_with_shift() {
    let mut o = picker();
    assert_eq!(o.key_down(LEFT, false), OverlayAction::Redraw);
    assert_eq!(o.cursor, Point { x: 299, y: 200 });
    o.key_down(DOWN, true);
    assert_eq!(o.cursor, Point { x: 299, y: 205 });
    o.key_down(RIGHT, true);
    o.key_down(UP, false);
    assert_eq!(o.cursor, Point { x: 304, y: 204 });
    assert_eq!(o.key_down(0x41, false), OverlayAction::Nothing);
}

#[test]
fn arrows_stay_on_the_screen() {
    let mut o = picker();
    o.cursor = Point { x: 101, y: 51 };
    o.key_down(LEFT, true);
    o.key_down(UP, true);
    assert_eq!(o.cursor, Point { x: 100, y: 50 });
    o.cursor = Point { x: 497, y: 348 };
    o.key_down(RIGHT, true);
    o.key_down(DOWN, true);
    assert_eq!(o.cursor, Point { x: 499, y: 349 });
}

#[test]
fn picking_places_the_popup_and_reads_the_colour() {
    let mut o = picker();
    assert_eq!(o.lbutton_down(lp(0, 0)), OverlayAction::Redraw);
    // cursor (300, 200) is local (200, 150): popup flips left (200+28+280 > 400) and up
    assert_eq!(o.picked, Some(PickedColor { r: 7, g: 150, b: 200, px: 10, py: 130 }));
    // arrows do nothing while the popup is open
    assert_eq!(o.key_down(LEFT, false), OverlayAction::Nothing);
}

#[test]
fn popup_buttons_copy_hex_and_rgb() {
    let mut o = picker();
    o.lbutton_down(lp(0, 0));
    // hex button: rows py+72 .. py+106, columns px+14 .. px+266; a click
    // left of the buttons but inside the popup does nothing
    assert_eq!(o.lbutton_down(lp(20, 210)), OverlayAction::Nothing);
    assert_eq!(o.lbutton_down(lp(30, 210)), OverlayAction::CopyThenCloseIfCopied("#0796C8".to_string()));
    assert_eq!(o.lbutton_down(lp(30, 250)), OverlayAction::CopyThenCloseIfCopied("rgb(7, 150, 200)".to_string()));
    // inside the popup but on no button
    assert_eq!(o.lbutton_down(lp(30, 140)), OverlayAction::Nothing);
    assert!(o.picked.is_some());
    // outside dismisses it
    assert_eq!(o.lbutton_down(lp(395, 5)), OverlayAction::Redraw);
    assert!(o.picked.is_none());
}

#[test]
fn cursor_shape_over_the_popup() {
    let mut o = picker();
    assert_eq!(o.cursor_shape(30, 210), CursorShape::Default);
    o.lbutton_down(lp(0, 0));
    assert_eq!(o.cursor_shape(30, 210), CursorShape::Hand);
    assert_eq!(o.cursor_shape(30, 140), CursorShape::Arrow);
    assert_eq!(o.cursor_shape(395, 5), CursorShape::Default);
}

#[test]
fn escape_backs_out_one_level() {
    let mut o = picker();
    o.lbutton_down(lp(0, 0));
    assert_eq!(o.key_down(ESC, false), OverlayAction::Redraw);
    assert!(o.picked.is_none());
    assert_eq!(o.key_down(ESC, false), OverlayAction::Close);
}

#[test]
fn colour_text() {
    assert_eq!(color_hex(0, 10, 255), "#000AFF");
    assert_eq!(color_rgb(0, 10, 255), "rgb(0, 10, 255)");
    assert_eq!(color_rgb(9, 99, 100), "rgb(9, 99, 100)");
}

#[test]
fn packed_positions_are_signed() {
    assert_eq!(point_from_lparam(lp(-3, 7), 100, 50), Point { x: 97, y: 57 });
    assert_eq!(point_from_lparam(lp(32767, -32768), 0, 0), Point { x: 32767, y: -32768 });
}

#[test]
fn mouse_move_follows_the_pointer() {
    let mut o = open_text_extractor(screen());
    assert_eq!(o.mouse_move(lp(5, 6)), OverlayAction::Redraw);
    assert_eq!(o.cursor, Point { x: 105, y: 56 });
    assert_eq!(o.current, Point { x: 0, y: 0 });
}

#[test]
fn dragging_a_selection_starts_recognition() {
    let mut o = open_text_extractor(screen());
    assert_eq!(o.lbutton_down(lp(50, 40)), OverlayAction::CaptureMouse);
    assert!(o.selecting);
    o.mouse_move(lp(10, 20));
    assert_eq!(o.current, Point { x: 110, y: 70 });
    assert!(matches!(o.text_panel(), TextPanel::Selection(Rect { left: 10, top: 20, right: 50, bottom: 40 })));
    let a = o.lbutton_up(lp(20, 30));
    assert_eq!(a, OverlayAction::Recognize { x: 120, y: 80, w: 30, h: 10 });
    assert!(o.busy && !o.selecting);
    assert!(matches!(o.text_panel(), TextPanel::Busy));
    // a second release does nothing
    assert_eq!(o.lbutton_up(lp(0, 0)), OverlayAction::Nothing);
}

#[test]
fn tiny_selection_closes() {
    let mut o = open_text_extractor(screen());
    o.lbutton_down(lp(50, 40));
    assert_eq!(o.lbutton_up(lp(53, 90)), OverlayAction::Close);
}

#[test]
fn recognition_success_copies_and_closes() {
    let mut o = open_text_extractor(screen());
    o.lbutton_down(lp(0, 0));
    o.lbutton_up(lp(50, 50));
    assert_eq!(o.recognition_done(true, "hello".to_string()), OverlayAction::CopyAndClose("hello".to_string()));
    assert!(!o.busy);
}

#[test]
fn recognition_failure_shows_the_error_until_the_timer() {
    let mut o = open_text_extractor(screen());
    o.lbutton_down(lp(0, 0));
    o.lbutton_up(lp(50, 50));
    assert_eq!(o.recognition_done(false, "No text found".to_string()), OverlayAction::ShowError);
    assert!(matches!(o.text_panel(), TextPanel::Error(ref e) if e == "No text found"));
    assert_eq!(o.timer(7), OverlayAction::Nothing);
    assert_eq!(o.timer(50), OverlayAction::Redraw);
    assert!(o.error.is_none());
    assert!(matches!(o.text_panel(), TextPanel::Hint));
}

#[test]
fn escape_while_busy_abandons_recognition() {
    let mut o = open_text_extractor(screen());
    o.lbutton_down(lp(0, 0));
    o.lbutton_up(lp(50, 50));
    assert_eq!(o.key_down(ESC, false), OverlayAction::ShowError);
    assert_eq!(o.error.as_deref(), Some("No text found"));
    // the late result is not copied
    assert_eq!(o.recognition_done(true, "late".to_string()), OverlayAction::Redraw);
    assert_eq!(o.key_down(ESC, false), OverlayAction::Close);
}

#[test]
fn capture_failure_is_reported() {
    let mut o = open_text_extractor(screen());
    o.lbutton_down(lp(0, 0));
    o.lbutton_up(lp(50, 50));
    assert_eq!(o.capture_failed(), OverlayAction::ShowError);
    assert!(!o.busy);
    assert_eq!(o.error.as_deref(), Some("Failed to capture region"));
    // a new selection clears the error
    o.lbutton_down(lp(1, 1));
    assert!(o.error.is_none());
}

#[test]
fn loupe_stays_on_screen() {
    let mut o = picker();
    // local (200, 150): no room right or below on a 400 x 300 screen
    assert_eq!(o.loupe_origin(), (-30, -100));
    o.cursor = Point { x: 110, y: 60 };
    assert_eq!(o.loupe_origin(), (38, 38));
}

#[test]
fn popup_layout_matches_the_click_areas() {
    let p = PickedColor { r: 1, g: 2, b: 3, px: 10, py: 130 };
    let l = popup_layout(&p);
    assert_eq!(l.frame, Rect { left: 10, top: 130, right: 290, bottom: 290 });
    assert_eq!(l.swatch, Rect { left: 24, top: 144, right: 72, bottom: 192 });
    assert_eq!(l.hex_label, Rect { left: 82, top: 146, right: 276, bottom: 166 });
    assert_eq!(l.rgb_label, Rect { left: 82, top: 170, right: 276, bottom: 192 });
    assert_eq!(l.hex_button, Rect { left: 24, top: 202, right: 276, bottom: 236 });
    assert_eq!(l.rgb_button, Rect { left: 24, top: 242, right: 276, bottom: 276 });
}

#[test]
fn message_panel_is_centred() {
    assert_eq!(message_width(1920), 500);
    assert_eq!(message_width(300), 260);
    let (panel, text) = message_panel(1000, 800, 100, 20);
    assert_eq!(panel, Rect { left: 440, top: 580, right: 560, bottom: 620 });
    assert_eq!(text, Rect { left: 450, top: 590, right: 550, bottom: 610 });
    // a text wider than the screen still centres, rounding toward zero
    let (panel, _) = message_panel(100, 100, 101, 0);
    assert_eq!(panel.left, -10);
}
