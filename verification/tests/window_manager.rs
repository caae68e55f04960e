use quiettools::overlay::{Point, Rect};
use quiettools::window_manager::{
    classify_zone, is_resizable_style, next_opacity, Anchor, Corner, CursorKind, MouseAction, Operation, Placement, SnapAction,
    WindowHit, WmState,
};

const KEYDOWN: u32 = 0x0100;
const KEYUP: u32 = 0x0101;
const LWIN: u32 = 0x5B;
const LSHIFT: u32 = 0xA0;
const LDOWN: u32 = 0x0201;
const LUP: u32 = 0x0202;
const RDOWN: u32 = 0x0204;
const RUP: u32 = 0x0205;
const MDOWN: u32 = 0x0207;
const WHEEL: u32 = 0x020A;

fn work() -> Rect {
    Rect { left: 0, top: 0, right: 900, bottom: 600 }
}

fn hit(id: isize) -> WindowHit {
    WindowHit { id, rect: Some(Rect { left: 100, top: 100, right: 500, bottom: 400 }), zoomed: false, resizable: true }
}

fn held() -> WmState {
    let mut s = WmState::new();
    s.key_event(LWIN, KEYDOWN, true);
    s
}

#[test]
fn zones_form_a_three_by_three_grid() {
    let w = Some(work());
    assert_eq!(classify_zone(Point { x: 10, y: 10 }, w), (1, Some(Rect { left: 0, top: 0, right: 450, bottom: 300 })));
    assert_eq!(classify_zone(Point { x: 450, y: 10 }, w), (2, Some(Rect { left: 0, top: 0, right: 900, bottom: 300 })));
    assert_eq!(classify_zone(Point { x: 899, y: 0 }, w), (3, Some(Rect { left: 450, top: 0, right: 900, bottom: 300 })));
    assert_eq!(classify_zone(Point { x: 0, y: 300 }, w), (4, Some(Rect { left: 0, top: 0, right: 450, bottom: 600 })));
    assert_eq!(classify_zone(Point { x: 450, y: 300 }, w), (5, None));
    assert_eq!(classify_zone(Point { x: 600, y: 200 }, w), (6, Some(Rect { left: 450, top: 0, right: 900, bottom: 600 })));
    assert_eq!(classify_zone(Point { x: 1, y: 599 }, w), (7, Some(Rect { left: 0, top: 300, right: 450, bottom: 600 })));
    assert_eq!(classify_zone(Point { x: 300, y: 400 }, w), (8, Some(Rect { left: 0, top: 300, right: 900, bottom: 600 })));
    assert_eq!(classify_zone(Point { x: 5000, y: 5000 }, w), (9, Some(Rect { left: 450, top: 300, right: 900, bottom: 600 })));
    assert_eq!(classify_zone(Point { x: 5, y: 5 }, None), (0, None));
    assert_eq!(classify_zone(Point { x: 5, y: 5 }, Some(Rect { left: 5, top: 0, right: 5, bottom: 10 })), (0, None));
}

#[test]
fn opacity_stays_in_range() {
    assert_eq!(next_opacity(255, 16), 255);
    assert_eq!(next_opacity(255, -16), 239);
    assert_eq!(next_opacity(40, -16), 32);
    assert_eq!(next_opacity(32, -16), 32);
}

#[test]
fn win_key_session_and_dummy_key() {
    let mut s = WmState::new();
    s.key_event(LWIN, KEYDOWN, true);
    assert!(s.win_down && !s.did_use_win);
    let r = s.mouse_event(MDOWN, Point { x: 200, y: 200 }, 0, true, Some(hit(9)), Some(work()), 0);
    assert_eq!(r.action, MouseAction::Minimize(9));
    let k = s.key_event(LWIN, KEYUP, false);
    assert!(k.inject_dummy_key);
    assert!(!s.win_down && !s.did_use_win);
    // a release with no gesture needs no dummy key
    s.key_event(LWIN, KEYDOWN, true);
    assert!(!s.key_event(LWIN, KEYUP, false).inject_dummy_key);
}

#[test]
fn shift_is_tracked() {
    let mut s = WmState::new();
    s.key_event(LSHIFT, KEYDOWN, false);
    assert!(s.shift_down);
    s.key_event(LSHIFT, KEYUP, false);
    assert!(!s.shift_down);
}

#[test]
fn left_drag_moves_the_window() {
    let mut s = held();
    let r = s.mouse_event(LDOWN, Point { x: 150, y: 120 }, 0, true, Some(hit(3)), Some(work()), 1000);
    assert_eq!(r.action, MouseAction::StartDrag(3));
    assert!(r.cursor_changed);
    assert_eq!(s.operation, Operation::Move);
    assert_eq!(s.cursor, CursorKind::Move);
    assert_eq!(s.target, 3);
    assert_eq!(s.move_step(Point { x: 170, y: 100 }), Placement { x: 120, y: 80, w: 400, h: 300 });
    let r = s.mouse_event(LUP, Point { x: 170, y: 100 }, 0, true, None, Some(work()), 1100);
    assert_eq!(r.action, MouseAction::Swallow);
    assert!(r.cursor_changed);
    assert_eq!(s.operation, Operation::Idle);
}

#[test]
fn without_the_win_key_clicks_pass() {
    let mut s = WmState::new();
    let r = s.mouse_event(LDOWN, Point { x: 150, y: 120 }, 0, false, Some(hit(3)), Some(work()), 0);
    assert_eq!(r.action, MouseAction::Pass);
    assert_eq!(s.operation, Operation::Idle);
    // a Win key released behind the hook's back is noticed
    let mut s = held();
    let r = s.mouse_event(LDOWN, Point { x: 150, y: 120 }, 0, false, Some(hit(3)), Some(work()), 0);
    assert_eq!(r.action, MouseAction::Pass);
    assert!(!s.win_down);
}

#[test]
fn double_click_toggles_maximize() {
    let mut s = held();
    s.mouse_event(LDOWN, Point { x: 150, y: 120 }, 0, true, Some(hit(3)), Some(work()), 1000);
    s.mouse_event(LUP, Point { x: 150, y: 120 }, 0, true, None, Some(work()), 1050);
    let r = s.mouse_event(LDOWN, Point { x: 150, y: 120 }, 0, true, Some(hit(3)), Some(work()), 1399);
    assert_eq!(r.action, MouseAction::ToggleMaximize(3));
    // too slow, or another window: a new drag
    let mut s = held();
    s.mouse_event(LDOWN, Point { x: 150, y: 120 }, 0, true, Some(hit(3)), Some(work()), 1000);
    s.mouse_event(LUP, Point { x: 150, y: 120 }, 0, true, None, Some(work()), 1050);
    let r = s.mouse_event(LDOWN, Point { x: 150, y: 120 }, 0, true, Some(hit(3)), Some(work()), 1400);
    assert_eq!(r.action, MouseAction::StartDrag(3));
    let mut s = held();
    s.mouse_event(LDOWN, Point { x: 150, y: 120 }, 0, true, Some(hit(3)), Some(work()), 1000);
    s.mouse_event(LUP, Point { x: 150, y: 120 }, 0, true, None, Some(work()), 1050);
    let r = s.mouse_event(LDOWN, Point { x: 150, y: 120 }, 0, true, Some(hit(4)), Some(work()), 1100);
    assert_eq!(r.action, MouseAction::StartDrag(4));
}

#[test]
fn right_drag_resizes_from_the_nearest_corner() {
    let mut s = held();
    let r = s.mouse_event(RDOWN, Point { x: 450, y: 380 }, 0, true, Some(hit(5)), Some(work()), 0);
    assert_eq!(r.action, MouseAction::BeginResize { id: 5, restore: false });
    let changed = s.begin_resize(5, Point { x: 450, y: 380 }, Some(Rect { left: 100, top: 100, right: 500, bottom: 400 }), false);
    assert!(changed);
    assert_eq!(s.corner, Corner::BottomRight);
    assert_eq!(s.cursor, CursorKind::SizeNwse);
    assert_eq!(s.operation, Operation::Resize);
    assert_eq!(s.resize_step(Point { x: 470, y: 390 }), Placement { x: 100, y: 100, w: 420, h: 310 });
    // never below the minimum, the opposite corner fixed
    assert_eq!(s.resize_step(Point { x: 0, y: 0 }), Placement { x: 100, y: 100, w: 120, h: 80 });
    let r = s.mouse_event(RUP, Point { x: 0, y: 0 }, 0, true, None, Some(work()), 0);
    assert_eq!(r.action, MouseAction::Swallow);
    assert_eq!(s.operation, Operation::Idle);
}

#[test]
fn top_left_resize_keeps_bottom_right() {
    let mut s = held();
    s.begin_resize(5, Point { x: 110, y: 110 }, Some(Rect { left: 100, top: 100, right: 500, bottom: 400 }), false);
    assert_eq!(s.corner, Corner::TopLeft);
    let p = s.resize_step(Point { x: 900, y: 900 });
    assert_eq!(p, Placement { x: 380, y: 320, w: 120, h: 80 });
    assert_eq!((p.x + p.w, p.y + p.h), (500, 400));
}

#[test]
fn non_resizable_windows_are_left_alone() {
    let mut s = held();
    let mut h = hit(5);
    h.resizable = false;
    let r = s.mouse_event(RDOWN, Point { x: 450, y: 380 }, 0, true, Some(h), Some(work()), 0);
    assert_eq!(r.action, MouseAction::Pass);
    assert!(!s.did_use_win);
}

#[test]
fn wheel_changes_opacity() {
    let mut s = held();
    let up = 120u32 << 16;
    let down = ((-120i16) as u16 as u32) << 16;
    let r = s.mouse_event(WHEEL, Point { x: 1, y: 1 }, up, true, Some(hit(2)), None, 0);
    assert_eq!(r.action, MouseAction::AdjustOpacity { id: 2, delta: 16 });
    let r = s.mouse_event(WHEEL, Point { x: 1, y: 1 }, down, true, Some(hit(2)), None, 0);
    assert_eq!(r.action, MouseAction::AdjustOpacity { id: 2, delta: -16 });
}

#[test]
fn shift_drag_snaps_to_zones_and_back() {
    let mut s = held();
    s.key_event(LSHIFT, KEYDOWN, true);
    let r = s.mouse_event(LDOWN, Point { x: 450, y: 300 }, 0, true, Some(hit(3)), Some(work()), 0);
    assert_eq!(r.action, MouseAction::StartDrag(3));
    assert_eq!(s.operation, Operation::Snap);
    assert_eq!((s.snap_start_zone, s.snap_last_zone), (5, 5));
    let (z, rect) = classify_zone(Point { x: 10, y: 10 }, Some(work()));
    assert_eq!(
        s.snap_step(z, rect, false),
        SnapAction::Place { unzoom: false, to: Placement { x: 0, y: 0, w: 450, h: 300 } }
    );
    assert!(s.snap_applied);
    assert_eq!(s.snap_step(z, rect, false), SnapAction::Keep);
    let (z, rect) = classify_zone(Point { x: 450, y: 300 }, Some(work()));
    assert_eq!(
        s.snap_step(z, rect, false),
        SnapAction::Place { unzoom: false, to: Placement { x: 100, y: 100, w: 400, h: 300 } }
    );
    assert!(!s.snap_applied);
    let r = s.mouse_event(LUP, Point { x: 450, y: 300 }, 0, true, None, Some(work()), 0);
    assert_eq!(r.action, MouseAction::Swallow);
    assert_eq!((s.operation, s.snap_start_zone, s.snap_last_zone), (Operation::Idle, 0, 0));
}

#[test]
fn maximized_window_snaps_back_to_maximized() {
    let mut s = WmState::new();
    s.anchor = Anchor { mx: 0, my: 0, wx: 0, wy: 0, ww: 10, wh: 10, maximized: true };
    s.snap_applied = true;
    assert_eq!(s.restore_to_anchor(false), SnapAction::Maximize);
    assert!(!s.snap_applied);
    assert_eq!(s.restore_to_anchor(false), SnapAction::Keep);
}

#[test]
fn resizable_styles() {
    assert!(is_resizable_style(0x0004_0000));
    assert!(is_resizable_style(0x00C1_0000));
    assert!(!is_resizable_style(0x00C0_0000));
    assert!(!is_resizable_style(0x0081_0000));
    assert!(!is_resizable_style(0));
}

#[test]
fn fresh_state() {
    let s = WmState::new();
    assert_eq!(s.operation, Operation::Idle);
    assert_eq!(s.cursor, CursorKind::Default);
    assert_eq!(s.target, 0);
    assert!(s.last_click.is_none());
}

#[test]
fn releasing_win_ends_a_drag() {
    let mut s = held();
    s.mouse_event(LDOWN, Point { x: 150, y: 120 }, 0, true, Some(hit(3)), Some(work()), 0);
    assert_eq!(s.operation, Operation::Move);
    let k = s.key_event(LWIN, KEYUP, false);
    assert!(k.cursor_changed && k.inject_dummy_key);
    assert_eq!(s.operation, Operation::Idle);
    assert_eq!(s.cursor, CursorKind::Default);
    // the button release afterwards passes through
    let r = s.mouse_event(LUP, Point { x: 150, y: 120 }, 0, false, None, None, 10);
    assert_eq!(r.action, MouseAction::Pass);
}
