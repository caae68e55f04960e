//! The keyboard-and-mouse window manager: while the Windows key is held,
//! dragging moves a window (with Shift: snaps it to a zone of a 3x3 grid of
//! the monitor), right-dragging resizes it from the nearest corner, a middle
//! click minimises it, the wheel changes its opacity and a double click
//! toggles maximisation. The hooks hand their events to `WmState`, which
//! decides; the hooks and the operation thread carry the decisions out.
use vstd::prelude::*;
use crate::overlay::{Point, Rect, gdi_limit};
use crate::screen::{clamp, clamp_i32};

verus! {

pub const VK_LWIN: u32 = 0x5B;
pub const VK_RWIN: u32 = 0x5C;
pub const VK_LSHIFT: u32 = 0xA0;
pub const VK_RSHIFT: u32 = 0xA1;
pub const VK_SHIFT: u32 = 0x10;
pub const WM_KEYDOWN: u32 = 0x0100;
pub const WM_KEYUP: u32 = 0x0101;
pub const WM_SYSKEYDOWN: u32 = 0x0104;
pub const WM_SYSKEYUP: u32 = 0x0105;
pub const WM_LBUTTONDOWN: u32 = 0x0201;
pub const WM_LBUTTONUP: u32 = 0x0202;
pub const WM_RBUTTONDOWN: u32 = 0x0204;
pub const WM_RBUTTONUP: u32 = 0x0205;
pub const WM_MBUTTONDOWN: u32 = 0x0207;
pub const WM_MBUTTONUP: u32 = 0x0208;
pub const WM_MOUSEWHEEL: u32 = 0x020A;
/// Opacity change per wheel notch.
pub const OPACITY_STEP: i32 = 16;
/// The lowest opacity the wheel goes to.
pub const OPACITY_MIN: i32 = 32;
/// Two clicks closer than this many milliseconds are a double click.
pub const DOUBLE_CLICK_MS: u64 = 400;
/// Smallest width a resize leaves.
pub const MIN_W: i32 = 120;
/// Smallest height a resize leaves.
pub const MIN_H: i32 = 80;

/// The drag under way.
#[derive(Clone, Copy, PartialEq, Eq, Structural, Debug)]
pub enum Operation {
    Idle,
    Move,
    Resize,
    Snap,
}

/// The pointer shape the window manager has set.
#[derive(Clone, Copy, PartialEq, Eq, Structural, Debug)]
pub enum CursorKind {
    Default,
    Move,
    SizeNwse,
    SizeNesw,
}

/// The corner a resize drags.
#[derive(Clone, Copy, PartialEq, Eq, Structural, Debug)]
pub enum Corner {
    TopLeft,
    TopRight,
    BottomRight,
    BottomLeft,
}

/// Where the pointer and the window were when a drag started.
#[derive(Clone, Copy, PartialEq, Eq, Structural, Debug)]
pub struct Anchor {
    pub mx: i32,
    pub my: i32,
    pub wx: i32,
    pub wy: i32,
    pub ww: i32,
    pub wh: i32,
    pub maximized: bool,
}

/// The window manager's state, shared by the hooks and the operation thread.
#[derive(Clone, Copy, PartialEq, Eq, Structural, Debug)]
pub struct WmState {
    pub win_down: bool,
    pub shift_down: bool,
    /// The Windows key was used for a gesture since it went down.
    pub did_use_win: bool,
    pub operation: Operation,
    /// The window being dragged (0 for none).
    pub target: isize,
    pub anchor: Anchor,
    pub corner: Corner,
    pub snap_start_zone: u8,
    pub snap_last_zone: u8,
    pub snap_applied: bool,
    /// Time of the last click that could start a double click, in ms.
    pub last_click: Option<u64>,
    pub last_click_target: isize,
    pub cursor: CursorKind,
}

pub open spec fn gdi_coord(v: int) -> bool {
    -gdi_limit() <= v <= gdi_limit()
}

pub open spec fn gdi_point(p: Point) -> bool {
    gdi_coord(p.x as int) && gdi_coord(p.y as int)
}

pub open spec fn gdi_rect(r: Rect) -> bool {
    gdi_coord(r.left as int) && gdi_coord(r.top as int) && gdi_coord(r.right as int) && gdi_coord(r.bottom as int)
}

impl Anchor {
    /// Every coordinate is within the GDI range (sizes within twice of it).
    pub open spec fn wf(&self) -> bool {
        &&& gdi_coord(self.mx as int)
        &&& gdi_coord(self.my as int)
        &&& gdi_coord(self.wx as int)
        &&& gdi_coord(self.wy as int)
        &&& -2 * gdi_limit() <= self.ww <= 2 * gdi_limit()
        &&& -2 * gdi_limit() <= self.wh <= 2 * gdi_limit()
    }
}

impl WmState {
    pub open spec fn wf(&self) -> bool {
        self.anchor.wf()
    }

    /// The state before any event.
    pub fn new() -> (s: WmState)
        ensures
            s.wf(),
            s == (WmState {
                win_down: false,
                shift_down: false,
                did_use_win: false,
                operation: Operation::Idle,
                target: 0,
                anchor: Anchor { mx: 0, my: 0, wx: 0, wy: 0, ww: 0, wh: 0, maximized: false },
                corner: Corner::TopLeft,
                snap_start_zone: 0,
                snap_last_zone: 0,
                snap_applied: false,
                last_click: None,
                last_click_target: 0,
                cursor: CursorKind::Default,
            }),
    {
        WmState {
            win_down: false,
            shift_down: false,
            did_use_win: false,
            operation: Operation::Idle,
            target: 0,
            anchor: Anchor { mx: 0, my: 0, wx: 0, wy: 0, ww: 0, wh: 0, maximized: false },
            corner: Corner::TopLeft,
            snap_start_zone: 0,
            snap_last_zone: 0,
            snap_applied: false,
            last_click: None,
            last_click_target: 0,
            cursor: CursorKind::Default,
        }
    }

    /// Sets the pointer shape; true when it changed (and must be applied).
    pub fn set_cursor(&mut self, kind: CursorKind) -> (changed: bool)
        ensures
            *final(self) == (WmState { cursor: kind, ..*old(self) }),
            changed == (old(self).cursor != kind),
    {
        let changed = self.cursor != kind;
        self.cursor = kind;
        changed
    }
}

} // verus!

verus! {

/// Where to put a window: position and size.
#[derive(Clone, Copy, PartialEq, Eq, Structural, Debug)]
pub struct Placement {
    pub x: i32,
    pub y: i32,
    pub w: i32,
    pub h: i32,
}

// ---------------------------------------------------------------- zones

pub open spec fn max_int(a: int, b: int) -> int {
    if a >= b { a } else { b }
}

pub open spec fn min_int(a: int, b: int) -> int {
    if a <= b { a } else { b }
}

/// The cell (1 to 9, row by row) of the 3x3 grid over the work area `w`
/// that holds `pt`; a point outside is taken to the nearest edge.
pub open spec fn zone_of(pt: Point, w: Rect) -> int {
    let mw = w.right - w.left;
    let mh = w.bottom - w.top;
    let col_w = max_int(mw / 3, 1);
    let row_h = max_int(mh / 3, 1);
    let rx = clamp(pt.x - w.left, 0, mw - 1);
    let ry = clamp(pt.y - w.top, 0, mh - 1);
    let col = min_int(rx / col_w, 2);
    let row = min_int(ry / row_h, 2);
    row * 3 + col + 1
}

/// The rectangle a window snaps to in zone `cell` of work area `w`: the
/// corner cells give quarters, the edge cells halves, the centre nothing.
pub open spec fn zone_rect(cell: int, w: Rect) -> Option<Rect> {
    let hw = (w.right - w.left) / 2;
    let hh = (w.bottom - w.top) / 2;
    let l = w.left as int;
    let t = w.top as int;
    let r = w.right as int;
    let b = w.bottom as int;
    if cell == 1 {
        Some(Rect { left: l as i32, top: t as i32, right: (l + hw) as i32, bottom: (t + hh) as i32 })
    } else if cell == 2 {
        Some(Rect { left: l as i32, top: t as i32, right: r as i32, bottom: (t + hh) as i32 })
    } else if cell == 3 {
        Some(Rect { left: (l + hw) as i32, top: t as i32, right: r as i32, bottom: (t + hh) as i32 })
    } else if cell == 4 {
        Some(Rect { left: l as i32, top: t as i32, right: (l + hw) as i32, bottom: b as i32 })
    } else if cell == 6 {
        Some(Rect { left: (l + hw) as i32, top: t as i32, right: r as i32, bottom: b as i32 })
    } else if cell == 7 {
        Some(Rect { left: l as i32, top: (t + hh) as i32, right: (l + hw) as i32, bottom: b as i32 })
    } else if cell == 8 {
        Some(Rect { left: l as i32, top: (t + hh) as i32, right: r as i32, bottom: b as i32 })
    } else if cell == 9 {
        Some(Rect { left: (l + hw) as i32, top: (t + hh) as i32, right: r as i32, bottom: b as i32 })
    } else {
        None
    }
}

/// The zone under `pt` given the work area of its monitor (`None` when the
/// monitor is unknown), and the rectangle that zone snaps to.
pub open spec fn classify_spec(pt: Point, work: Option<Rect>) -> (u8, Option<Rect>) {
    match work {
        None => (0, None),
        Some(w) => if w.right - w.left <= 0 || w.bottom - w.top <= 0 {
            (0, None)
        } else {
            (zone_of(pt, w) as u8, zone_rect(zone_of(pt, w), w))
        },
    }
}

/// Classifies `pt` into a snap zone of its monitor's work area.
pub fn classify_zone(pt: Point, work: Option<Rect>) -> (r: (u8, Option<Rect>))
    requires
        gdi_point(pt),
        work matches Some(w) ==> gdi_rect(w),
    ensures
        r == classify_spec(pt, work),
        work matches Some(w) && w.right > w.left && w.bottom > w.top ==> 1 <= r.0 <= 9,
        r.1 matches Some(z) ==> work matches Some(w) && w.left <= z.left <= z.right <= w.right && w.top
            <= z.top <= z.bottom <= w.bottom,
        r.0 == 5 ==> r.1 is None,
{
    let w = match work {
        None => { return (0, None); },
        Some(w) => w,
    };
    let mw = w.right - w.left;
    let mh = w.bottom - w.top;
    if mw <= 0 || mh <= 0 {
        return (0, None);
    }
    let col_w = if mw / 3 >= 1 { mw / 3 } else { 1 };
    let row_h = if mh / 3 >= 1 { mh / 3 } else { 1 };
    let rx = clamp_i32(pt.x - w.left, 0, mw - 1);
    let ry = clamp_i32(pt.y - w.top, 0, mh - 1);
    let col = if rx / col_w <= 2 { rx / col_w } else { 2 };
    let row = if ry / row_h <= 2 { ry / row_h } else { 2 };
    let cell = (row * 3 + col + 1) as u8;
    let hw = mw / 2;
    let hh = mh / 2;
    let rect = if cell == 1 {
        Some(Rect { left: w.left, top: w.top, right: w.left + hw, bottom: w.top + hh })
    } else if cell == 2 {
        Some(Rect { left: w.left, top: w.top, right: w.right, bottom: w.top + hh })
    } else if cell == 3 {
        Some(Rect { left: w.left + hw, top: w.top, right: w.right, bottom: w.top + hh })
    } else if cell == 4 {
        Some(Rect { left: w.left, top: w.top, right: w.left + hw, bottom: w.bottom })
    } else if cell == 6 {
        Some(Rect { left: w.left + hw, top: w.top, right: w.right, bottom: w.bottom })
    } else if cell == 7 {
        Some(Rect { left: w.left, top: w.top + hh, right: w.left + hw, bottom: w.bottom })
    } else if cell == 8 {
        Some(Rect { left: w.left, top: w.top + hh, right: w.right, bottom: w.bottom })
    } else if cell == 9 {
        Some(Rect { left: w.left + hw, top: w.top + hh, right: w.right, bottom: w.bottom })
    } else {
        None
    };
    (cell, rect)
}

// ---------------------------------------------------------------- resize

/// The corner of `r` nearest to `pt`, each axis decided by which edge is
/// closer (ties go right and down).
pub open spec fn nearest_corner(pt: Point, r: Rect) -> Corner {
    let left = pt.x - r.left < r.right - pt.x;
    let top = pt.y - r.top < r.bottom - pt.y;
    if left && top {
        Corner::TopLeft
    } else if !left && top {
        Corner::TopRight
    } else if !left && !top {
        Corner::BottomRight
    } else {
        Corner::BottomLeft
    }
}

pub fn resize_corner(pt: Point, r: Rect) -> (c: Corner)
    requires
        gdi_point(pt),
        gdi_rect(r),
    ensures
        c == nearest_corner(pt, r),
{
    let left = pt.x - r.left < r.right - pt.x;
    let top = pt.y - r.top < r.bottom - pt.y;
    if left && top {
        Corner::TopLeft
    } else if !left && top {
        Corner::TopRight
    } else if !left && !top {
        Corner::BottomRight
    } else {
        Corner::BottomLeft
    }
}

/// The window's place while resizing from `corner` with the pointer at
/// `pt`: the dragged corner follows the pointer, and the window is kept at
/// least `MIN_W` by `MIN_H`, growing away from the fixed corner.
pub open spec fn resize_spec(a: Anchor, corner: Corner, pt: Point) -> Placement {
    let dx = pt.x - a.mx;
    let dy = pt.y - a.my;
    let (x0, y0, w0, h0) = match corner {
        Corner::TopLeft => (a.wx + dx, a.wy + dy, a.ww - dx, a.wh - dy),
        Corner::TopRight => (a.wx as int, a.wy + dy, a.ww + dx, a.wh - dy),
        Corner::BottomRight => (a.wx as int, a.wy as int, a.ww + dx, a.wh + dy),
        Corner::BottomLeft => (a.wx + dx, a.wy as int, a.ww - dx, a.wh + dy),
    };
    let moves_left = corner == Corner::TopLeft || corner == Corner::BottomLeft;
    let moves_top = corner == Corner::TopLeft || corner == Corner::TopRight;
    let x = if w0 < MIN_W && moves_left { x0 - (MIN_W - w0) } else { x0 };
    let w = if w0 < MIN_W { MIN_W as int } else { w0 };
    let y = if h0 < MIN_H && moves_top { y0 - (MIN_H - h0) } else { y0 };
    let h = if h0 < MIN_H { MIN_H as int } else { h0 };
    Placement { x: x as i32, y: y as i32, w: w as i32, h: h as i32 }
}

impl WmState {
    /// Where the window goes in this step of a resize, the pointer at `pt`.
    pub fn resize_step(&self, pt: Point) -> (p: Placement)
        requires
            self.wf(),
            gdi_point(pt),
        ensures
            p == resize_spec(self.anchor, self.corner, pt),
            p.w >= MIN_W,
            p.h >= MIN_H,
    {
        let a = self.anchor;
        let dx = pt.x - a.mx;
        let dy = pt.y - a.my;
        let mut x = a.wx;
        let mut y = a.wy;
        let mut w = a.ww;
        let mut h = a.wh;
        match self.corner {
            Corner::TopLeft => {
                x = x + dx;
                y = y + dy;
                w = w - dx;
                h = h - dy;
            },
            Corner::TopRight => {
                y = y + dy;
                w = w + dx;
                h = h - dy;
            },
            Corner::BottomRight => {
                w = w + dx;
                h = h + dy;
            },
            Corner::BottomLeft => {
                x = x + dx;
                w = w - dx;
                h = h + dy;
            },
        }
        if w < MIN_W {
            if self.corner == Corner::TopLeft || self.corner == Corner::BottomLeft {
                x = x - (MIN_W - w);
            }
            w = MIN_W;
        }
        if h < MIN_H {
            if self.corner == Corner::TopLeft || self.corner == Corner::TopRight {
                y = y - (MIN_H - h);
            }
            h = MIN_H;
        }
        Placement { x, y, w, h }
    }

    /// Where the window goes in this step of a move, the pointer at `pt`:
    /// shifted by the pointer's travel since the drag started.
    pub fn move_step(&self, pt: Point) -> (p: Placement)
        requires
            self.wf(),
            gdi_point(pt),
        ensures
            p.x == self.anchor.wx + (pt.x - self.anchor.mx),
            p.y == self.anchor.wy + (pt.y - self.anchor.my),
            p.w == self.anchor.ww,
            p.h == self.anchor.wh,
    {
        let a = self.anchor;
        Placement { x: a.wx + (pt.x - a.mx), y: a.wy + (pt.y - a.my), w: a.ww, h: a.wh }
    }
}

/// A resize keeps the corner opposite the dragged one in place, and never
/// makes the window smaller than `MIN_W` by `MIN_H`.
pub proof fn lemma_resize_keeps_opposite_corner(a: Anchor, corner: Corner, pt: Point)
    requires
        a.wf(),
        gdi_point(pt),
    ensures
        ({
            let p = resize_spec(a, corner, pt);
            &&& p.w >= MIN_W && p.h >= MIN_H
            &&& match corner {
                Corner::TopLeft => p.x + p.w == a.wx + a.ww && p.y + p.h == a.wy + a.wh,
                Corner::TopRight => p.x == a.wx && p.y + p.h == a.wy + a.wh,
                Corner::BottomRight => p.x == a.wx && p.y == a.wy,
                Corner::BottomLeft => p.x + p.w == a.wx + a.ww && p.y == a.wy,
            }
        }),
{
}

// ---------------------------------------------------------------- opacity

/// The opacity after one wheel notch: `current + delta` kept between
/// `OPACITY_MIN` and fully opaque.
pub fn next_opacity(current: i32, delta: i32) -> (r: i32)
    requires
        0 <= current <= 255,
        -255 <= delta <= 255,
    ensures
        r == clamp(current + delta, OPACITY_MIN as int, 255),
        OPACITY_MIN <= r <= 255,
{
    clamp_i32(current + delta, OPACITY_MIN, 255)
}

} // verus!

verus! {

// ---------------------------------------------------------------- keyboard

/// What the keyboard hook must do besides passing the key on.
#[derive(Clone, Copy, PartialEq, Eq, Structural, Debug)]
pub struct KeyOutcome {
    /// Apply the (changed) pointer shape in `cursor`.
    pub cursor_changed: bool,
    /// Send a harmless key press so that releasing the Windows key after a
    /// gesture does not open the Start menu.
    pub inject_dummy_key: bool,
}

/// The Windows key is no longer held if the keyboard says so.
pub open spec fn synced(s: WmState, win_physically_down: bool) -> WmState {
    if s.win_down && !win_physically_down {
        WmState { win_down: false, ..s }
    } else {
        s
    }
}

pub open spec fn is_key_down(msg: u32) -> bool {
    msg == WM_KEYDOWN || msg == WM_SYSKEYDOWN
}

pub open spec fn is_key_up(msg: u32) -> bool {
    msg == WM_KEYUP || msg == WM_SYSKEYUP
}

/// The state after a key event. Pressing the Windows key starts a fresh
/// gesture session; releasing it ends any drag (pointer shape back to
/// normal, snapping forgotten). Shift is tracked.
pub open spec fn key_spec(s0: WmState, vk: u32, msg: u32, phys: bool) -> WmState {
    let s = synced(s0, phys);
    if vk == VK_LWIN || vk == VK_RWIN {
        if is_key_down(msg) {
            WmState { win_down: true, did_use_win: if !s.win_down { false } else { s.did_use_win }, ..s }
        } else if is_key_up(msg) {
            WmState {
                win_down: false,
                did_use_win: false,
                operation: Operation::Idle,
                snap_last_zone: 0,
                snap_start_zone: 0,
                snap_applied: false,
                cursor: if s.operation != Operation::Idle { CursorKind::Default } else { s.cursor },
                ..s
            }
        } else {
            s
        }
    } else if vk == VK_LSHIFT || vk == VK_RSHIFT || vk == VK_SHIFT {
        if is_key_down(msg) {
            WmState { shift_down: true, ..s }
        } else if is_key_up(msg) {
            WmState { shift_down: false, ..s }
        } else {
            s
        }
    } else {
        s
    }
}

impl WmState {
    /// A key event from the keyboard hook; `phys` tells whether a Windows
    /// key is physically down right now.
    pub fn key_event(&mut self, vk: u32, msg: u32, phys: bool) -> (r: KeyOutcome)
        requires
            old(self).wf(),
        ensures
            final(self).wf(),
            *final(self) == key_spec(*old(self), vk, msg, phys),
            r.cursor_changed == (final(self).cursor != old(self).cursor),
            r.inject_dummy_key == ((vk == VK_LWIN || vk == VK_RWIN) && !is_key_down(msg) && is_key_up(msg)
                && old(self).did_use_win),
    {
        if self.win_down && !phys {
            self.win_down = false;
        }
        let down = msg == WM_KEYDOWN || msg == WM_SYSKEYDOWN;
        let up = msg == WM_KEYUP || msg == WM_SYSKEYUP;
        let mut out = KeyOutcome { cursor_changed: false, inject_dummy_key: false };
        if vk == VK_LWIN || vk == VK_RWIN {
            if down {
                let was_down = self.win_down;
                self.win_down = true;
                if !was_down {
                    self.did_use_win = false;
                }
            } else if up {
                self.win_down = false;
                if self.operation != Operation::Idle {
                    out.cursor_changed = self.set_cursor(CursorKind::Default);
                }
                self.operation = Operation::Idle;
                self.snap_last_zone = 0;
                self.snap_start_zone = 0;
                self.snap_applied = false;
                out.inject_dummy_key = self.did_use_win;
                self.did_use_win = false;
            }
        } else if vk == VK_LSHIFT || vk == VK_RSHIFT || vk == VK_SHIFT {
            if down {
                self.shift_down = true;
            } else if up {
                self.shift_down = false;
            }
        }
        out
    }
}

// ---------------------------------------------------------------- mouse

/// What the mouse hook learnt about the top-level window under the pointer.
#[derive(Clone, Copy, PartialEq, Eq, Structural, Debug)]
pub struct WindowHit {
    pub id: isize,
    /// Its rectangle, if it could be read.
    pub rect: Option<Rect>,
    pub zoomed: bool,
    pub resizable: bool,
}

/// What the mouse hook must do.
#[derive(Clone, Copy, PartialEq, Eq, Structural, Debug)]
pub enum MouseAction {
    /// Pass the event on.
    Pass,
    /// Swallow the event.
    Swallow,
    /// Toggle the window between maximised and restored; swallow.
    ToggleMaximize(isize),
    /// Bring the window forward and start the move or snap thread; swallow.
    StartDrag(isize),
    /// Restore the window first if asked, bring it forward, then call
    /// `begin_resize` with its rectangle and start the resize thread; swallow.
    BeginResize { id: isize, restore: bool },
    /// Minimise the window; swallow.
    Minimize(isize),
    /// Change the window's opacity by `delta`; swallow.
    AdjustOpacity { id: isize, delta: i32 },
}

#[derive(Clone, Copy, PartialEq, Eq, Structural, Debug)]
pub struct MouseOutcome {
    pub action: MouseAction,
    /// Apply the (changed) pointer shape in `cursor`.
    pub cursor_changed: bool,
}

/// Milliseconds from `prev` to `now`, zero if the clock went back.
pub open spec fn elapsed(prev: u64, now: u64) -> int {
    if now >= prev { now - prev } else { 0 }
}

/// A click on window `id` at `now` completes a double click: the previous
/// click was on the same window less than `DOUBLE_CLICK_MS` before.
pub open spec fn is_double_click(s: WmState, id: isize, now: u64) -> bool {
    match s.last_click {
        Some(prev) => elapsed(prev, now) < DOUBLE_CLICK_MS && s.last_click_target == id,
        None => false,
    }
}

/// After a click: a double click is used up; any other click may start one.
pub open spec fn after_click(s: WmState, id: isize, now: u64) -> WmState {
    if is_double_click(s, id, now) {
        WmState { last_click: None, last_click_target: 0, ..s }
    } else {
        WmState { last_click: Some(now), last_click_target: id, ..s }
    }
}

/// The drag anchor set for window `id` with the pointer at `pt`, if the
/// window's rectangle could be read.
pub open spec fn anchored(s: WmState, id: isize, pt: Point, rect: Option<Rect>, zoomed: bool) -> WmState {
    match rect {
        Some(r) => WmState {
            target: id,
            anchor: Anchor {
                mx: pt.x,
                my: pt.y,
                wx: r.left,
                wy: r.top,
                ww: (r.right - r.left) as i32,
                wh: (r.bottom - r.top) as i32,
                maximized: zoomed,
            },
            ..s
        },
        None => s,
    }
}

/// The wheel movement packed in the high word of the hook's mouse data.
pub open spec fn wheel_delta(mouse_data: u32) -> i16 {
    ((mouse_data >> 16) & 0xFFFF) as i16
}

/// A drag ends when its button goes up: the state afterwards, or `None` if
/// the event ends no drag.
pub open spec fn drag_end(s: WmState, msg: u32, win: bool) -> Option<(WmState, MouseAction)> {
    if s.operation == Operation::Move && msg == WM_LBUTTONUP {
        Some((WmState { did_use_win: true, operation: Operation::Idle, cursor: CursorKind::Default, ..s }, MouseAction::Swallow))
    } else if s.operation == Operation::Snap && msg == WM_LBUTTONUP {
        Some((
            WmState {
                did_use_win: true,
                operation: Operation::Idle,
                snap_last_zone: 0,
                snap_start_zone: 0,
                snap_applied: false,
                cursor: CursorKind::Default,
                ..s
            },
            MouseAction::Swallow,
        ))
    } else if s.operation == Operation::Resize && msg == WM_RBUTTONUP {
        Some((WmState { did_use_win: true, operation: Operation::Idle, cursor: CursorKind::Default, ..s }, MouseAction::Swallow))
    } else if msg == WM_MBUTTONUP && win {
        Some((WmState { did_use_win: true, ..s }, MouseAction::Swallow))
    } else {
        None
    }
}

/// The state and action after a mouse event: with the Windows key held, a
/// left press on a window starts a move (a snap with Shift) or, on a double
/// click, toggles maximisation; a right press on a resizable window starts a
/// resize; a middle press minimises; the wheel changes opacity. Releasing
/// the button of a drag ends it.
pub open spec fn mouse_spec(
    s0: WmState,
    msg: u32,
    pt: Point,
    mouse_data: u32,
    phys: bool,
    hit: Option<WindowHit>,
    work: Option<Rect>,
    now: u64,
) -> (WmState, MouseAction) {
    let s = synced(s0, phys);
    let win = s.win_down;
    let fallback = match drag_end(s, msg, win) {
        Some(e) => e,
        None => (s, MouseAction::Pass),
    };
    if win && hit is Some {
        let h = hit.unwrap();
        if msg == WM_LBUTTONDOWN {
            let s1 = after_click(WmState { did_use_win: true, ..s }, h.id, now);
            if is_double_click(s, h.id, now) {
                (s1, MouseAction::ToggleMaximize(h.id))
            } else {
                let s2 = anchored(s1, h.id, pt, h.rect, h.zoomed);
                let zone = classify_spec(pt, work).0;
                let s3 = if s.shift_down {
                    WmState {
                        snap_start_zone: zone,
                        snap_last_zone: zone,
                        snap_applied: false,
                        operation: Operation::Snap,
                        ..s2
                    }
                } else {
                    WmState { operation: Operation::Move, ..s2 }
                };
                (WmState { cursor: CursorKind::Move, ..s3 }, MouseAction::StartDrag(h.id))
            }
        } else if msg == WM_RBUTTONDOWN {
            if !h.resizable {
                (s, MouseAction::Pass)
            } else {
                (WmState { did_use_win: true, ..s }, MouseAction::BeginResize { id: h.id, restore: h.zoomed })
            }
        } else if msg == WM_MBUTTONDOWN {
            (WmState { did_use_win: true, ..s }, MouseAction::Minimize(h.id))
        } else if msg == WM_MOUSEWHEEL {
            (
                WmState { did_use_win: true, ..s },
                MouseAction::AdjustOpacity {
                    id: h.id,
                    delta: if wheel_delta(mouse_data) > 0 { OPACITY_STEP } else { (-OPACITY_STEP) as i32 },
                },
            )
        } else {
            fallback
        }
    } else {
        fallback
    }
}

impl WmState {
    /// Whether a click on `id` at `now` is a double click; remembers it.
    pub fn register_click(&mut self, id: isize, now: u64) -> (dbl: bool)
        ensures
            dbl == is_double_click(*old(self), id, now),
            *final(self) == after_click(*old(self), id, now),
    {
        let dbl = match self.last_click {
            Some(prev) => {
                let e = if now >= prev { now - prev } else { 0 };
                e < DOUBLE_CLICK_MS && self.last_click_target == id
            },
            None => false,
        };
        if dbl {
            self.last_click = None;
            self.last_click_target = 0;
        } else {
            self.last_click = Some(now);
            self.last_click_target = id;
        }
        dbl
    }

    /// Remembers where the pointer and window `id` are as a drag starts.
    pub fn store_anchor(&mut self, id: isize, pt: Point, rect: Option<Rect>, zoomed: bool)
        requires
            old(self).wf(),
            gdi_point(pt),
            rect matches Some(r) ==> gdi_rect(r),
        ensures
            final(self).wf(),
            *final(self) == anchored(*old(self), id, pt, rect, zoomed),
    {
        match rect {
            Some(r) => {
                self.target = id;
                self.anchor = Anchor {
                    mx: pt.x,
                    my: pt.y,
                    wx: r.left,
                    wy: r.top,
                    ww: r.right - r.left,
                    wh: r.bottom - r.top,
                    maximized: zoomed,
                };
            },
            None => {},
        }
    }

    fn end_drag(&mut self, msg: u32, win: bool) -> (r: Option<MouseAction>)
        requires
            old(self).wf(),
        ensures
            final(self).wf(),
            match drag_end(*old(self), msg, win) {
                Some(e) => r == Some(e.1) && *final(self) == e.0,
                None => r is None && *final(self) == *old(self),
            },
    {
        if self.operation == Operation::Move && msg == WM_LBUTTONUP {
            self.did_use_win = true;
            self.operation = Operation::Idle;
            self.set_cursor(CursorKind::Default);
            Some(MouseAction::Swallow)
        } else if self.operation == Operation::Snap && msg == WM_LBUTTONUP {
            self.did_use_win = true;
            self.operation = Operation::Idle;
            self.snap_last_zone = 0;
            self.snap_start_zone = 0;
            self.snap_applied = false;
            self.set_cursor(CursorKind::Default);
            Some(MouseAction::Swallow)
        } else if self.operation == Operation::Resize && msg == WM_RBUTTONUP {
            self.did_use_win = true;
            self.operation = Operation::Idle;
            self.set_cursor(CursorKind::Default);
            Some(MouseAction::Swallow)
        } else if msg == WM_MBUTTONUP && win {
            self.did_use_win = true;
            Some(MouseAction::Swallow)
        } else {
            None
        }
    }

    /// A mouse event from the mouse hook: `pt` the pointer, `mouse_data` the
    /// hook's mouse data, `phys` whether a Windows key is physically down,
    /// `hit` the top-level window under the pointer, `work` the work area of
    /// the pointer's monitor, `now` a millisecond clock.
    pub fn mouse_event(
        &mut self,
        msg: u32,
        pt: Point,
        mouse_data: u32,
        phys: bool,
        hit: Option<WindowHit>,
        work: Option<Rect>,
        now: u64,
    ) -> (r: MouseOutcome)
        requires
            old(self).wf(),
            gdi_point(pt),
            hit matches Some(h) ==> (h.rect matches Some(rr) ==> gdi_rect(rr)),
            work matches Some(w) ==> gdi_rect(w),
        ensures
            final(self).wf(),
            (*final(self), r.action) == mouse_spec(*old(self), msg, pt, mouse_data, phys, hit, work, now),
            r.cursor_changed == (final(self).cursor != old(self).cursor),
    {
        let ghost s0 = *self;
        if self.win_down && !phys {
            self.win_down = false;
        }
        let ghost s = *self;
        let start_cursor = self.cursor;
        let win = self.win_down;
        if win {
            if let Some(h) = hit {
                if msg == WM_LBUTTONDOWN {
                    self.did_use_win = true;
                    if self.register_click(h.id, now) {
                        return MouseOutcome { action: MouseAction::ToggleMaximize(h.id), cursor_changed: false };
                    }
                    self.store_anchor(h.id, pt, h.rect, h.zoomed);
                    if self.shift_down {
                        let (start_zone, _) = classify_zone(pt, work);
                        self.snap_start_zone = start_zone;
                        self.snap_last_zone = start_zone;
                        self.snap_applied = false;
                        self.operation = Operation::Snap;
                    } else {
                        self.operation = Operation::Move;
                    }
                    let changed = self.set_cursor(CursorKind::Move);
                    return MouseOutcome { action: MouseAction::StartDrag(h.id), cursor_changed: changed };
                } else if msg == WM_RBUTTONDOWN {
                    if !h.resizable {
                        return MouseOutcome { action: MouseAction::Pass, cursor_changed: false };
                    }
                    self.did_use_win = true;
                    return MouseOutcome {
                        action: MouseAction::BeginResize { id: h.id, restore: h.zoomed },
                        cursor_changed: false,
                    };
                } else if msg == WM_MBUTTONDOWN {
                    self.did_use_win = true;
                    return MouseOutcome { action: MouseAction::Minimize(h.id), cursor_changed: false };
                } else if msg == WM_MOUSEWHEEL {
                    self.did_use_win = true;
                    let delta = ((mouse_data >> 16) & 0xFFFF) as i16;
                    let step = if delta > 0 { OPACITY_STEP } else { -OPACITY_STEP };
                    return MouseOutcome {
                        action: MouseAction::AdjustOpacity { id: h.id, delta: step },
                        cursor_changed: false,
                    };
                }
            }
        }
        let action = match self.end_drag(msg, win) {
            Some(a) => a,
            None => MouseAction::Pass,
        };
        MouseOutcome { action, cursor_changed: self.cursor != start_cursor }
    }

    /// Starts a resize of window `id` with the pointer at `pt`, once the
    /// window is restored and in front: `rect` is its rectangle (if it could
    /// be read) and `zoomed` whether it is maximised. The corner nearest the
    /// pointer is dragged (an unreadable rectangle counts as empty at the
    /// origin). Returns whether the pointer shape changed.
    pub fn begin_resize(&mut self, id: isize, pt: Point, rect: Option<Rect>, zoomed: bool) -> (changed: bool)
        requires
            old(self).wf(),
            gdi_point(pt),
            rect matches Some(r) ==> gdi_rect(r),
        ensures
            final(self).wf(),
            ({
                let r0 = match rect {
                    Some(r) => r,
                    None => Rect { left: 0, top: 0, right: 0, bottom: 0 },
                };
                let c = nearest_corner(pt, r0);
                *final(self) == (WmState {
                    corner: c,
                    operation: Operation::Resize,
                    cursor: if c == Corner::TopLeft || c == Corner::BottomRight {
                        CursorKind::SizeNwse
                    } else {
                        CursorKind::SizeNesw
                    },
                    ..anchored(*old(self), id, pt, rect, zoomed)
                })
            }),
            changed == (final(self).cursor != old(self).cursor),
    {
        let start_cursor = self.cursor;
        self.store_anchor(id, pt, rect, zoomed);
        let r = match rect {
            Some(r) => r,
            None => Rect { left: 0, top: 0, right: 0, bottom: 0 },
        };
        let c = resize_corner(pt, r);
        self.corner = c;
        self.operation = Operation::Resize;
        let kind = if c == Corner::TopLeft || c == Corner::BottomRight {
            CursorKind::SizeNwse
        } else {
            CursorKind::SizeNesw
        };
        self.set_cursor(kind);
        self.cursor != start_cursor
    }
}

} // verus!

verus! {

// ---------------------------------------------------------------- snapping

/// What one step of a snap drag does to the window.
#[derive(Clone, Copy, PartialEq, Eq, Structural, Debug)]
pub enum SnapAction {
    /// Leave the window as it is.
    Keep,
    /// Maximise the window.
    Maximize,
    /// Restore the window first if `unzoom`, then put it at `to`.
    Place { unzoom: bool, to: Placement },
}

/// Putting a snapped window back where the drag started: nothing if no
/// snap was applied; otherwise maximised again if it was maximised (unless
/// it still is), else restored to its anchored place.
pub open spec fn restore_spec(s: WmState, zoomed: bool) -> (WmState, SnapAction) {
    if !s.snap_applied {
        (s, SnapAction::Keep)
    } else if s.anchor.maximized {
        (WmState { snap_applied: false, ..s }, if !zoomed { SnapAction::Maximize } else { SnapAction::Keep })
    } else {
        (
            WmState { snap_applied: false, ..s },
            SnapAction::Place {
                unzoom: zoomed,
                to: Placement { x: s.anchor.wx, y: s.anchor.wy, w: s.anchor.ww, h: s.anchor.wh },
            },
        )
    }
}

/// One step of a snap drag with the pointer in `zone` (whose rectangle is
/// `rect`), the window maximised or not: nothing while the zone is
/// unchanged; back to the start on the centre, outside any monitor, or in
/// the zone the drag started in; otherwise into the zone's rectangle.
pub open spec fn snap_spec(s: WmState, zone: u8, rect: Option<Rect>, zoomed: bool) -> (WmState, SnapAction) {
    if zone == s.snap_last_zone {
        (s, SnapAction::Keep)
    } else if zone == 0 || zone == 5 || zone == s.snap_start_zone {
        let (s1, a) = restore_spec(s, zoomed);
        (WmState { snap_last_zone: zone, ..s1 }, a)
    } else {
        match rect {
            None => (s, SnapAction::Keep),
            Some(r) => (
                WmState { snap_applied: true, snap_last_zone: zone, ..s },
                SnapAction::Place {
                    unzoom: zoomed,
                    to: Placement {
                        x: r.left,
                        y: r.top,
                        w: (r.right - r.left) as i32,
                        h: (r.bottom - r.top) as i32,
                    },
                },
            ),
        }
    }
}

impl WmState {
    /// Puts a snapped window back (see `restore_spec`).
    pub fn restore_to_anchor(&mut self, zoomed: bool) -> (a: SnapAction)
        requires
            old(self).wf(),
        ensures
            final(self).wf(),
            (*final(self), a) == restore_spec(*old(self), zoomed),
    {
        if !self.snap_applied {
            return SnapAction::Keep;
        }
        let a = if self.anchor.maximized {
            if !zoomed { SnapAction::Maximize } else { SnapAction::Keep }
        } else {
            SnapAction::Place {
                unzoom: zoomed,
                to: Placement { x: self.anchor.wx, y: self.anchor.wy, w: self.anchor.ww, h: self.anchor.wh },
            }
        };
        self.snap_applied = false;
        a
    }

    /// One step of a snap drag (see `snap_spec`); `zone` and `rect` come
    /// from `classify_zone` at the pointer.
    pub fn snap_step(&mut self, zone: u8, rect: Option<Rect>, zoomed: bool) -> (a: SnapAction)
        requires
            old(self).wf(),
            rect matches Some(r) ==> gdi_rect(r),
        ensures
            final(self).wf(),
            (*final(self), a) == snap_spec(*old(self), zone, rect, zoomed),
    {
        if zone == self.snap_last_zone {
            return SnapAction::Keep;
        }
        if zone == 0 || zone == 5 || zone == self.snap_start_zone {
            let a = self.restore_to_anchor(zoomed);
            self.snap_last_zone = zone;
            return a;
        }
        match rect {
            None => SnapAction::Keep,
            Some(r) => {
                self.snap_applied = true;
                self.snap_last_zone = zone;
                SnapAction::Place {
                    unzoom: zoomed,
                    to: Placement { x: r.left, y: r.top, w: r.right - r.left, h: r.bottom - r.top },
                }
            },
        }
    }
}

} // verus!

verus! {

// ---------------------------------------------------------------- laws

/// Releasing the Windows key ends whatever drag was under way and forgets
/// any snapping, and the next press starts a fresh gesture session.
pub proof fn lemma_win_release_ends_drag(s: WmState, vk: u32, msg: u32, phys: bool)
    requires
        vk == VK_LWIN || vk == VK_RWIN,
        is_key_up(msg),
    ensures
        key_spec(s, vk, msg, phys).operation == Operation::Idle,
        !key_spec(s, vk, msg, phys).win_down,
        !key_spec(s, vk, msg, phys).snap_applied,
        key_spec(s, vk, msg, phys).snap_last_zone == 0,
        s.operation != Operation::Idle ==> key_spec(s, vk, msg, phys).cursor == CursorKind::Default,
{
}

/// Releasing the button that drives a drag ends it and swallows the
/// release, whatever else is going on.
pub proof fn lemma_button_release_ends_drag(
    s: WmState,
    msg: u32,
    pt: Point,
    mouse_data: u32,
    phys: bool,
    hit: Option<WindowHit>,
    work: Option<Rect>,
    now: u64,
)
    requires
        (s.operation == Operation::Move || s.operation == Operation::Snap) && msg == WM_LBUTTONUP
            || s.operation == Operation::Resize && msg == WM_RBUTTONUP,
    ensures
        mouse_spec(s, msg, pt, mouse_data, phys, hit, work, now).0.operation == Operation::Idle,
        mouse_spec(s, msg, pt, mouse_data, phys, hit, work, now).0.cursor == CursorKind::Default,
        mouse_spec(s, msg, pt, mouse_data, phys, hit, work, now).1 == MouseAction::Swallow,
{
}

/// Two clicks on the same window less than `DOUBLE_CLICK_MS` apart make a
/// double click (unless the first one completed a double click itself),
/// and the click after a double click never completes another.
pub proof fn lemma_double_click(s: WmState, id: isize, t1: u64, t2: u64)
    ensures
        !is_double_click(s, id, t1) && t1 <= t2 < t1 + DOUBLE_CLICK_MS ==> is_double_click(
            after_click(s, id, t1),
            id,
            t2,
        ),
        is_double_click(s, id, t1) ==> !is_double_click(after_click(s, id, t1), id, t2),
{
}

/// With the Windows key held, a left press on a window that completes a
/// double click toggles that window's maximisation.
pub proof fn lemma_double_click_toggles_maximize(
    s: WmState,
    pt: Point,
    mouse_data: u32,
    h: WindowHit,
    work: Option<Rect>,
    t1: u64,
    t2: u64,
)
    requires
        s.win_down,
        !is_double_click(s, h.id, t1),
        t1 <= t2 < t1 + DOUBLE_CLICK_MS,
    ensures
        ({
            let s1 = mouse_spec(s, WM_LBUTTONDOWN, pt, mouse_data, true, Some(h), work, t1).0;
            mouse_spec(s1, WM_LBUTTONDOWN, pt, mouse_data, true, Some(h), work, t2).1
                == MouseAction::ToggleMaximize(h.id)
        }),
{
    let s1 = mouse_spec(s, WM_LBUTTONDOWN, pt, mouse_data, true, Some(h), work, t1).0;
    assert(s1.last_click == Some(t1) && s1.last_click_target == h.id);
}

/// In a snap drag, once a zone has been applied, coming back to the zone
/// the drag started in puts the window back where it was.
pub proof fn lemma_snap_back_to_start(s: WmState, rect: Option<Rect>, zoomed: bool)
    requires
        s.snap_applied,
        s.snap_last_zone != s.snap_start_zone,
        !s.anchor.maximized,
    ensures
        snap_spec(s, s.snap_start_zone, rect, zoomed) == (
            WmState { snap_applied: false, snap_last_zone: s.snap_start_zone, ..s },
            SnapAction::Place {
                unzoom: zoomed,
                to: Placement { x: s.anchor.wx, y: s.anchor.wy, w: s.anchor.ww, h: s.anchor.wh },
            },
        ),
{
}

} // verus!

verus! {

/// Window style bit: sizing border.
pub const WS_THICKFRAME: u32 = 0x0004_0000;
/// Window style bits: title bar (border and dialog frame).
pub const WS_CAPTION: u32 = 0x00C0_0000;
/// Window style bit: maximise button.
pub const WS_MAXIMIZEBOX: u32 = 0x0001_0000;

/// A window with this style can be resized: it has a sizing border, or a
/// title bar with a maximise button.
pub open spec fn resizable_style(style: u32) -> bool {
    (style & WS_THICKFRAME) == WS_THICKFRAME || ((style & WS_CAPTION) == WS_CAPTION && (style & WS_MAXIMIZEBOX)
        == WS_MAXIMIZEBOX)
}

pub fn is_resizable_style(style: u32) -> (r: bool)
    ensures
        r == resizable_style(style),
{
    (style & WS_THICKFRAME) == WS_THICKFRAME || ((style & WS_CAPTION) == WS_CAPTION && (style & WS_MAXIMIZEBOX)
        == WS_MAXIMIZEBOX)
}

} // verus!

verus! {

// ---------------------------------------------------------------- laws of the gestures

/// The Windows key's auto-repeat does not start a new gesture session: a
/// key-down of a Windows key while it is still held (and the keyboard says
/// it is) keeps the record of a gesture made, so releasing it afterwards
/// still keeps the Start menu shut. A key-down that finds the key released
/// starts the session afresh, with no gesture made.
pub proof fn lemma_win_repeat_keeps_gesture(s: WmState, vk: u32, msg: u32, phys: bool)
    requires
        vk == VK_LWIN || vk == VK_RWIN,
        is_key_down(msg),
    ensures
        key_spec(s, vk, msg, phys).win_down,
        s.win_down && phys ==> key_spec(s, vk, msg, phys).did_use_win == s.did_use_win,
        !(s.win_down && phys) ==> !key_spec(s, vk, msg, phys).did_use_win,
        key_spec(s, vk, msg, phys).operation == s.operation,
        key_spec(s, vk, msg, phys).anchor == s.anchor,
{
}

/// While no minimum size applies, the dragged corner follows the pointer:
/// each moving edge stands at its place when the drag started plus the
/// pointer's travel along that axis.
pub proof fn lemma_resize_follows_pointer(a: Anchor, corner: Corner, pt: Point)
    requires
        a.wf(),
        gdi_point(pt),
    ensures
        ({
            let p = resize_spec(a, corner, pt);
            let dx = pt.x - a.mx;
            let dy = pt.y - a.my;
            &&& (corner == Corner::TopLeft || corner == Corner::BottomLeft) && p.w > MIN_W ==> p.x == a.wx + dx
            &&& (corner == Corner::TopRight || corner == Corner::BottomRight) && p.w > MIN_W ==> p.x + p.w
                == a.wx + a.ww + dx
            &&& (corner == Corner::TopLeft || corner == Corner::TopRight) && p.h > MIN_H ==> p.y == a.wy + dy
            &&& (corner == Corner::BottomLeft || corner == Corner::BottomRight) && p.h > MIN_H ==> p.y + p.h
                == a.wy + a.wh + dy
        }),
{
}

/// The rectangle `w` moved by `dx` across and `dy` down.
pub open spec fn shifted_rect(w: Rect, dx: int, dy: int) -> Rect {
    Rect {
        left: (w.left + dx) as i32,
        top: (w.top + dy) as i32,
        right: (w.right + dx) as i32,
        bottom: (w.bottom + dy) as i32,
    }
}

/// The snap zone depends only on where the point is within the work area:
/// moving the point and the work area together (another monitor placed
/// elsewhere on the desktop) gives the same zone and a rectangle moved by the
/// same amount.
pub proof fn lemma_zone_moves_with_monitor(pt: Point, w: Rect, dx: int, dy: int)
    requires
        gdi_point(pt),
        gdi_rect(w),
        gdi_point(Point { x: (pt.x + dx) as i32, y: (pt.y + dy) as i32 }),
        gdi_rect(shifted_rect(w, dx, dy)),
        pt.x + dx == (pt.x + dx) as i32,
        pt.y + dy == (pt.y + dy) as i32,
        w.left + dx == (w.left + dx) as i32,
        w.right + dx == (w.right + dx) as i32,
        w.top + dy == (w.top + dy) as i32,
        w.bottom + dy == (w.bottom + dy) as i32,
    ensures
        ({
            let moved = classify_spec(Point { x: (pt.x + dx) as i32, y: (pt.y + dy) as i32 }, Some(shifted_rect(w, dx, dy)));
            let here = classify_spec(pt, Some(w));
            &&& moved.0 == here.0
            &&& match here.1 {
                Some(z) => moved.1 == Some(shifted_rect(z, dx, dy)),
                None => moved.1 is None,
            }
        }),
{
}


proof fn lemma_third_cells(m: int, r: int)
    requires
        m >= 2,
        0 <= r < m,
    ensures
        r / max_int(m / 3, 1) == 0 ==> r < m / 2,
        r / max_int(m / 3, 1) >= 2 ==> r >= m / 2,
{
    let c = max_int(m / 3, 1);
    assert(c > 0);
    assert(r / c == 0 ==> r < c) by (nonlinear_arith)
        requires
            c > 0,
            r >= 0,
    ;
    assert(r / c >= 2 ==> r >= 2 * c) by (nonlinear_arith)
        requires
            c > 0,
            r >= 0,
    ;
    assert(r < 2 ==> r / c < 2) by (nonlinear_arith)
        requires
            c >= 1,
            r >= 0,
    ;
}

/// A point of the work area lies in the rectangle its zone snaps to: the
/// quarter of a corner cell, the half of an edge cell. (A work area one
/// pixel wide or high has empty halves, so it is left out.)
pub proof fn lemma_zone_rect_holds_point(pt: Point, w: Rect)
    requires
        gdi_point(pt),
        gdi_rect(w),
        w.right - w.left >= 2,
        w.bottom - w.top >= 2,
        w.left <= pt.x < w.right,
        w.top <= pt.y < w.bottom,
    ensures
        classify_spec(pt, Some(w)).1 matches Some(z) ==> z.left <= pt.x < z.right && z.top <= pt.y < z.bottom,
{
    let mw = w.right - w.left;
    let mh = w.bottom - w.top;
    lemma_third_cells(mw, pt.x - w.left);
    lemma_third_cells(mh, pt.y - w.top);
}


proof fn lemma_third_index(m: int, r: int)
    requires
        m >= 3,
        0 <= r < m,
    ensures
        min_int(r / max_int(m / 3, 1), 2) == 0 <==> r < m / 3,
        min_int(r / max_int(m / 3, 1), 2) == 2 <==> r >= 2 * (m / 3),
{
    let c = m / 3;
    assert(c >= 1);
    assert(r < c <==> r / c == 0) by (nonlinear_arith)
        requires
            c > 0,
            r >= 0,
    ;
    assert(r >= 2 * c <==> r / c >= 2) by (nonlinear_arith)
        requires
            c > 0,
            r >= 0,
    ;
}

/// Zones are numbered 1 to 9 row by row over a 3x3 grid of the work area:
/// a point of the area is in the left (top) column (row) exactly when it
/// lies in the first third of the width (height), and in the right (bottom)
/// one exactly when it lies past two thirds.
pub proof fn lemma_zone_grid(pt: Point, w: Rect)
    requires
        gdi_point(pt),
        gdi_rect(w),
        w.right - w.left >= 3,
        w.bottom - w.top >= 3,
        w.left <= pt.x < w.right,
        w.top <= pt.y < w.bottom,
    ensures
        ({
            let z = classify_spec(pt, Some(w)).0 as int;
            let mw = w.right - w.left;
            let mh = w.bottom - w.top;
            &&& 1 <= z <= 9
            &&& ((z - 1) % 3 == 0 <==> pt.x - w.left < mw / 3)
            &&& ((z - 1) % 3 == 2 <==> pt.x - w.left >= 2 * (mw / 3))
            &&& ((z - 1) / 3 == 0 <==> pt.y - w.top < mh / 3)
            &&& ((z - 1) / 3 == 2 <==> pt.y - w.top >= 2 * (mh / 3))
        }),
{
    let mw = w.right - w.left;
    let mh = w.bottom - w.top;
    lemma_third_index(mw, pt.x - w.left);
    lemma_third_index(mh, pt.y - w.top);
}

} // verus!
