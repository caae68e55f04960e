//! The full-screen overlay of the colour picker and the text extractor, as
//! a state machine: each window event updates the overlay's state and names
//! the one thing the window has to do next.
use vstd::prelude::*;
use crate::screen::{ScreenCapture, clamp, clamp_i32, color_at};
use crate::image::pixel_byte;

verus! {

/// Width of the colour popup.
pub const POPUP_W: i32 = 280;
/// Height of the colour popup.
pub const POPUP_H: i32 = 160;
/// Inner padding of the colour popup.
pub const POPUP_PAD: i32 = 14;
/// Height of a popup button.
pub const BUTTON_H: i32 = 34;
/// Side of the colour swatch.
pub const SWATCH_SIZE: i32 = 48;
/// Id of the timer that hides an error message.
pub const ERROR_TIMER_ID: usize = 50;
/// Virtual key codes the overlay reacts to.
pub const VK_ESCAPE: u16 = 0x1B;
pub const VK_LEFT: u16 = 0x25;
pub const VK_UP: u16 = 0x26;
pub const VK_RIGHT: u16 = 0x27;
pub const VK_DOWN: u16 = 0x28;

/// The largest coordinate GDI handles (its coordinate space is 27 bits).
pub open spec fn gdi_limit() -> int {
    0x800_0000
}

/// What the overlay is for.
#[derive(Clone, Copy, PartialEq, Eq, Structural, Debug)]
pub enum Mode {
    Color,
    Text,
}

/// A point in screen coordinates.
#[derive(Clone, Copy, PartialEq, Eq, Structural, Debug)]
pub struct Point {
    pub x: i32,
    pub y: i32,
}

/// A rectangle; `right` and `bottom` are exclusive.
#[derive(Clone, Copy, PartialEq, Eq, Structural, Debug)]
pub struct Rect {
    pub left: i32,
    pub top: i32,
    pub right: i32,
    pub bottom: i32,
}

/// A picked colour and where its popup stands (in overlay coordinates).
#[derive(Clone, Copy, PartialEq, Eq, Structural, Debug)]
pub struct PickedColor {
    pub r: u8,
    pub g: u8,
    pub b: u8,
    pub px: i32,
    pub py: i32,
}

/// The state of an open overlay.
pub struct Overlay {
    pub mode: Mode,
    pub screen: ScreenCapture,
    /// Where the pointer (or the keyboard-moved cursor) is, in screen coordinates.
    pub cursor: Point,
    /// A text selection is being dragged.
    pub selecting: bool,
    pub start: Point,
    pub current: Point,
    /// Recognition is running.
    pub busy: bool,
    pub picked: Option<PickedColor>,
    /// An error message on display.
    pub error: Option<String>,
}

/// What the overlay window must do after an event.
#[derive(PartialEq, Eq, Debug)]
pub enum OverlayAction {
    Nothing,
    /// Repaint.
    Redraw,
    /// Start the timer that hides the error message, and repaint.
    ShowError,
    /// Close the overlay.
    Close,
    /// Capture the mouse for a drag.
    CaptureMouse,
    /// Repaint, then crop this screen rectangle and recognise its text.
    Recognize { x: i32, y: i32, w: i32, h: i32 },
    /// Copy the text to the clipboard and close, whatever the copy did.
    CopyAndClose(String),
    /// Copy the text to the clipboard, and close if that worked.
    CopyThenCloseIfCopied(String),
}

/// A window event, as the overlay sees it.
pub enum OverlayEvent {
    /// A key went down; `shift` tells whether Shift is held.
    KeyDown { vk: u16, shift: bool },
    /// The pointer moved; `lparam` packs its client coordinates.
    MouseMove { lparam: isize },
    LButtonDown { lparam: isize },
    LButtonUp { lparam: isize },
    /// Recognition ended.
    RecognitionDone { success: bool, text: String },
    /// The region to recognise could not be cropped from the capture.
    CaptureFailed,
    /// A timer fired.
    Timer { id: usize },
}

/// The pointer shape over the overlay.
#[derive(Clone, Copy, PartialEq, Eq, Structural, Debug)]
pub enum CursorShape {
    /// The overlay's own cross.
    Default,
    Arrow,
    Hand,
}

pub open spec fn coord_ok(v: int) -> bool {
    -2 * gdi_limit() <= v <= 2 * gdi_limit()
}

pub open spec fn point_ok(p: Point) -> bool {
    coord_ok(p.x as int) && coord_ok(p.y as int)
}

impl Overlay {
    /// The capture is well formed and every coordinate lies within twice the
    /// GDI range, so no arithmetic of the overlay overflows.
    pub open spec fn wf(&self) -> bool {
        &&& self.screen.wf()
        &&& -gdi_limit() <= self.screen.x <= gdi_limit()
        &&& -gdi_limit() <= self.screen.y <= gdi_limit()
        &&& self.screen.width <= gdi_limit()
        &&& self.screen.height <= gdi_limit()
        &&& point_ok(self.cursor)
        &&& point_ok(self.start)
        &&& point_ok(self.current)
        &&& self.picked matches Some(p) ==> coord_ok(p.px as int) && coord_ok(p.py as int)
    }
}

/// A capture that an overlay can be opened on.
pub open spec fn screen_ok(screen: &ScreenCapture) -> bool {
    &&& screen.wf()
    &&& -gdi_limit() <= screen.x <= gdi_limit()
    &&& -gdi_limit() <= screen.y <= gdi_limit()
    &&& screen.width <= gdi_limit()
    &&& screen.height <= gdi_limit()
}

/// A freshly opened overlay: cursor at the middle of the screen, nothing
/// selected, picked or shown.
pub open spec fn opened(o: &Overlay, mode: Mode, screen: &ScreenCapture) -> bool {
    &&& o.wf()
    &&& o.mode == mode
    &&& o.screen == *screen
    &&& o.cursor == Point { x: (screen.x + screen.width / 2) as i32, y: (screen.y + screen.height / 2) as i32 }
    &&& !o.selecting
    &&& o.start == Point { x: 0, y: 0 }
    &&& o.current == Point { x: 0, y: 0 }
    &&& !o.busy
    &&& o.picked is None
    &&& o.error is None
}

fn open_overlay(mode: Mode, screen: ScreenCapture) -> (o: Overlay)
    requires
        screen_ok(&screen),
    ensures
        opened(&o, mode, &screen),
{
    let cursor = Point { x: screen.x + screen.width / 2, y: screen.y + screen.height / 2 };
    Overlay {
        mode,
        screen,
        cursor,
        selecting: false,
        start: Point { x: 0, y: 0 },
        current: Point { x: 0, y: 0 },
        busy: false,
        picked: None,
        error: None,
    }
}

/// Opens the colour picker on a capture of the screen.
pub fn open_color_picker(screen: ScreenCapture) -> (o: Overlay)
    requires
        screen_ok(&screen),
    ensures
        opened(&o, Mode::Color, &screen),
{
    open_overlay(Mode::Color, screen)
}

/// Opens the text extractor on a capture of the screen.
pub fn open_text_extractor(screen: ScreenCapture) -> (o: Overlay)
    requires
        screen_ok(&screen),
    ensures
        opened(&o, Mode::Text, &screen),
{
    open_overlay(Mode::Text, screen)
}

} // verus!

verus! {

// ---------------------------------------------------------------- geometry

/// The signed low word of a packed pointer position.
pub open spec fn lo_word(l: isize) -> int {
    (l as i16) as int
}

/// The signed high word of a packed pointer position.
pub open spec fn hi_word(l: isize) -> int {
    ((l >> 16) as i16) as int
}

/// The screen point of a packed client position, the overlay's top-left
/// corner being at `(sx, sy)`.
pub fn point_from_lparam(lparam: isize, sx: i32, sy: i32) -> (p: Point)
    requires
        -gdi_limit() <= sx <= gdi_limit(),
        -gdi_limit() <= sy <= gdi_limit(),
    ensures
        p.x == sx + lo_word(lparam),
        p.y == sy + hi_word(lparam),
        point_ok(p),
{
    let x = (lparam as i16) as i32;
    let y = ((lparam >> 16) as i16) as i32;
    Point { x: sx + x, y: sy + y }
}

pub open spec fn min_i(a: int, b: int) -> int {
    if a <= b { a } else { b }
}

pub open spec fn max_i(a: int, b: int) -> int {
    if a >= b { a } else { b }
}

/// The dragged selection in overlay coordinates, corners sorted.
pub open spec fn selection_spec(o: &Overlay) -> Rect {
    Rect {
        left: (min_i(o.start.x as int, o.current.x as int) - o.screen.x) as i32,
        top: (min_i(o.start.y as int, o.current.y as int) - o.screen.y) as i32,
        right: (max_i(o.start.x as int, o.current.x as int) - o.screen.x) as i32,
        bottom: (max_i(o.start.y as int, o.current.y as int) - o.screen.y) as i32,
    }
}

/// `p` is over the colour popup (edges of its far sides excluded).
pub open spec fn over_popup(p: PickedColor, mx: int, my: int) -> bool {
    p.px <= mx < p.px + POPUP_W && p.py <= my < p.py + POPUP_H
}

/// `(mx, my)` is over the popup's "Copy HEX" button.
pub open spec fn on_hex_button(p: PickedColor, mx: int, my: int) -> bool {
    let y1 = p.py + POPUP_PAD + SWATCH_SIZE + 10;
    y1 <= my < y1 + BUTTON_H && p.px + POPUP_PAD <= mx < p.px + POPUP_PAD + (POPUP_W - POPUP_PAD * 2)
}

/// `(mx, my)` is over the popup's "Copy RGB" button.
pub open spec fn on_rgb_button(p: PickedColor, mx: int, my: int) -> bool {
    let y2 = p.py + POPUP_PAD + SWATCH_SIZE + 10 + BUTTON_H + 6;
    y2 <= my < y2 + BUTTON_H && p.px + POPUP_PAD <= mx < p.px + POPUP_PAD + (POPUP_W - POPUP_PAD * 2)
}

/// Whether `(mx, my)` is over the popup, and over one of its buttons.
pub fn popup_hit(picked: &Option<PickedColor>, mx: i32, my: i32) -> (r: (bool, bool))
    requires
        picked matches Some(p) ==> coord_ok(p.px as int) && coord_ok(p.py as int),
    ensures
        match picked {
            Some(p) => r == (
                over_popup(*p, mx as int, my as int),
                over_popup(*p, mx as int, my as int) && (on_hex_button(*p, mx as int, my as int)
                    || on_rgb_button(*p, mx as int, my as int)),
            ),
            None => r == (false, false),
        },
{
    match picked {
        None => (false, false),
        Some(p) => {
            let over = mx >= p.px && mx < p.px + POPUP_W && my >= p.py && my < p.py + POPUP_H;
            if !over {
                return (false, false);
            }
            let btn_w = POPUP_W - POPUP_PAD * 2;
            let btn_y1 = p.py + POPUP_PAD + SWATCH_SIZE + 10;
            let btn_y2 = btn_y1 + BUTTON_H + 6;
            let on_btn = (my >= btn_y1 && my < btn_y1 + BUTTON_H && mx >= p.px + POPUP_PAD && mx < p.px
                + POPUP_PAD + btn_w) || (my >= btn_y2 && my < btn_y2 + BUTTON_H && mx >= p.px + POPUP_PAD
                && mx < p.px + POPUP_PAD + btn_w);
            (true, on_btn)
        },
    }
}

/// Both popup buttons lie inside the popup.
pub proof fn lemma_buttons_inside_popup(p: PickedColor, mx: int, my: int)
    requires
        on_hex_button(p, mx, my) || on_rgb_button(p, mx, my),
    ensures
        over_popup(p, mx, my),
{
}

/// Where the colour popup goes for a cursor at `(lx, ly)` in a `vw` by `vh`
/// overlay: right of and below the cursor, flipped left or pulled up where
/// it would not fit, and kept 10 pixels inside the edges.
pub open spec fn popup_origin(lx: int, ly: int, vw: int, vh: int) -> (int, int) {
    let px = if lx + 28 + POPUP_W > vw { lx - POPUP_W - 28 } else { lx + 28 };
    let py = if ly + 28 + POPUP_H > vh { vh - POPUP_H - 10 } else { ly + 28 };
    (clamp(px, 10, vw - POPUP_W - 10), clamp(py, 10, vh - POPUP_H - 10))
}

/// The popup of a picked colour lies inside the overlay, 10 pixels from each edge.
pub proof fn lemma_popup_inside(lx: int, ly: int, vw: int, vh: int)
    requires
        vw >= POPUP_W + 20,
        vh >= POPUP_H + 20,
    ensures
        10 <= popup_origin(lx, ly, vw, vh).0,
        popup_origin(lx, ly, vw, vh).0 + POPUP_W <= vw - 10,
        10 <= popup_origin(lx, ly, vw, vh).1,
        popup_origin(lx, ly, vw, vh).1 + POPUP_H <= vh - 10,
{
}

/// Where the loupe goes for a cursor at `(lx, ly)` in a `vw` by `vh`
/// overlay: right of and below the cursor unless that would leave the screen.
pub open spec fn loupe_origin_spec(lx: int, ly: int, vw: int, vh: int) -> (int, int) {
    (
        if lx + 230 > vw { lx - 230 } else { lx + 28 },
        if ly + 250 > vh { ly - 250 } else { ly + 28 },
    )
}

// ---------------------------------------------------------------- colour text

/// The upper-case hexadecimal digit of `n < 16`.
pub open spec fn hex_digit(n: u8) -> char {
    if n < 10 {
        ((48 + n) as u8) as char
    } else {
        ((55 + n) as u8) as char
    }
}

/// The decimal digit of `n < 10`.
pub open spec fn digit_char(n: int) -> char {
    ((48 + n) as u8) as char
}

/// The decimal form of `n`, without leading zeros.
pub open spec fn decimal(n: nat) -> Seq<char>
    decreases n,
{
    if n < 10 {
        seq![digit_char(n as int)]
    } else {
        decimal(n / 10).push(digit_char((n % 10) as int))
    }
}

/// `#RRGGBB` in upper-case hexadecimal.
pub open spec fn hex_text(r: u8, g: u8, b: u8) -> Seq<char> {
    seq![
        '#',
        hex_digit(r / 16),
        hex_digit(r % 16),
        hex_digit(g / 16),
        hex_digit(g % 16),
        hex_digit(b / 16),
        hex_digit(b % 16),
    ]
}

/// `rgb(R, G, B)` in decimal.
pub open spec fn rgb_text(r: u8, g: u8, b: u8) -> Seq<char> {
    seq!['r', 'g', 'b', '('] + decimal(r as nat) + seq![',', ' '] + decimal(g as nat) + seq![',', ' ']
        + decimal(b as nat) + seq![')']
}

fn push_hex(v: &mut Vec<char>, n: u8)
    requires
        n < 16,
    ensures
        final(v)@ == old(v)@.push(hex_digit(n)),
{
    if n < 10 {
        v.push((48 + n) as char);
    } else {
        v.push((55 + n) as char);
    }
}

fn push_decimal(v: &mut Vec<char>, n: u8)
    ensures
        final(v)@ == old(v)@ + decimal(n as nat),
{
    proof {
        reveal_with_fuel(decimal, 3);
    }
    if n >= 100 {
        v.push((48 + n / 100) as char);
        v.push((48 + (n / 10) % 10) as char);
        v.push((48 + n % 10) as char);
        assert(decimal(n as nat) =~= seq![digit_char((n / 100) as int), digit_char(((n / 10) % 10) as int), digit_char((n % 10) as int)]);
    } else if n >= 10 {
        v.push((48 + n / 10) as char);
        v.push((48 + n % 10) as char);
        assert(decimal(n as nat) =~= seq![digit_char((n / 10) as int), digit_char((n % 10) as int)]);
    } else {
        v.push((48 + n) as char);
    }
    assert(final(v)@ =~= old(v)@ + decimal(n as nat));
}

/// The colour as `#RRGGBB`.
pub fn color_hex(r: u8, g: u8, b: u8) -> (s: String)
    ensures
        s@ == hex_text(r, g, b),
{
    let mut v: Vec<char> = Vec::new();
    v.push('#');
    push_hex(&mut v, r / 16);
    push_hex(&mut v, r % 16);
    push_hex(&mut v, g / 16);
    push_hex(&mut v, g % 16);
    push_hex(&mut v, b / 16);
    push_hex(&mut v, b % 16);
    assert(v@ =~= hex_text(r, g, b));
    crate::chars::string_of(&v)
}

/// The colour as `rgb(R, G, B)`.
pub fn color_rgb(r: u8, g: u8, b: u8) -> (s: String)
    ensures
        s@ == rgb_text(r, g, b),
{
    let mut v: Vec<char> = Vec::new();
    v.push('r');
    v.push('g');
    v.push('b');
    v.push('(');
    push_decimal(&mut v, r);
    v.push(',');
    v.push(' ');
    push_decimal(&mut v, g);
    v.push(',');
    v.push(' ');
    push_decimal(&mut v, b);
    v.push(')');
    assert(v@ =~= rgb_text(r, g, b));
    crate::chars::string_of(&v)
}

} // verus!

verus! {

// ---------------------------------------------------------------- events

/// How far an arrow key moves the cursor, `step` pixels at a time.
pub open spec fn arrow_delta(vk: u16, step: int) -> (int, int) {
    if vk == VK_LEFT {
        (-step, 0)
    } else if vk == VK_RIGHT {
        (step, 0)
    } else if vk == VK_UP {
        (0, -step)
    } else if vk == VK_DOWN {
        (0, step)
    } else {
        (0, 0)
    }
}

/// The cursor after an arrow key: moved by the key's step (5 with Shift,
/// else 1) and kept on the screen.
pub open spec fn moved_cursor(o: &Overlay, vk: u16, shift: bool) -> Point {
    let d = arrow_delta(vk, if shift { 5 } else { 1 });
    Point {
        x: clamp(o.cursor.x + d.0, o.screen.x as int, o.screen.x + o.screen.width - 1) as i32,
        y: clamp(o.cursor.y + d.1, o.screen.y as int, o.screen.y + o.screen.height - 1) as i32,
    }
}

/// The overlay shows `text` as its error message.
pub open spec fn shows_error(o: &Overlay, text: Seq<char>) -> bool {
    o.error matches Some(e) && e@ == text
}

/// The colour picked at the cursor, with its popup placed by `popup_origin`.
pub open spec fn picked_at_cursor(o: &Overlay) -> PickedColor {
    let lx = clamp(o.cursor.x - o.screen.x, 0, o.screen.width - 1);
    let ly = clamp(o.cursor.y - o.screen.y, 0, o.screen.height - 1);
    let pos = popup_origin(
        o.cursor.x - o.screen.x,
        o.cursor.y - o.screen.y,
        o.screen.width as int,
        o.screen.height as int,
    );
    PickedColor {
        r: pixel_byte(o.screen.pixels@, o.screen.width as int, lx, ly, 2),
        g: pixel_byte(o.screen.pixels@, o.screen.width as int, lx, ly, 1),
        b: pixel_byte(o.screen.pixels@, o.screen.width as int, lx, ly, 0),
        px: pos.0 as i32,
        py: pos.1 as i32,
    }
}

/// The screen point of a packed client position.
pub open spec fn event_point(o: &Overlay, lparam: isize) -> Point {
    Point { x: (o.screen.x + lo_word(lparam)) as i32, y: (o.screen.y + hi_word(lparam)) as i32 }
}

impl Overlay {
    /// A key went down. Escape backs out one level: it abandons a running
    /// recognition (showing "No text found"), closes over an error message,
    /// dismisses a colour popup, and otherwise closes the overlay. In the
    /// colour picker, with no popup open, the arrow keys move the cursor one
    /// pixel, or five with Shift, staying on the screen.
    pub fn key_down(&mut self, vk: u16, shift: bool) -> (r: OverlayAction)
        requires
            old(self).wf(),
        ensures
            final(self).wf(),
            vk == VK_ESCAPE ==> {
                if old(self).busy {
                    &&& *final(self) == (Overlay { busy: false, error: final(self).error, ..*old(self) })
                    &&& shows_error(final(self), "No text found"@)
                    &&& r == OverlayAction::ShowError
                } else if old(self).error is Some {
                    *final(self) == *old(self) && r == OverlayAction::Close
                } else if old(self).picked is Some {
                    *final(self) == (Overlay { picked: None, ..*old(self) }) && r == OverlayAction::Redraw
                } else {
                    *final(self) == *old(self) && r == OverlayAction::Close
                }
            },
            vk != VK_ESCAPE ==> {
                if old(self).mode == Mode::Color && old(self).picked is None && arrow_delta(vk, 1) != (0int, 0int) {
                    &&& *final(self) == (Overlay { cursor: moved_cursor(old(self), vk, shift), ..*old(self) })
                    &&& r == OverlayAction::Redraw
                } else {
                    *final(self) == *old(self) && r == OverlayAction::Nothing
                }
            },
    {
        if vk == VK_ESCAPE {
            if self.busy {
                self.busy = false;
                self.error = Some(String::from_str("No text found"));
                return OverlayAction::ShowError;
            }
            if self.error.is_some() {
                return OverlayAction::Close;
            }
            if self.picked.is_some() {
                self.picked = None;
                return OverlayAction::Redraw;
            }
            return OverlayAction::Close;
        }
        if self.mode == Mode::Color && self.picked.is_none() {
            let step: i32 = if shift { 5 } else { 1 };
            let (dx, dy): (i32, i32) = if vk == VK_LEFT {
                (-step, 0)
            } else if vk == VK_RIGHT {
                (step, 0)
            } else if vk == VK_UP {
                (0, -step)
            } else if vk == VK_DOWN {
                (0, step)
            } else {
                (0, 0)
            };
            if dx != 0 || dy != 0 {
                let x = clamp_i32(self.cursor.x + dx, self.screen.x, self.screen.x + self.screen.width - 1);
                let y = clamp_i32(self.cursor.y + dy, self.screen.y, self.screen.y + self.screen.height - 1);
                self.cursor = Point { x, y };
                return OverlayAction::Redraw;
            }
        }
        OverlayAction::Nothing
    }

    /// The pointer moved: the cursor follows it, and so does the end of a
    /// selection being dragged.
    pub fn mouse_move(&mut self, lparam: isize) -> (r: OverlayAction)
        requires
            old(self).wf(),
        ensures
            final(self).wf(),
            *final(self) == (Overlay {
                cursor: event_point(old(self), lparam),
                current: if old(self).selecting { event_point(old(self), lparam) } else { old(self).current },
                ..*old(self)
            }),
            r == OverlayAction::Redraw,
    {
        let p = point_from_lparam(lparam, self.screen.x, self.screen.y);
        self.cursor = p;
        if self.selecting {
            self.current = p;
        }
        OverlayAction::Redraw
    }

    /// The left button went down. In the colour picker with a popup open,
    /// a click outside the popup dismisses it and a click on a button copies
    /// the colour as hex or as rgb; with no popup open, it picks the colour
    /// under the cursor. In the text extractor it starts a selection.
    pub fn lbutton_down(&mut self, lparam: isize) -> (r: OverlayAction)
        requires
            old(self).wf(),
            old(self).mode == Mode::Color && old(self).picked is None ==> old(self).screen.width >= POPUP_W
                + 20 && old(self).screen.height >= POPUP_H + 20,
        ensures
            final(self).wf(),
            old(self).mode == Mode::Color ==> match old(self).picked {
                Some(p) => {
                    let mx = lo_word(lparam);
                    let my = hi_word(lparam);
                    if mx < p.px || mx > p.px + POPUP_W || my < p.py || my > p.py + POPUP_H {
                        *final(self) == (Overlay { picked: None, ..*old(self) }) && r == OverlayAction::Redraw
                    } else if on_hex_button(p, mx, my) {
                        *final(self) == *old(self) && (r matches OverlayAction::CopyThenCloseIfCopied(t)
                            && t@ == hex_text(p.r, p.g, p.b))
                    } else if on_rgb_button(p, mx, my) {
                        *final(self) == *old(self) && (r matches OverlayAction::CopyThenCloseIfCopied(t)
                            && t@ == rgb_text(p.r, p.g, p.b))
                    } else {
                        *final(self) == *old(self) && r == OverlayAction::Nothing
                    }
                },
                None => *final(self) == (Overlay { picked: Some(picked_at_cursor(old(self))), ..*old(self) })
                    && r == OverlayAction::Redraw,
            },
            old(self).mode == Mode::Text ==> {
                &&& *final(self) == (Overlay {
                    error: None,
                    selecting: true,
                    start: event_point(old(self), lparam),
                    current: event_point(old(self), lparam),
                    ..*old(self)
                })
                &&& r == OverlayAction::CaptureMouse
            },
    {
        match self.mode {
            Mode::Color => {
                match self.picked {
                    Some(p) => {
                        let mx = (lparam as i16) as i32;
                        let my = ((lparam >> 16) as i16) as i32;
                        if mx < p.px || mx > p.px + POPUP_W || my < p.py || my > p.py + POPUP_H {
                            self.picked = None;
                            return OverlayAction::Redraw;
                        }
                        let btn_w = POPUP_W - POPUP_PAD * 2;
                        let btn_y1 = p.py + POPUP_PAD + SWATCH_SIZE + 10;
                        let btn_y2 = btn_y1 + BUTTON_H + 6;
                        if my >= btn_y1 && my < btn_y1 + BUTTON_H && mx >= p.px + POPUP_PAD && mx < p.px
                            + POPUP_PAD + btn_w {
                            OverlayAction::CopyThenCloseIfCopied(color_hex(p.r, p.g, p.b))
                        } else if my >= btn_y2 && my < btn_y2 + BUTTON_H && mx >= p.px + POPUP_PAD && mx
                            < p.px + POPUP_PAD + btn_w {
                            OverlayAction::CopyThenCloseIfCopied(color_rgb(p.r, p.g, p.b))
                        } else {
                            OverlayAction::Nothing
                        }
                    },
                    None => {
                        let (r, g, b) = color_at(&self.screen, self.cursor.x, self.cursor.y);
                        let vw = self.screen.width;
                        let vh = self.screen.height;
                        let local_x = self.cursor.x - self.screen.x;
                        let local_y = self.cursor.y - self.screen.y;
                        let px = if local_x + 28 + POPUP_W > vw {
                            local_x - POPUP_W - 28
                        } else {
                            local_x + 28
                        };
                        let py = if local_y + 28 + POPUP_H > vh {
                            vh - POPUP_H - 10
                        } else {
                            local_y + 28
                        };
                        let px = clamp_i32(px, 10, vw - POPUP_W - 10);
                        let py = clamp_i32(py, 10, vh - POPUP_H - 10);
                        self.picked = Some(PickedColor { r, g, b, px, py });
                        OverlayAction::Redraw
                    },
                }
            },
            Mode::Text => {
                self.error = None;
                self.selecting = true;
                let p = point_from_lparam(lparam, self.screen.x, self.screen.y);
                self.start = p;
                self.current = p;
                OverlayAction::CaptureMouse
            },
        }
    }
}

} // verus!

verus! {

/// What the text extractor shows when it is not dragging.
pub enum TextPanel {
    /// The selection being dragged, in overlay coordinates.
    Selection(Rect),
    /// "Recognizing..." while recognition runs.
    Busy,
    /// The error message.
    Error(String),
    /// The "Drag to select text" hint.
    Hint,
}

impl Overlay {
    /// The selection in overlay coordinates, corners sorted.
    pub fn selection_rect(&self) -> (r: Rect)
        requires
            self.wf(),
        ensures
            r == selection_spec(self),
            r.left <= r.right,
            r.top <= r.bottom,
    {
        let x1 = if self.start.x <= self.current.x { self.start.x } else { self.current.x };
        let y1 = if self.start.y <= self.current.y { self.start.y } else { self.current.y };
        let x2 = if self.start.x >= self.current.x { self.start.x } else { self.current.x };
        let y2 = if self.start.y >= self.current.y { self.start.y } else { self.current.y };
        Rect {
            left: x1 - self.screen.x,
            top: y1 - self.screen.y,
            right: x2 - self.screen.x,
            bottom: y2 - self.screen.y,
        }
    }

    /// The left button went up. Ending a text selection that is not under
    /// way of recognition: a selection narrower or lower than 5 pixels closes
    /// the overlay; a larger one starts recognition of that screen rectangle.
    pub fn lbutton_up(&mut self, lparam: isize) -> (r: OverlayAction)
        requires
            old(self).wf(),
        ensures
            final(self).wf(),
            if old(self).mode == Mode::Text && old(self).selecting && !old(self).busy {
                let ended = Overlay { selecting: false, current: event_point(old(self), lparam), ..*old(self) };
                let sel = selection_spec(&ended);
                let w = sel.right - sel.left;
                let h = sel.bottom - sel.top;
                if w < 5 || h < 5 {
                    *final(self) == ended && r == OverlayAction::Close
                } else {
                    &&& *final(self) == (Overlay { busy: true, ..ended })
                    &&& r == (OverlayAction::Recognize {
                        x: (sel.left + old(self).screen.x) as i32,
                        y: (sel.top + old(self).screen.y) as i32,
                        w: w as i32,
                        h: h as i32,
                    })
                }
            } else {
                *final(self) == *old(self) && r == OverlayAction::Nothing
            },
    {
        if self.mode == Mode::Text && self.selecting && !self.busy {
            self.selecting = false;
            self.current = point_from_lparam(lparam, self.screen.x, self.screen.y);
            let sel = self.selection_rect();
            let w = sel.right - sel.left;
            let h = sel.bottom - sel.top;
            if w < 5 || h < 5 {
                return OverlayAction::Close;
            }
            self.busy = true;
            OverlayAction::Recognize { x: sel.left + self.screen.x, y: sel.top + self.screen.y, w, h }
        } else {
            OverlayAction::Nothing
        }
    }

    /// Recognition ended with `success` and the text (or the error message).
    /// Unless an error is already on display, a success copies the text and
    /// closes, and a failure shows the message.
    pub fn recognition_done(&mut self, success: bool, text: String) -> (r: OverlayAction)
        requires
            old(self).wf(),
        ensures
            final(self).wf(),
            old(self).error is Some ==> *final(self) == (Overlay { busy: false, ..*old(self) })
                && r == OverlayAction::Redraw,
            old(self).error is None && success ==> *final(self) == (Overlay { busy: false, ..*old(self) })
                && r == OverlayAction::CopyAndClose(text),
            old(self).error is None && !success ==> *final(self) == (Overlay {
                busy: false,
                error: Some(text),
                ..*old(self)
            }) && r == OverlayAction::ShowError,
    {
        self.busy = false;
        if self.error.is_none() {
            if success {
                return OverlayAction::CopyAndClose(text);
            }
            self.error = Some(text);
            return OverlayAction::ShowError;
        }
        OverlayAction::Redraw
    }

    /// The rectangle to recognise could not be taken from the capture.
    pub fn capture_failed(&mut self) -> (r: OverlayAction)
        requires
            old(self).wf(),
        ensures
            final(self).wf(),
            *final(self) == (Overlay { busy: false, error: final(self).error, ..*old(self) }),
            shows_error(final(self), "Failed to capture region"@),
            r == OverlayAction::ShowError,
    {
        self.busy = false;
        self.error = Some(String::from_str("Failed to capture region"));
        OverlayAction::ShowError
    }

    /// A timer fired; the error timer hides the error message.
    pub fn timer(&mut self, id: usize) -> (r: OverlayAction)
        requires
            old(self).wf(),
        ensures
            final(self).wf(),
            id == ERROR_TIMER_ID ==> *final(self) == (Overlay { error: None, ..*old(self) }) && r
                == OverlayAction::Redraw,
            id != ERROR_TIMER_ID ==> *final(self) == *old(self) && r == OverlayAction::Nothing,
    {
        if id == ERROR_TIMER_ID {
            self.error = None;
            OverlayAction::Redraw
        } else {
            OverlayAction::Nothing
        }
    }

    /// The pointer shape at overlay point `(cx, cy)`: a hand over a popup
    /// button, an arrow elsewhere over the popup, the cross otherwise.
    pub fn cursor_shape(&self, cx: i32, cy: i32) -> (r: CursorShape)
        requires
            self.wf(),
        ensures
            match self.picked {
                Some(p) => r == if over_popup(p, cx as int, cy as int) && (on_hex_button(p, cx as int, cy as int)
                    || on_rgb_button(p, cx as int, cy as int)) {
                    CursorShape::Hand
                } else if over_popup(p, cx as int, cy as int) {
                    CursorShape::Arrow
                } else {
                    CursorShape::Default
                },
                None => r == CursorShape::Default,
            },
    {
        if self.picked.is_some() {
            let (over, on_btn) = popup_hit(&self.picked, cx, cy);
            if on_btn {
                return CursorShape::Hand;
            }
            if over {
                return CursorShape::Arrow;
            }
        }
        CursorShape::Default
    }

    /// Where the colour picker draws its loupe (overlay coordinates).
    pub fn loupe_origin(&self) -> (r: (i32, i32))
        requires
            self.wf(),
        ensures
            r.0 == loupe_origin_spec(
                self.cursor.x - self.screen.x,
                self.cursor.y - self.screen.y,
                self.screen.width as int,
                self.screen.height as int,
            ).0,
            r.1 == loupe_origin_spec(
                self.cursor.x - self.screen.x,
                self.cursor.y - self.screen.y,
                self.screen.width as int,
                self.screen.height as int,
            ).1,
    {
        let lx = self.cursor.x - self.screen.x;
        let ly = self.cursor.y - self.screen.y;
        let x = if lx + 230 > self.screen.width { lx - 230 } else { lx + 28 };
        let y = if ly + 250 > self.screen.height { ly - 250 } else { ly + 28 };
        (x, y)
    }

    /// What the text extractor shows: the selection while dragging, else
    /// "Recognizing..." while busy, else the error, else the hint.
    pub fn text_panel(&self) -> (r: TextPanel)
        requires
            self.wf(),
        ensures
            self.selecting ==> r == TextPanel::Selection(selection_spec(self)),
            !self.selecting && self.busy ==> r == TextPanel::Busy,
            !self.selecting && !self.busy ==> match self.error {
                Some(e) => r matches TextPanel::Error(t) && t@ == e@,
                None => r == TextPanel::Hint,
            },
    {
        if self.selecting {
            TextPanel::Selection(self.selection_rect())
        } else if self.busy {
            TextPanel::Busy
        } else {
            match &self.error {
                Some(e) => TextPanel::Error(e.clone()),
                None => TextPanel::Hint,
            }
        }
    }
}

} // verus!

verus! {

// ---------------------------------------------------------------- layout

/// Where the parts of a colour popup are drawn (overlay coordinates).
#[derive(Clone, Copy, PartialEq, Eq, Structural, Debug)]
pub struct PopupLayout {
    pub frame: Rect,
    pub swatch: Rect,
    pub hex_label: Rect,
    pub rgb_label: Rect,
    pub hex_button: Rect,
    pub rgb_button: Rect,
}

/// `(mx, my)` lies in `r` (right and bottom edges excluded).
pub open spec fn in_rect(r: Rect, mx: int, my: int) -> bool {
    r.left <= mx < r.right && r.top <= my < r.bottom
}

/// The layout of the popup of `p`.
pub open spec fn popup_layout_spec(p: PickedColor) -> PopupLayout {
    let x = p.px as int;
    let y = p.py as int;
    let btn_y = y + POPUP_PAD + SWATCH_SIZE + 10;
    let btn_w = POPUP_W - POPUP_PAD * 2;
    PopupLayout {
        frame: Rect { left: x as i32, top: y as i32, right: (x + POPUP_W) as i32, bottom: (y + POPUP_H) as i32 },
        swatch: Rect {
            left: (x + POPUP_PAD) as i32,
            top: (y + POPUP_PAD) as i32,
            right: (x + POPUP_PAD + SWATCH_SIZE) as i32,
            bottom: (y + POPUP_PAD + SWATCH_SIZE) as i32,
        },
        hex_label: Rect {
            left: (x + POPUP_PAD + SWATCH_SIZE + 10) as i32,
            top: (y + POPUP_PAD + 2) as i32,
            right: (x + POPUP_W - POPUP_PAD) as i32,
            bottom: (y + POPUP_PAD + SWATCH_SIZE / 2 - 2) as i32,
        },
        rgb_label: Rect {
            left: (x + POPUP_PAD + SWATCH_SIZE + 10) as i32,
            top: (y + POPUP_PAD + SWATCH_SIZE / 2 + 2) as i32,
            right: (x + POPUP_W - POPUP_PAD) as i32,
            bottom: (y + POPUP_PAD + SWATCH_SIZE) as i32,
        },
        hex_button: Rect {
            left: (x + POPUP_PAD) as i32,
            top: btn_y as i32,
            right: (x + POPUP_PAD + btn_w) as i32,
            bottom: (btn_y + BUTTON_H) as i32,
        },
        rgb_button: Rect {
            left: (x + POPUP_PAD) as i32,
            top: (btn_y + BUTTON_H + 6) as i32,
            right: (x + POPUP_PAD + btn_w) as i32,
            bottom: (btn_y + BUTTON_H + 6 + BUTTON_H) as i32,
        },
    }
}

/// Where the popup of `p` draws its frame, swatch, labels and buttons.
pub fn popup_layout(p: &PickedColor) -> (l: PopupLayout)
    requires
        coord_ok(p.px as int),
        coord_ok(p.py as int),
    ensures
        l == popup_layout_spec(*p),
{
    let x = p.px;
    let y = p.py;
    let btn_y = y + POPUP_PAD + SWATCH_SIZE + 10;
    let btn_w = POPUP_W - POPUP_PAD * 2;
    PopupLayout {
        frame: Rect { left: x, top: y, right: x + POPUP_W, bottom: y + POPUP_H },
        swatch: Rect {
            left: x + POPUP_PAD,
            top: y + POPUP_PAD,
            right: x + POPUP_PAD + SWATCH_SIZE,
            bottom: y + POPUP_PAD + SWATCH_SIZE,
        },
        hex_label: Rect {
            left: x + POPUP_PAD + SWATCH_SIZE + 10,
            top: y + POPUP_PAD + 2,
            right: x + POPUP_W - POPUP_PAD,
            bottom: y + POPUP_PAD + SWATCH_SIZE / 2 - 2,
        },
        rgb_label: Rect {
            left: x + POPUP_PAD + SWATCH_SIZE + 10,
            top: y + POPUP_PAD + SWATCH_SIZE / 2 + 2,
            right: x + POPUP_W - POPUP_PAD,
            bottom: y + POPUP_PAD + SWATCH_SIZE,
        },
        hex_button: Rect { left: x + POPUP_PAD, top: btn_y, right: x + POPUP_PAD + btn_w, bottom: btn_y + BUTTON_H },
        rgb_button: Rect {
            left: x + POPUP_PAD,
            top: btn_y + BUTTON_H + 6,
            right: x + POPUP_PAD + btn_w,
            bottom: btn_y + BUTTON_H + 6 + BUTTON_H,
        },
    }
}

/// The buttons are clicked exactly where they are drawn: a point is on the
/// "Copy HEX" (or "Copy RGB") button as the click handling and the pointer
/// shape decide it if and only if it lies in the rectangle drawn for it; and
/// everything drawn lies inside the popup's frame.
pub proof fn lemma_buttons_drawn_where_clicked(p: PickedColor, mx: int, my: int)
    requires
        coord_ok(p.px as int),
        coord_ok(p.py as int),
    ensures
        on_hex_button(p, mx, my) <==> in_rect(popup_layout_spec(p).hex_button, mx, my),
        on_rgb_button(p, mx, my) <==> in_rect(popup_layout_spec(p).rgb_button, mx, my),
        over_popup(p, mx, my) <==> in_rect(popup_layout_spec(p).frame, mx, my),
        in_rect(popup_layout_spec(p).hex_button, mx, my) ==> in_rect(popup_layout_spec(p).frame, mx, my),
        in_rect(popup_layout_spec(p).rgb_button, mx, my) ==> in_rect(popup_layout_spec(p).frame, mx, my),
        in_rect(popup_layout_spec(p).swatch, mx, my) ==> in_rect(popup_layout_spec(p).frame, mx, my),
{
}

/// `v / 2` rounded toward zero, as integer division does.
pub open spec fn half_toward_zero(v: int) -> int {
    if v >= 0 { v / 2 } else { -((-v) / 2) }
}

/// Where an error or progress message is drawn: `text_w` by `text_h` is the
/// size the text measured in at most `message_width(screen_w)`; the panel
/// pads it by 10 on each side, is centred horizontally and centred on three
/// quarters of the height. Returns the panel and the text rectangle.
pub open spec fn message_panel_spec(screen_w: int, screen_h: int, text_w: int, text_h: int) -> (Rect, Rect) {
    let pw = text_w + 20;
    let ph = text_h + 20;
    let px = half_toward_zero(screen_w - pw);
    let py = screen_h * 3 / 4 - half_toward_zero(ph);
    (
        Rect { left: px as i32, top: py as i32, right: (px + pw) as i32, bottom: (py + ph) as i32 },
        Rect { left: (px + 10) as i32, top: (py + 10) as i32, right: (px + pw - 10) as i32, bottom: (py + ph - 10) as i32 },
    )
}

/// The widest a message may be drawn on a screen `screen_w` wide.
pub fn message_width(screen_w: i32) -> (r: i32)
    requires
        -gdi_limit() <= screen_w <= gdi_limit(),
    ensures
        r == min_i(screen_w - 40, 500),
{
    if screen_w - 40 <= 500 { screen_w - 40 } else { 500 }
}

pub fn message_panel(screen_w: i32, screen_h: i32, text_w: i32, text_h: i32) -> (r: (Rect, Rect))
    requires
        0 <= screen_w <= gdi_limit(),
        0 <= screen_h <= gdi_limit(),
        -gdi_limit() <= text_w <= gdi_limit(),
        -gdi_limit() <= text_h <= gdi_limit(),
    ensures
        r == message_panel_spec(screen_w as int, screen_h as int, text_w as int, text_h as int),
{
    let pad: i32 = 10;
    let pw = text_w + pad * 2;
    let ph = text_h + pad * 2;
    let px = (screen_w - pw) / 2;
    let py = screen_h * 3 / 4 - ph / 2;
    (
        Rect { left: px, top: py, right: px + pw, bottom: py + ph },
        Rect { left: px + pad, top: py + pad, right: px + pw - pad, bottom: py + ph - pad },
    )
}

} // verus!

verus! {

/// The arrow keys never take the cursor off the screen, and away from the
/// edges they move it by exactly one pixel, or five with Shift.
pub proof fn lemma_arrows_stay_on_screen(o: &Overlay, vk: u16, shift: bool)
    requires
        o.wf(),
    ensures
        ({
            let c = moved_cursor(o, vk, shift);
            let d = arrow_delta(vk, if shift { 5 } else { 1 });
            &&& o.screen.x <= c.x < o.screen.x + o.screen.width
            &&& o.screen.y <= c.y < o.screen.y + o.screen.height
            &&& (o.screen.x + 5 <= o.cursor.x < o.screen.x + o.screen.width - 5 && o.screen.y + 5 <= o.cursor.y
                < o.screen.y + o.screen.height - 5) ==> c.x == o.cursor.x + d.0 && c.y == o.cursor.y + d.1
        }),
{
}

} // verus!
