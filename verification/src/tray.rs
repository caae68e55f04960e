//! Decisions of the tray application window: hot keys, tray clicks, menu
//! commands, and the tool-tip text.
use vstd::prelude::*;
use crate::chars::chars_of;

verus! {

/// The UTF-16 code units of one character.
pub open spec fn utf16_of_char(c: char) -> Seq<u16> {
    let u = c as u32;
    if u < 0x10000 {
        seq![u as u16]
    } else {
        let v = u - 0x10000;
        seq![(0xD800 + v / 0x400) as u16, (0xDC00 + v % 0x400) as u16]
    }
}

/// The UTF-16 encoding of a text (`str::encode_utf16`).
pub open spec fn utf16_of(s: Seq<char>) -> Seq<u16>
    decreases s.len(),
{
    if s.len() == 0 {
        Seq::empty()
    } else {
        utf16_of(s.drop_last()) + utf16_of_char(s.last())
    }
}

/// Encodes `text` as UTF-16.
pub fn encode_utf16(text: &str) -> (r: Vec<u16>)
    ensures
        r@ == utf16_of(text@),
{
    let v = chars_of(text);
    let mut r: Vec<u16> = Vec::new();
    for i in 0..v.len()
        invariant
            v@ == text@,
            r@ == utf16_of(v@.take(i as int)),
    {
        let u = v[i] as u32;
        assert(v@.take(i + 1).drop_last() == v@.take(i as int));
        if u < 0x10000 {
            r.push(u as u16);
        } else {
            let w = u - 0x10000;
            r.push((0xD800 + w / 0x400) as u16);
            r.push((0xDC00 + w % 0x400) as u16);
        }
        assert(r@ =~= utf16_of(v@.take(i + 1)));
    }
    assert(v@.take(v.len() as int) == v@);
    r
}

/// Copies the UTF-16 form of `text` into `dst`, as much of it as fits while
/// leaving the last unit alone (it keeps the terminating zero).
pub fn write_wide_fixed<const N: usize>(dst: &mut [u16; N], text: &str)
    requires
        N > 0,
    ensures
        forall|i: int| 0 <= i < N ==> #[trigger] final(dst)@[i] == if i < utf16_of(text@).len() && i < N - 1 {
            utf16_of(text@)[i]
        } else {
            old(dst)@[i]
        },
{
    let units = encode_utf16(text);
    let limit = N - 1;
    let mut i: usize = 0;
    while i < units.len() && i < limit
        invariant
            units@ == utf16_of(text@),
            limit == N - 1,
            i <= limit,
            i <= units@.len(),
            forall|k: int| 0 <= k < N ==> #[trigger] dst@[k] == if k < i {
                units@[k]
            } else {
                old(dst)@[k]
            },
        decreases limit - i,
    {
        dst[i] = units[i];
        i += 1;
    }
    assert forall|k: int| 0 <= k < N implies #[trigger] dst@[k] == if k < utf16_of(text@).len() && k < N - 1 {
        utf16_of(text@)[k]
    } else {
        old(dst)@[k]
    } by {}
}

} // verus!

verus! {

/// Window message: the window is being created.
pub const WM_CREATE: u32 = 0x0001;
/// Window message: the window is being destroyed.
pub const WM_DESTROY: u32 = 0x0002;
/// Window message: a menu command.
pub const WM_COMMAND: u32 = 0x0111;
/// Window message: a registered hot key was pressed.
pub const WM_HOTKEY: u32 = 0x0312;
/// Window message: right mouse button released.
pub const WM_RBUTTONUP: u32 = 0x0205;
/// The message the tray icon sends to its window.
pub const WM_TRAY: u32 = 0x0401;
/// Hot key id of the colour picker (Ctrl+Shift+C).
pub const HOTKEY_COLOR: i32 = 100;
/// Hot key id of the text extractor (Ctrl+Alt+C).
pub const HOTKEY_TEXT: i32 = 101;
/// Menu command: toggle starting with the session.
pub const MENU_AUTOSTART: usize = 200;
/// Menu command: quit.
pub const MENU_EXIT: usize = 201;

/// What the tray window does with a message.
#[derive(Clone, Copy, PartialEq, Eq, Structural, Debug)]
pub enum TrayAction {
    /// Handled; nothing to do.
    Nothing,
    /// Open the colour picker overlay.
    OpenColorPicker,
    /// Open the text extractor overlay.
    OpenTextExtractor,
    /// Show the tray menu.
    ShowMenu,
    /// Try to switch starting with the session to this value; keep the new
    /// value only if that succeeds.
    SetAutostart(bool),
    /// Destroy the window (which quits).
    Exit,
    /// Remove the tray icon and quit the message loop.
    Quit,
    /// Not handled here: pass to the default window procedure.
    Default,
}

/// The action for a message, given whether starting with the session is on.
pub open spec fn tray_action_spec(msg: u32, wparam: usize, lparam: isize, autostart: bool) -> TrayAction {
    if msg == WM_CREATE {
        TrayAction::Nothing
    } else if msg == WM_HOTKEY {
        if wparam as i32 == HOTKEY_COLOR {
            TrayAction::OpenColorPicker
        } else if wparam as i32 == HOTKEY_TEXT {
            TrayAction::OpenTextExtractor
        } else {
            TrayAction::Nothing
        }
    } else if msg == WM_TRAY && lparam as u32 == WM_RBUTTONUP {
        TrayAction::ShowMenu
    } else if msg == WM_COMMAND {
        if wparam % 0x10000 == MENU_AUTOSTART {
            TrayAction::SetAutostart(!autostart)
        } else if wparam % 0x10000 == MENU_EXIT {
            TrayAction::Exit
        } else {
            TrayAction::Nothing
        }
    } else if msg == WM_DESTROY {
        TrayAction::Quit
    } else {
        TrayAction::Default
    }
}

/// Decides what the tray window does with a message.
pub fn tray_action(msg: u32, wparam: usize, lparam: isize, autostart: bool) -> (r: TrayAction)
    ensures
        r == tray_action_spec(msg, wparam, lparam, autostart),
{
    if msg == WM_CREATE {
        TrayAction::Nothing
    } else if msg == WM_HOTKEY {
        let id = wparam as i32;
        if id == HOTKEY_COLOR {
            TrayAction::OpenColorPicker
        } else if id == HOTKEY_TEXT {
            TrayAction::OpenTextExtractor
        } else {
            TrayAction::Nothing
        }
    } else if msg == WM_TRAY && lparam as u32 == WM_RBUTTONUP {
        TrayAction::ShowMenu
    } else if msg == WM_COMMAND {
        let cmd = wparam % 0x10000;
        if cmd == MENU_AUTOSTART {
            TrayAction::SetAutostart(!autostart)
        } else if cmd == MENU_EXIT {
            TrayAction::Exit
        } else {
            TrayAction::Nothing
        }
    } else if msg == WM_DESTROY {
        TrayAction::Quit
    } else {
        TrayAction::Default
    }
}

} // verus!
