use quiettools::tray::{encode_utf16, tray_action, write_wide_fixed, TrayAction};

#[test]
fn hot_keys_open_the_tools() {
    assert_eq!(tray_action(0x0312, 100, 0, false), TrayAction::OpenColorPicker);
    assert_eq!(tray_action(0x0312, 101, 0, false), TrayAction::OpenTextExtractor);
    assert_eq!(tray_action(0x0312, 7, 0, false), TrayAction::Nothing);
}

#[test]
fn tray_and_menu_messages() {
    assert_eq!(tray_action(0x0401, 0, 0x0205, false), TrayAction::ShowMenu);
    assert_eq!(tray_action(0x0401, 0, 0x0201, false), TrayAction::Default);
    assert_eq!(tray_action(0x0111, 200, 0, false), TrayAction::SetAutostart(true));
    assert_eq!(tray_action(0x0111, 0x1_0000 + 200, 0, true), TrayAction::SetAutostart(false));
    assert_eq!(tray_action(0x0111, 201, 0, true), TrayAction::Exit);
    assert_eq!(tray_action(0x0111, 5, 0, true), TrayAction::Nothing);
    assert_eq!(tray_action(0x0002, 0, 0, true), TrayAction::Quit);
    assert_eq!(tray_action(0x0001, 0, 0, true), TrayAction::Nothing);
    assert_eq!(tray_action(0x000F, 0, 0, true), TrayAction::Default);
}

#[test]
fn utf16_encoding() {
    assert_eq!(encode_utf16("QuietTools"), "QuietTools".encode_utf16().collect::<Vec<u16>>());
    assert_eq!(encode_utf16("a\u{1F600}\u{00E9}"), vec![0x61, 0xD83D, 0xDE00, 0xE9]);
}

#[test]
fn write_wide_fixed_keeps_the_last_unit() {
    let mut dst = [0u16; 6];
    write_wide_fixed(&mut dst, "QuietTools");
    assert_eq!(dst, [b'Q' as u16, b'u' as u16, b'i' as u16, b'e' as u16, b't' as u16, 0]);
    let mut short = [7u16; 4];
    write_wide_fixed(&mut short, "ab");
    assert_eq!(short, [b'a' as u16, b'b' as u16, 7, 7]);
}
