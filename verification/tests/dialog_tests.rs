use always_bind_window::hotkey_dialog::{DialogCommand, IDC_BTN_CANCEL, IDC_BTN_RESET, IDC_BTN_SAVE};
use always_bind_window::hotkey_dialog::{
    button_at, format_config, modifiers_text, on_record_key, point_in_rect, to_wide, vk_to_key_name,
    HotkeyDialogResult, HotkeyField, KeyPress,
};
use always_bind_window::overlay::Rect;
use always_bind_window::settings::HotkeyConfig;

#[test]
fn virtual_key_names() {
    assert_eq!(vk_to_key_name(0x41), Some("A"));
    assert_eq!(vk_to_key_name(0x39), Some("9"));
    assert_eq!(vk_to_key_name(0x7B), Some("F12"));
    assert_eq!(vk_to_key_name(0x20), Some("Space"));
    assert_eq!(vk_to_key_name(0x21), Some("PageUp"));
    assert_eq!(vk_to_key_name(0xDC), Some("\\"));
    assert_eq!(vk_to_key_name(0xDE), Some("'"));
    assert_eq!(vk_to_key_name(0x10), None);
    assert_eq!(vk_to_key_name(0x7C), None);
}

#[test]
fn modifier_text() {
    assert_eq!(modifiers_text(true, true, false, false), "Ctrl+Alt");
    assert_eq!(modifiers_text(true, true, true, true), "Ctrl+Alt+Shift+Win");
    assert_eq!(modifiers_text(false, false, true, false), "Shift");
    assert_eq!(modifiers_text(false, false, false, false), "");
}

#[test]
fn config_display() {
    assert_eq!(format_config(&HotkeyConfig::new("Ctrl+Alt", "G")), "Ctrl+Alt+G");
    assert_eq!(format_config(&HotkeyConfig::new("", "F5")), "F5");
}

#[test]
fn recording_keys() {
    match on_record_key(0x11, "Ctrl") {
        KeyPress::ShowPending(t) => assert_eq!(t, "Ctrl+..."),
        other => panic!("{:?}", other),
    }
    assert!(matches!(on_record_key(0xA0, ""), KeyPress::Ignore));
    assert!(matches!(on_record_key(0x1B, "Ctrl"), KeyPress::Cancel));
    match on_record_key(0x47, "Ctrl+Shift") {
        KeyPress::Record(cfg) => {
            assert_eq!(cfg.modifiers, "Ctrl+Shift");
            assert_eq!(cfg.key, "G");
        },
        other => panic!("{:?}", other),
    }
    assert!(matches!(on_record_key(0xFF, "Ctrl"), KeyPress::KeepRecording));
}

#[test]
fn utf16_with_terminator() {
    assert_eq!(to_wide("Ab"), vec![0x41, 0x62, 0]);
    assert_eq!(to_wide("键"), vec![0x952E, 0]);
    assert_eq!(to_wide("\u{1F517}"), vec![0xD83D, 0xDD17, 0]);
    assert_eq!(to_wide(""), vec![0]);
    let s = "Segoe UI ⌨ \u{1F5D1}";
    let mut expected: Vec<u16> = s.encode_utf16().collect();
    expected.push(0);
    assert_eq!(to_wide(s), expected);
}

#[test]
fn points_and_buttons() {
    let r = Rect { left: 10, top: 10, right: 20, bottom: 20 };
    assert!(point_in_rect(10, 10, &r));
    assert!(!point_in_rect(20, 15, &r));
    let buttons = [
        (2003, Rect { left: 0, top: 0, right: 10, bottom: 10 }),
        (2002, Rect { left: 20, top: 0, right: 30, bottom: 10 }),
        (2001, Rect { left: 25, top: 0, right: 40, bottom: 10 }),
    ];
    assert_eq!(button_at(&buttons, 5, 5), 2003);
    assert_eq!(button_at(&buttons, 26, 5), 2002);
    assert_eq!(button_at(&buttons, 35, 5), 2001);
    assert_eq!(button_at(&buttons, 15, 5), 0);
}

#[test]
fn dialog_fields() {
    let a = HotkeyConfig::new("Alt", "A");
    let b = HotkeyConfig::new("Alt", "B");
    let c = HotkeyConfig::new("Alt", "C");
    let mut d = HotkeyDialogResult::from_configs(&a, &b, &c);
    d.set_field(HotkeyField::UnbindCursor, HotkeyConfig::new("Shift", "X"));
    assert_eq!(d.field(HotkeyField::UnbindCursor).key, "X");
    assert_eq!(d.field(HotkeyField::Bind).key, "A");
    assert_eq!(d.field(HotkeyField::UnbindAll).key, "C");
    d.reset_to_defaults();
    assert_eq!(format_config(&d.bind), "Ctrl+Alt+G");
    assert_eq!(format_config(&d.unbind_cursor), "Ctrl+Alt+D");
    assert_eq!(format_config(&d.unbind_all), "Ctrl+Alt+U");
}

#[test]
fn dialog_buttons() {
    let a = HotkeyConfig::new("Alt", "A");
    let mut d = HotkeyDialogResult::from_configs(&a, &a, &a);
    let mut saved = false;
    assert_eq!(d.on_button(0, &mut saved), DialogCommand::Nothing);
    assert_eq!(d.on_button(IDC_BTN_CANCEL, &mut saved), DialogCommand::Close);
    assert!(!saved);
    assert_eq!(d.on_button(IDC_BTN_RESET, &mut saved), DialogCommand::Repaint);
    assert_eq!(format_config(&d.unbind_all), "Ctrl+Alt+U");
    assert_eq!(d.on_button(IDC_BTN_SAVE, &mut saved), DialogCommand::Close);
    assert!(saved);
}
