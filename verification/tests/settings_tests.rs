use always_bind_window::hotkey_dialog::vk_to_key_name;
use always_bind_window::settings::{
    auto_start_query_args, auto_start_reg_args, build_hotkey, format_hotkey, launch_agent_plist,
    parse_key, parse_modifiers, set_auto_start, AutoStartError, Hotkey, HotkeyConfig, HotkeyModifiers,
    KeyCode, Settings,
};

#[test]
fn default_settings() {
    let s = Settings::default();
    assert_eq!(s.lang, "auto");
    assert_eq!((s.hotkey_bind.modifiers.as_str(), s.hotkey_bind.key.as_str()), ("Ctrl+Alt", "G"));
    assert_eq!(s.hotkey_unbind_cursor.key, "D");
    assert_eq!(s.hotkey_unbind_all.key, "U");
    assert!(s.sync_move && s.sync_minimize && !s.auto_start);
}

#[test]
fn format_hotkey_joins_with_plus() {
    assert_eq!(format_hotkey(&HotkeyConfig::new("Ctrl+Alt", "G")), "Ctrl+Alt+G");
    assert_eq!(format_hotkey(&HotkeyConfig::new("", "F5")), "+F5");
}

#[test]
fn modifiers_are_found_anywhere_ignoring_case() {
    let m = parse_modifiers("ctrl+alt");
    assert_eq!(m, HotkeyModifiers { control: true, alt: true, shift: false, super_key: false });
    let w = parse_modifiers("Win+Shift");
    assert_eq!(w, HotkeyModifiers { control: false, alt: false, shift: true, super_key: true });
    let c = parse_modifiers("Control+Meta");
    assert!(c.control && c.super_key && !c.alt && !c.shift);
    assert_eq!(parse_modifiers(""), HotkeyModifiers { control: false, alt: false, shift: false, super_key: false });
}

#[test]
fn keys_are_read_ignoring_case() {
    assert_eq!(parse_key("g"), Some(KeyCode::KeyG));
    assert_eq!(parse_key("Z"), Some(KeyCode::KeyZ));
    assert_eq!(parse_key("7"), Some(KeyCode::Digit7));
    assert_eq!(parse_key(")"), Some(KeyCode::Digit0));
    assert_eq!(parse_key("@"), Some(KeyCode::Digit2));
    assert_eq!(parse_key("f12"), Some(KeyCode::F12));
    assert_eq!(parse_key("F1"), Some(KeyCode::F1));
    assert_eq!(parse_key("Space"), None);
    assert_eq!(parse_key("F13"), None);
    assert_eq!(parse_key(""), None);
}

#[test]
fn default_hotkeys_build() {
    let s = Settings::default();
    let ctrl_alt = HotkeyModifiers { control: true, alt: true, shift: false, super_key: false };
    assert_eq!(build_hotkey(&s.hotkey_bind), Some(Hotkey { modifiers: ctrl_alt, key: KeyCode::KeyG }));
    assert_eq!(build_hotkey(&s.hotkey_unbind_cursor), Some(Hotkey { modifiers: ctrl_alt, key: KeyCode::KeyD }));
    assert_eq!(build_hotkey(&s.hotkey_unbind_all), Some(Hotkey { modifiers: ctrl_alt, key: KeyCode::KeyU }));
    assert_eq!(build_hotkey(&HotkeyConfig::new("Ctrl", "Enter")), None);
}

#[test]
fn recorded_letter_digit_and_function_keys_parse() {
    let mut codes: Vec<u16> = (0x41..=0x5A).collect();
    codes.extend(0x30..=0x39);
    codes.extend(0x70..=0x7B);
    for vk in codes {
        let name = vk_to_key_name(vk).expect("named key");
        assert!(parse_key(name).is_some(), "{}", name);
    }
}

#[test]
fn recorded_other_keys_give_no_hotkey() {
    let codes: [u16; 6] = [0x20, 0x0D, 0x26, 0xBA, 0xDB, 0xDE];
    for vk in codes {
        let name = vk_to_key_name(vk).expect("named key");
        assert_eq!(parse_key(name), None, "{}", name);
        assert!(build_hotkey(&HotkeyConfig::new("Ctrl+Alt", name)).is_none());
    }
    assert_eq!(parse_key(vk_to_key_name(0x47).unwrap()), Some(KeyCode::KeyG));
    assert_eq!(parse_key(vk_to_key_name(0x7A).unwrap()), Some(KeyCode::F11));
}

#[test]
fn auto_start_on_an_unsupported_platform() {
    assert_eq!(set_auto_start(true), Err(AutoStartError::Unsupported));
    assert_eq!(set_auto_start(false), Err(AutoStartError::Unsupported));
    assert_eq!(
        set_auto_start(true).unwrap_err().message(),
        "Auto-start not supported on this platform"
    );
}

#[test]
fn auto_start_registry_arguments() {
    let add = auto_start_reg_args(true, "C:\\abw.exe");
    assert_eq!(
        add,
        vec!["add", r"HKCU\Software\Microsoft\Windows\CurrentVersion\Run", "/v", "AlwaysBindWindow", "/t", "REG_SZ", "/d", "C:\\abw.exe", "/f"]
    );
    let del = auto_start_reg_args(false, "ignored");
    assert_eq!(del, vec!["delete", r"HKCU\Software\Microsoft\Windows\CurrentVersion\Run", "/v", "AlwaysBindWindow", "/f"]);
    assert_eq!(auto_start_query_args(), vec!["query", r"HKCU\Software\Microsoft\Windows\CurrentVersion\Run", "/v", "AlwaysBindWindow"]);
}

#[test]
fn launch_agent_file() {
    let p = launch_agent_plist("/Applications/abw");
    assert!(p.starts_with("<?xml version=\"1.0\" encoding=\"UTF-8\"?>\n<!DOCTYPE plist"));
    assert!(p.contains("    <array>\n        <string>/Applications/abw</string>\n    </array>"));
    assert!(p.ends_with("<true/>\n</dict>\n</plist>"));
}
