use always_bind_window::group::{GroupManager, TrackedWindow};
use always_bind_window::i18n::{get_lang, Lang, LangSetting};
use always_bind_window::overlay::PickerResult;
use always_bind_window::settings::Settings;
use always_bind_window::tray::{
    action_for_hotkey, action_for_menu, apply_lasso_result, lasso_group_name, menu_label, toggle_auto_start,
    toggle_language, TrayAction,
};

fn win(hwnd: isize, process: &str) -> TrackedWindow {
    TrackedWindow { hwnd, process_name: process.to_string(), title: "t".to_string(), class_name: String::new() }
}

#[test]
fn hotkey_actions() {
    assert_eq!(action_for_hotkey(7, Some(7), Some(8), Some(9)), TrayAction::LassoBind);
    assert_eq!(action_for_hotkey(8, Some(7), Some(8), Some(9)), TrayAction::UnbindAtCursor);
    assert_eq!(action_for_hotkey(9, None, Some(8), Some(9)), TrayAction::UnbindAll);
    assert_eq!(action_for_hotkey(1, Some(7), None, None), TrayAction::Nothing);
    assert_eq!(action_for_hotkey(7, Some(7), Some(7), None), TrayAction::LassoBind);
}

#[test]
fn menu_actions() {
    assert_eq!(action_for_menu("lasso"), TrayAction::LassoBind);
    assert_eq!(action_for_menu("unbind_cursor"), TrayAction::UnbindAtCursor);
    assert_eq!(action_for_menu("unbind_all"), TrayAction::UnbindAll);
    assert_eq!(action_for_menu("toggle_lang"), TrayAction::ToggleLang);
    assert_eq!(action_for_menu("toggle_autostart"), TrayAction::ToggleAutoStart);
    assert_eq!(action_for_menu("quit"), TrayAction::Quit);
    assert_eq!(action_for_menu("title"), TrayAction::Nothing);
}

#[test]
fn lasso_name_lists_each_process_once() {
    let ws = vec![win(1, "Code.exe"), win(2, "chrome.exe"), win(3, "Code.exe")];
    assert_eq!(lasso_group_name(&ws), "Code.exe + chrome.exe");
    assert_eq!(lasso_group_name(&vec![win(1, "a")]), "a");
    assert_eq!(lasso_group_name(&Vec::new()), "");
}

#[test]
fn lasso_result_makes_a_group() {
    let mut m = GroupManager::new();
    let cancelled = PickerResult { selected_windows: vec![win(1, "a")], cancelled: true };
    assert_eq!(apply_lasso_result(&mut m, &cancelled), None);
    let empty = PickerResult { selected_windows: Vec::new(), cancelled: false };
    assert_eq!(apply_lasso_result(&mut m, &empty), None);
    assert!(m.groups.is_empty());
    let picked = PickerResult { selected_windows: vec![win(1, "a.exe"), win(2, "b.exe"), win(3, "a.exe")], cancelled: false };
    assert_eq!(apply_lasso_result(&mut m, &picked), Some(("a.exe + b.exe".to_string(), 3)));
    assert_eq!(m.groups.len(), 1);
    assert_eq!(m.groups[0].name, "a.exe + b.exe");
    assert_eq!(m.groups[0].window_matchers.len(), 2);
    let gid = m.groups[0].id.clone();
    for h in [1, 2, 3] {
        assert_eq!(m.find_group_for_hwnd(h), Some(gid.as_str()));
    }
}

#[test]
fn toggles() {
    let mut s = Settings::default();
    let mut l = LangSetting::new();
    assert_eq!(toggle_language(&mut s, &mut l), Lang::Zh);
    assert_eq!(s.lang, "zh");
    assert_eq!(get_lang(&l), Lang::Zh);
    assert_eq!(toggle_language(&mut s, &mut l), Lang::En);
    assert_eq!(s.lang, "en");
    assert!(toggle_auto_start(&mut s));
    assert!(s.auto_start);
    assert!(!toggle_auto_start(&mut s));
}

#[test]
fn menu_labels() {
    assert_eq!(menu_label("Bind Windows", "Ctrl+Alt+G"), "Bind Windows  (Ctrl+Alt+G)");
}
