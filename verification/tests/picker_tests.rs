use always_bind_window::group::TrackedWindow;
use always_bind_window::picker::get_pickable_windows;

fn win(hwnd: isize, process: &str, title: &str) -> TrackedWindow {
    TrackedWindow { hwnd, process_name: process.to_string(), title: title.to_string(), class_name: String::new() }
}

#[test]
fn own_shell_and_untitled_windows_are_left_out() {
    let ws = vec![
        win(1, "Always-Bind-Window.exe", "me"),
        win(2, "EXPLORER.EXE", "Desktop"),
        win(3, "code.exe", ""),
        win(4, "code.exe", "main.rs"),
    ];
    let r = get_pickable_windows(ws);
    assert_eq!(r.iter().map(|w| w.hwnd).collect::<Vec<_>>(), vec![4]);
}

#[test]
fn sorted_by_process_then_title_ignoring_case() {
    let ws = vec![
        win(1, "zed", "b"),
        win(2, "Chrome.exe", "Zeta"),
        win(3, "chrome.exe", "alpha"),
        win(4, "Code.exe", "x"),
        win(5, "zed", "A"),
    ];
    let r = get_pickable_windows(ws);
    assert_eq!(r.iter().map(|w| w.hwnd).collect::<Vec<_>>(), vec![3, 2, 4, 5, 1]);
}

#[test]
fn windows_that_sort_alike_keep_their_order() {
    let ws = vec![win(7, "A", "t"), win(3, "b", "t"), win(5, "a", "T"), win(1, "a", "t")];
    let r = get_pickable_windows(ws);
    assert_eq!(r.iter().map(|w| w.hwnd).collect::<Vec<_>>(), vec![7, 5, 1, 3]);
}

#[test]
fn nothing_to_pick() {
    assert!(get_pickable_windows(Vec::new()).is_empty());
}
