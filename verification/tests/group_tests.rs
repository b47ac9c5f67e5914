use always_bind_window::group::{GroupManager, TrackedWindow, WindowGroup, WindowMatcher};

fn win(hwnd: isize, process: &str, title: &str, class: &str) -> TrackedWindow {
    TrackedWindow {
        hwnd,
        process_name: process.to_string(),
        title: title.to_string(),
        class_name: class.to_string(),
    }
}

fn is_uuid_v4(s: &str) -> bool {
    let b = s.as_bytes();
    if b.len() != 36 {
        return false;
    }
    for (i, &c) in b.iter().enumerate() {
        if i == 8 || i == 13 || i == 18 || i == 23 {
            if c != b'-' {
                return false;
            }
        } else if !(c.is_ascii_digit() || (b'a'..=b'f').contains(&c)) {
            return false;
        }
    }
    b[14] == b'4' && matches!(b[19], b'8' | b'9' | b'a' | b'b')
}

#[test]
fn matcher_constructors_set_one_field() {
    let m = WindowMatcher::by_process("Code.exe");
    assert_eq!(m.process_name.as_deref(), Some("Code.exe"));
    assert!(m.title_contains.is_none() && m.class_name.is_none());
    let t = WindowMatcher::by_title("Notes");
    assert_eq!(t.title_contains.as_deref(), Some("Notes"));
    assert!(t.process_name.is_none() && t.class_name.is_none());
}

#[test]
fn matching_ignores_case() {
    let mut g = WindowGroup::with_id("g1".to_string(), "work");
    g.add_matcher(WindowMatcher::by_process("code.exe"));
    assert!(g.matches_window(&win(1, "CODE.EXE", "main.rs", "Chrome_WidgetWin_1")));
    assert!(!g.matches_window(&win(2, "chrome.exe", "main.rs", "x")));
    let mut h = WindowGroup::with_id("g2".to_string(), "notes");
    h.add_matcher(WindowMatcher::by_title("draft"));
    assert!(h.matches_window(&win(3, "notepad.exe", "My DRAFT list", "Notepad")));
    assert!(!h.matches_window(&win(3, "notepad.exe", "My list", "Notepad")));
}

#[test]
fn class_matcher_and_all_fields() {
    let mut g = WindowGroup::with_id("g".to_string(), "n");
    g.add_matcher(WindowMatcher {
        process_name: Some("a.exe".to_string()),
        title_contains: Some("doc".to_string()),
        class_name: Some("Frame".to_string()),
    });
    assert!(g.matches_window(&win(1, "A.EXE", "Big Doc", "FRAME")));
    assert!(!g.matches_window(&win(1, "A.EXE", "Big Doc", "Frames")));
    assert!(!g.matches_window(&win(1, "b.exe", "Big Doc", "Frame")));
}

#[test]
fn disabled_group_matches_nothing() {
    let mut g = WindowGroup::with_id("g".to_string(), "n");
    g.add_matcher(WindowMatcher::by_process("a.exe"));
    g.enabled = false;
    assert!(!g.matches_window(&win(1, "a.exe", "t", "c")));
}

#[test]
fn group_without_matchers_matches_nothing() {
    let g = WindowGroup::with_id("g".to_string(), "n");
    assert!(!g.matches_window(&win(1, "a.exe", "t", "c")));
}

#[test]
fn new_group_has_uuid_and_defaults() {
    let g = WindowGroup::new("Code + Chrome");
    assert!(is_uuid_v4(&g.id), "{}", g.id);
    assert_eq!(g.name, "Code + Chrome");
    assert!(g.enabled && g.sync_minimize && g.sync_move);
    assert!(g.window_matchers.is_empty());
    let h = WindowGroup::new("x");
    assert_ne!(g.id, h.id);
}

#[test]
fn bind_then_find_gives_the_group() {
    let mut m = GroupManager::new();
    assert!(m.groups.is_empty() && m.active_bindings.is_empty() && !m.suppressed);
    assert_eq!(m.find_group_for_hwnd(5), None);
    m.bind_window(5, "g1");
    assert_eq!(m.find_group_for_hwnd(5), Some("g1"));
    m.bind_window(5, "g2");
    assert_eq!(m.find_group_for_hwnd(5), Some("g2"));
    m.bind_window(6, "g1");
    assert_eq!(m.find_group_for_hwnd(5), Some("g2"));
    m.unbind_window(5);
    assert_eq!(m.find_group_for_hwnd(5), None);
    assert_eq!(m.find_group_for_hwnd(6), Some("g1"));
}

#[test]
fn siblings_exclude_self_and_are_symmetric() {
    let mut m = GroupManager::new();
    m.bind_window(1, "a");
    m.bind_window(2, "a");
    m.bind_window(3, "a");
    m.bind_window(4, "b");
    let mut s = m.get_sibling_hwnds(1);
    s.sort();
    assert_eq!(s, vec![2, 3]);
    assert!(m.get_sibling_hwnds(2).contains(&1));
    assert!(m.get_sibling_hwnds(4).is_empty());
    assert!(m.get_sibling_hwnds(9).is_empty());
}

#[test]
fn remove_group_drops_group_and_bindings() {
    let mut m = GroupManager::new();
    m.add_group(WindowGroup::with_id("a".to_string(), "A"));
    m.add_group(WindowGroup::with_id("b".to_string(), "B"));
    m.add_group(WindowGroup::with_id("a".to_string(), "A2"));
    m.bind_window(1, "a");
    m.bind_window(2, "b");
    m.bind_window(3, "a");
    m.remove_group("a");
    assert_eq!(m.get_groups().len(), 1);
    assert_eq!(m.get_groups()[0].id, "b");
    assert_eq!(m.find_group_for_hwnd(1), None);
    assert_eq!(m.find_group_for_hwnd(3), None);
    assert_eq!(m.find_group_for_hwnd(2), Some("b"));
}

#[test]
fn auto_bind_takes_the_first_matching_group() {
    let mut m = GroupManager::new();
    let mut off = WindowGroup::with_id("off".to_string(), "off");
    off.add_matcher(WindowMatcher::by_process("code.exe"));
    off.enabled = false;
    let mut first = WindowGroup::with_id("first".to_string(), "first");
    first.add_matcher(WindowMatcher::by_process("code.exe"));
    let mut second = WindowGroup::with_id("second".to_string(), "second");
    second.add_matcher(WindowMatcher::by_process("Code.exe"));
    m.add_group(off);
    m.add_group(first);
    m.add_group(second);
    let w = win(42, "Code.exe", "x", "y");
    assert_eq!(m.try_auto_bind(&w), Some("first".to_string()));
    assert_eq!(m.find_group_for_hwnd(42), Some("first"));
    let other = win(43, "vim", "x", "y");
    assert_eq!(m.try_auto_bind(&other), None);
    assert_eq!(m.find_group_for_hwnd(43), None);
}

#[test]
fn create_group_from_picked_windows() {
    let mut m = GroupManager::new();
    m.bind_window(2, "old");
    let picks = vec![
        (1, "Code.exe".to_string(), "a".to_string()),
        (2, "chrome.exe".to_string(), "b".to_string()),
        (3, "Code.exe".to_string(), "c".to_string()),
    ];
    let gid = m.create_group_from_hwnds("Code.exe + chrome.exe", picks);
    assert!(is_uuid_v4(&gid));
    let g = &m.get_groups()[0];
    assert_eq!(g.id, gid);
    assert_eq!(g.name, "Code.exe + chrome.exe");
    let names: Vec<_> = g.window_matchers.iter().map(|x| x.process_name.clone().unwrap()).collect();
    assert_eq!(names, vec!["Code.exe".to_string(), "chrome.exe".to_string()]);
    for h in [1, 2, 3] {
        assert_eq!(m.find_group_for_hwnd(h), Some(gid.as_str()));
    }
    let mut s = m.get_sibling_hwnds(3);
    s.sort();
    assert_eq!(s, vec![1, 2]);
    // a new window of a picked process is auto-bound to the group
    assert_eq!(m.try_auto_bind(&win(9, "chrome.exe", "other", "z")), Some(gid.clone()));
}

#[test]
fn create_group_from_no_windows() {
    let mut m = GroupManager::new();
    let gid = m.create_group_from_hwnds("empty", Vec::new());
    assert_eq!(m.groups.len(), 1);
    assert_eq!(m.groups[0].id, gid);
    assert!(m.groups[0].window_matchers.is_empty());
    assert!(m.active_bindings.is_empty());
}

#[test]
fn unbind_all_and_unbind_group_of() {
    let mut m = GroupManager::new();
    m.add_group(WindowGroup::with_id("a".to_string(), "Alpha"));
    m.add_group(WindowGroup::with_id("b".to_string(), "Beta"));
    m.bind_window(1, "a");
    m.bind_window(2, "a");
    m.bind_window(3, "b");
    m.bind_window(4, "ghost");
    assert_eq!(m.unbind_group_of(1), Some("Alpha".to_string()));
    assert_eq!(m.find_group_for_hwnd(2), None);
    assert_eq!(m.groups.len(), 1);
    assert_eq!(m.unbind_group_of(7), None);
    assert_eq!(m.unbind_group_of(4), Some(String::new()));
    assert_eq!(m.unbind_all(), 1);
    assert!(m.groups.is_empty() && m.active_bindings.is_empty());
}

#[test]
fn duplicate_keeps_everything() {
    let w = win(7, "p", "t", "c");
    let d = w.duplicate();
    assert_eq!((d.hwnd, d.process_name, d.title, d.class_name), (7, "p".to_string(), "t".to_string(), "c".to_string()));
}
