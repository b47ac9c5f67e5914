use always_bind_window::monitor::is_real_window;
use always_bind_window::monitor::trim_trailing_nuls;
use always_bind_window::monitor::exe_file_name;
use always_bind_window::monitor::FrontmostStep;
use always_bind_window::group::{GroupManager, TrackedWindow, WindowGroup, WindowMatcher};
use always_bind_window::monitor::{
    front_order, get_zorder_sorted, is_valid_pos, MonitorAction, MoveGroup, MoveSync, MoveTick, SiblingInfo,
    EVENT_OBJECT_DESTROY, EVENT_SYSTEM_FOREGROUND, EVENT_SYSTEM_MINIMIZEEND, EVENT_SYSTEM_MINIMIZESTART,
};

fn win(hwnd: isize, process: &str) -> TrackedWindow {
    TrackedWindow { hwnd, process_name: process.to_string(), title: "t".to_string(), class_name: String::new() }
}

fn manager() -> GroupManager {
    let mut m = GroupManager::new();
    let mut g = WindowGroup::with_id("g".to_string(), "G");
    g.add_matcher(WindowMatcher::by_process("code.exe"));
    m.add_group(g);
    let mut h = WindowGroup::with_id("h".to_string(), "H");
    h.sync_minimize = false;
    h.sync_move = false;
    m.add_group(h);
    m.bind_window(1, "g");
    m.bind_window(2, "g");
    m.bind_window(5, "h");
    m.bind_window(6, "h");
    m
}

fn sorted(mut v: Vec<isize>) -> Vec<isize> {
    v.sort();
    v
}

#[test]
fn valid_positions() {
    assert!(is_valid_pos(0, 0));
    assert!(!is_valid_pos(-32000, -32000));
    assert!(!is_valid_pos(100, -10000));
    assert!(is_valid_pos(-9999, -9999));
}

#[test]
fn z_order_of_a_group() {
    let walk = vec![10, 3, 11, 1, 2, 12];
    assert_eq!(get_zorder_sorted(&walk, &vec![1, 2, 3]), vec![3, 1, 2]);
    assert_eq!(get_zorder_sorted(&walk, &vec![2, 9]), vec![2]);
    assert_eq!(get_zorder_sorted(&vec![1, 1, 2], &vec![1, 2]), vec![1, 1]);
    assert_eq!(front_order(vec![3, 1, 2], 2), vec![2, 3, 1]);
    assert_eq!(front_order(vec![3, 1], 7), vec![7, 3, 1]);
}

#[test]
fn foreground_brings_the_group_forward() {
    let mut m = manager();
    match m.on_window_event(false, EVENT_SYSTEM_FOREGROUND, 0, 1, 1000, 0, None) {
        MonitorAction::BringToFront(v) => assert_eq!(v, vec![2, 1]),
        other => panic!("{:?}", other),
    }
    assert!(matches!(m.on_window_event(false, EVENT_SYSTEM_FOREGROUND, 0, 1, 1100, 1000, None), MonitorAction::Nothing));
    assert!(matches!(m.on_window_event(false, EVENT_SYSTEM_FOREGROUND, 1, 1, 5000, 0, None), MonitorAction::Nothing));
    assert!(matches!(m.on_window_event(false, EVENT_SYSTEM_FOREGROUND, 0, 0, 5000, 0, None), MonitorAction::Nothing));
}

#[test]
fn foreground_auto_binds_a_lone_window() {
    let mut m = manager();
    match m.on_window_event(false, EVENT_SYSTEM_FOREGROUND, 0, 9, 1000, 0, Some(win(9, "Code.exe"))) {
        MonitorAction::BringToFront(v) => {
            assert_eq!(*v.last().unwrap(), 9);
            assert_eq!(sorted(v[..v.len() - 1].to_vec()), vec![1, 2]);
        },
        other => panic!("{:?}", other),
    }
    assert_eq!(m.find_group_for_hwnd(9), Some("g"));
    assert!(matches!(m.on_window_event(false, EVENT_SYSTEM_FOREGROUND, 0, 10, 1000, 0, Some(win(10, "vim"))), MonitorAction::Nothing));
    assert_eq!(m.find_group_for_hwnd(10), None);
}

#[test]
fn minimize_and_restore_follow_the_group() {
    let mut m = manager();
    match m.on_window_event(false, EVENT_SYSTEM_MINIMIZESTART, 0, 1, 1000, 0, None) {
        MonitorAction::Minimize(v) => assert_eq!(v, vec![2]),
        other => panic!("{:?}", other),
    }
    match m.on_window_event(false, EVENT_SYSTEM_MINIMIZEEND, 0, 2, 1000, 0, None) {
        MonitorAction::Restore(v) => assert_eq!(v, vec![1]),
        other => panic!("{:?}", other),
    }
    assert!(matches!(m.on_window_event(false, EVENT_SYSTEM_MINIMIZESTART, 0, 5, 1000, 0, None), MonitorAction::Nothing));
    assert!(matches!(m.on_window_event(false, EVENT_SYSTEM_MINIMIZESTART, 0, 7, 1000, 0, None), MonitorAction::Nothing));
    assert!(matches!(m.on_window_event(false, EVENT_SYSTEM_MINIMIZESTART, 0, 1, 1000, 900, None), MonitorAction::Nothing));
}

#[test]
fn destroyed_window_is_unbound() {
    let mut m = manager();
    assert!(matches!(m.on_window_event(false, EVENT_OBJECT_DESTROY, 0, 1, 0, 0, None), MonitorAction::Nothing));
    assert_eq!(m.find_group_for_hwnd(1), None);
    assert!(matches!(m.on_window_event(false, 0x1234, 0, 2, 1000, 0, None), MonitorAction::Nothing));
    let before = m.find_group_for_hwnd(2).map(|g| g.to_string());
    assert!(matches!(m.on_window_event(true, EVENT_OBJECT_DESTROY, 0, 2, 1000, 0, None), MonitorAction::Nothing));
    assert_eq!(m.find_group_for_hwnd(2).map(|g| g.to_string()), before);
    assert_eq!(m.find_group_for_hwnd(2), Some("g"));
}

#[test]
fn move_sync_group_of_a_window() {
    let m = manager();
    assert!(matches!(m.move_sync_group(1), MoveGroup::Siblings(ref v) if v == &vec![2]));
    assert!(matches!(m.move_sync_group(5), MoveGroup::NotSyncing));
    assert!(matches!(m.move_sync_group(42), MoveGroup::Unbound));
}

fn tick(fg: isize, fg_pos: Option<(i32, i32)>, cursor: (i32, i32), left_down: bool) -> MoveTick {
    MoveTick { cache_dirty: false, suppressed: false, fg, fg_iconic: false, fg_pos, cursor, left_down }
}

#[test]
fn siblings_follow_a_drag() {
    let mut s = MoveSync::new();
    let group = MoveGroup::Siblings(vec![2, 3]);
    let infos = vec![
        SiblingInfo { hwnd: 2, usable: true, pos: Some((300, 100)) },
        SiblingInfo { hwnd: 3, usable: true, pos: Some((-32000, -32000)) },
    ];
    // a new foreground window: offsets are taken
    let r = s.step(&tick(1, Some((100, 100)), (0, 0), false), &group, &infos);
    assert!(r.moves.is_empty() && !r.settle);
    assert_eq!(s.tracked_fg, 1);
    assert_eq!(s.offsets, vec![(2, 200, 0)]);
    // the button goes down: the drag starts
    let r = s.step(&tick(1, Some((100, 100)), (150, 110), true), &group, &infos);
    assert!(r.moves.is_empty());
    assert!(s.drag_active);
    assert_eq!(s.drag_sibling_start, vec![(2, 300, 100)]);
    // the cursor moves: the sibling follows
    let r = s.step(&tick(1, Some((100, 100)), (160, 105), true), &group, &infos);
    assert_eq!(r.moves, vec![(2, 310, 95)]);
    // no move, no moves
    let r = s.step(&tick(1, Some((110, 95)), (150, 110), true), &group, &infos);
    assert!(r.moves.is_empty());
    // the button goes up: the drag ends, offsets are taken again
    let moved = vec![
        SiblingInfo { hwnd: 2, usable: true, pos: Some((320, 90)) },
        SiblingInfo { hwnd: 3, usable: false, pos: None },
    ];
    let r = s.step(&tick(1, Some((120, 90)), (170, 100), false), &group, &moved);
    assert!(r.moves.is_empty() && !s.drag_active);
    assert_eq!(s.offsets, vec![(2, 200, 0)]);
    assert!(s.drag_sibling_start.is_empty());
}

#[test]
fn dirty_cache_and_unbound_windows_reset() {
    let mut s = MoveSync::new();
    let group = MoveGroup::Siblings(vec![2]);
    let infos = vec![SiblingInfo { hwnd: 2, usable: true, pos: Some((0, 0)) }];
    s.step(&tick(1, Some((10, 10)), (0, 0), false), &group, &infos);
    assert_eq!(s.tracked_fg, 1);
    let dirty = MoveTick { cache_dirty: true, ..tick(1, None, (0, 0), false) };
    let r = s.step(&dirty, &group, &infos);
    assert!(r.settle && s.tracked_fg == 0 && s.offsets.is_empty());
    s.step(&tick(1, Some((10, 10)), (0, 0), false), &group, &infos);
    let r = s.step(&tick(4, None, (0, 0), false), &MoveGroup::Unbound, &Vec::new());
    assert!(r.moves.is_empty() && s.tracked_fg == 0);
    let iconic = MoveTick { fg_iconic: true, ..tick(4, None, (0, 0), false) };
    s.step(&tick(1, Some((10, 10)), (0, 0), false), &group, &infos);
    s.step(&iconic, &group, &infos);
    assert_eq!(s.tracked_fg, 1);
}

#[test]
fn process_name_from_path() {
    assert_eq!(exe_file_name(r"C:\Program Files\Code\Code.exe"), "Code.exe");
    assert_eq!(exe_file_name("Code.exe"), "Code.exe");
    assert_eq!(exe_file_name(r"C:\dir\"), "");
    assert_eq!(exe_file_name(""), "");
}

#[test]
fn titles_lose_trailing_nuls() {
    assert_eq!(trim_trailing_nuls("Notes\0\0"), "Notes");
    assert_eq!(trim_trailing_nuls("a\0b\0"), "a\0b");
    assert_eq!(trim_trailing_nuls("\0\0"), "");
    assert_eq!(trim_trailing_nuls("plain"), "plain");
}

#[test]
fn real_windows() {
    assert!(is_real_window(true, 0, "Editor", None));
    assert!(is_real_window(true, 0x100, "Editor", Some(0)));
    assert!(!is_real_window(false, 0, "Editor", None));
    assert!(!is_real_window(true, 0x80, "Editor", None));
    assert!(!is_real_window(true, 0, "", None));
    assert!(!is_real_window(true, 0, "Editor", Some(2)));
}

#[test]
fn frontmost_application_brings_its_group_forward() {
    let m = manager();
    let windows = vec![win(1, "Code"), win(2, "Safari"), win(3, "Mail"), win(5, "Notes"), win(6, "Notes")];
    let step: FrontmostStep = m.on_frontmost_app(false, "Mail", "Code", &windows);
    assert_eq!(step.last_fg_app, "Code");
    assert_eq!(step.activate, Some(vec!["Safari".to_string()]));
    let step = m.on_frontmost_app(false, "Code", "Notes", &windows);
    assert_eq!(step.last_fg_app, "Notes");
    assert_eq!(step.activate, Some(Vec::<String>::new()));
    let step = m.on_frontmost_app(false, "Notes", "Mail", &windows);
    assert_eq!(step.last_fg_app, "Mail");
    assert_eq!(step.activate, None);
    let step = m.on_frontmost_app(false, "Mail", "Mail", &windows);
    assert_eq!(step.last_fg_app, "Mail");
    assert_eq!(step.activate, None);
    let step = m.on_frontmost_app(false, "Mail", "", &windows);
    assert_eq!(step.last_fg_app, "Mail");
    assert_eq!(step.activate, None);
    let step = m.on_frontmost_app(true, "Mail", "Code", &windows);
    assert_eq!(step.last_fg_app, "Mail");
    assert_eq!(step.activate, None);
}
