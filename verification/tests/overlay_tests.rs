use always_bind_window::group::TrackedWindow;
use always_bind_window::overlay::{
    rects_intersect, run_picker_overlay, OverlayAction, OverlayEvent, OverlayState, Rect,
};

fn rect(left: i32, top: i32, right: i32, bottom: i32) -> Rect {
    Rect { left, top, right, bottom }
}

fn win(hwnd: isize, process: &str) -> TrackedWindow {
    TrackedWindow {
        hwnd,
        process_name: process.to_string(),
        title: format!("title {}", hwnd),
        class_name: String::new(),
    }
}

fn state_with(windows: Vec<(TrackedWindow, Rect)>, start: (i32, i32), current: (i32, i32)) -> OverlayState {
    let mut s = OverlayState::new(windows, 0, 0);
    s.start_x = start.0;
    s.start_y = start.1;
    s.current_x = current.0;
    s.current_y = current.1;
    s
}

#[test]
fn intersection_is_strict_and_symmetric() {
    let a = rect(0, 0, 10, 10);
    assert!(rects_intersect(&a, &rect(5, 5, 15, 15)));
    assert!(rects_intersect(&rect(5, 5, 15, 15), &a));
    assert!(!rects_intersect(&a, &rect(10, 0, 20, 10)));
    assert!(!rects_intersect(&rect(10, 0, 20, 10), &a));
}

#[test]
fn drag_rect_is_normalised() {
    let s = state_with(Vec::new(), (100, 50), (20, 80));
    assert_eq!(s.drag_rect_screen(), rect(20, 50, 100, 80));
    let t = state_with(Vec::new(), (20, 80), (100, 50));
    assert_eq!(t.drag_rect_screen(), rect(20, 50, 100, 80));
}

#[test]
fn drag_rect_client_subtracts_origin() {
    let mut s = state_with(Vec::new(), (100, 50), (20, 80));
    s.screen_x = -1920;
    s.screen_y = 10;
    assert_eq!(s.drag_rect_client(), rect(1940, 40, 2020, 70));
}

#[test]
fn small_drag_selects_nothing() {
    let s = state_with(vec![(win(1, "a"), rect(0, 0, 100, 100))], (0, 0), (19, 50));
    assert!(s.find_intersecting_windows().is_empty());
    let t = state_with(vec![(win(1, "a"), rect(0, 0, 100, 100))], (0, 0), (50, 19));
    assert!(t.find_intersecting_windows().is_empty());
}

#[test]
fn covered_window_is_not_selected() {
    // window 1 is on top and covers window 2 entirely within the drag
    let windows = vec![
        (win(1, "top"), rect(0, 0, 200, 200)),
        (win(2, "below"), rect(50, 50, 150, 150)),
        (win(3, "far"), rect(500, 500, 600, 600)),
    ];
    let s = state_with(windows, (40, 40), (160, 160));
    assert_eq!(s.find_intersecting_windows(), vec![1]);
}

#[test]
fn partly_visible_windows_are_selected_in_z_order() {
    let windows = vec![
        (win(1, "top"), rect(0, 0, 100, 100)),
        (win(2, "right"), rect(50, 0, 300, 100)),
        (win(3, "below"), rect(0, 100, 300, 300)),
    ];
    let s = state_with(windows, (10, 10), (250, 250));
    assert_eq!(s.find_intersecting_windows(), vec![1, 2, 3]);
}

#[test]
fn same_handle_does_not_cover_itself() {
    let windows = vec![
        (win(1, "a"), rect(0, 0, 100, 100)),
        (win(1, "a"), rect(0, 0, 100, 100)),
    ];
    let s = state_with(windows, (0, 0), (50, 50));
    assert_eq!(s.find_intersecting_windows(), vec![1, 1]);
}

#[test]
fn lasso_drag_with_two_windows_finishes() {
    let windows = vec![(win(1, "a"), rect(0, 0, 100, 100)), (win(2, "b"), rect(100, 0, 200, 100))];
    let mut s = OverlayState::new(windows, 0, 0);
    assert_eq!(s.handle_event(OverlayEvent::MouseMove { x: 5, y: 5 }), OverlayAction::Nothing);
    assert_eq!(s.handle_event(OverlayEvent::LeftButtonDown { x: 10, y: 10 }), OverlayAction::CaptureMouse);
    assert!(s.dragging);
    assert_eq!(s.handle_event(OverlayEvent::MouseMove { x: 150, y: 60 }), OverlayAction::Repaint);
    assert_eq!(s.selected_hwnds, vec![1, 2]);
    assert_eq!(s.handle_event(OverlayEvent::LeftButtonUp { x: 150, y: 60 }), OverlayAction::ReleaseAndHide);
    assert!(s.done && !s.cancelled && !s.dragging);
    let r = s.picker_result();
    assert!(!r.cancelled);
    let handles: Vec<isize> = r.selected_windows.iter().map(|w| w.hwnd).collect();
    assert_eq!(handles, vec![1, 2]);
}

#[test]
fn lasso_release_with_one_window_keeps_going() {
    let windows = vec![(win(1, "a"), rect(0, 0, 100, 100)), (win(2, "b"), rect(300, 0, 400, 100))];
    let mut s = OverlayState::new(windows, 100, 0);
    s.handle_event(OverlayEvent::LeftButtonDown { x: -90, y: 10 });
    assert_eq!((s.start_x, s.start_y), (10, 10));
    assert_eq!(s.handle_event(OverlayEvent::LeftButtonUp { x: -50, y: 60 }), OverlayAction::ReleaseAndRepaint);
    assert!(s.selected_hwnds.is_empty() && !s.done);
    let r = s.picker_result();
    assert!(r.cancelled && r.selected_windows.is_empty());
}

#[test]
fn right_click_or_escape_cancels() {
    let mut s = OverlayState::new(Vec::new(), 0, 0);
    assert_eq!(s.handle_event(OverlayEvent::KeyDown { vk: 0x41 }), OverlayAction::Nothing);
    assert!(!s.done);
    assert_eq!(s.handle_event(OverlayEvent::KeyDown { vk: 0x1B }), OverlayAction::Hide);
    assert!(s.done && s.cancelled);
    let mut t = OverlayState::new(Vec::new(), 0, 0);
    assert_eq!(t.handle_event(OverlayEvent::RightButtonDown), OverlayAction::Hide);
    assert!(t.done && t.cancelled);
    assert!(t.picker_result().cancelled);
}

#[test]
fn picker_overlay_without_platform_support_is_cancelled() {
    let r = run_picker_overlay();
    assert!(r.cancelled);
    assert!(r.selected_windows.is_empty());
}
