//! Lasso selection: the dragged rectangle, and which windows it selects,
//! where a window counts only where it is not covered by a window above it.

use vstd::prelude::*;
use crate::group::TrackedWindow;

verus! {

/// A rectangle in screen (or client) coordinates; `right` and `bottom` are exclusive.
#[derive(Clone, Copy, Debug, PartialEq, Eq, Structural)]
pub struct Rect {
    pub left: i32,
    pub top: i32,
    pub right: i32,
    pub bottom: i32,
}

/// What the lasso overlay hands back.
pub struct PickerResult {
    pub selected_windows: Vec<TrackedWindow>,
    pub cancelled: bool,
}

/// The state of the lasso overlay: the windows it can select with their
/// rectangles (in Z order, top first), the drag, and the selection so far.
pub struct OverlayState {
    pub all_windows: Vec<(TrackedWindow, Rect)>,
    pub dragging: bool,
    pub start_x: i32,
    pub start_y: i32,
    pub current_x: i32,
    pub current_y: i32,
    pub done: bool,
    pub cancelled: bool,
    pub selected_hwnds: Vec<isize>,
    pub screen_x: i32,
    pub screen_y: i32,
}

pub open spec fn min_int(a: int, b: int) -> int {
    if a <= b { a } else { b }
}

pub open spec fn max_int(a: int, b: int) -> int {
    if a >= b { a } else { b }
}

/// The two rectangles share some point.
pub open spec fn spec_rects_intersect(a: Rect, b: Rect) -> bool {
    a.left < b.right && a.right > b.left && a.top < b.bottom && a.bottom > b.top
}

/// The point lies in the rectangle.
pub open spec fn point_in(r: Rect, x: int, y: int) -> bool {
    r.left <= x < r.right && r.top <= y < r.bottom
}

/// The rectangle spanned by the drag start and the current point.
pub open spec fn spec_drag_rect(start_x: int, start_y: int, current_x: int, current_y: int) -> (int, int, int, int) {
    (
        min_int(start_x, current_x),
        min_int(start_y, current_y),
        max_int(start_x, current_x),
        max_int(start_y, current_y),
    )
}

/// The windows whose rectangle meets the drag rectangle, with their
/// rectangles, in the order (Z order) of `all`.
pub open spec fn candidates(all: Seq<(TrackedWindow, Rect)>, drag: Rect) -> Seq<(isize, Rect)>
    decreases all.len(),
{
    if all.len() == 0 {
        Seq::empty()
    } else {
        let c = candidates(all.drop_last(), drag);
        if spec_rects_intersect(drag, all.last().1) {
            c.push((all.last().0.hwnd, all.last().1))
        } else {
            c
        }
    }
}

/// Distance between sample points along a side of length `hi - lo`:
/// a quarter of it, at least 1.
pub open spec fn sample_step(lo: int, hi: int) -> int {
    if (hi - lo) / 4 >= 1 { (hi - lo) / 4 } else { 1 }
}

/// `v` is one of the sample positions in `[lo, hi)`: `lo`, `lo + step`, ...
pub open spec fn is_sample(lo: int, hi: int, v: int) -> bool {
    lo <= v < hi && (v - lo) % sample_step(lo, hi) == 0
}

/// The point is covered by a candidate above candidate `i` (earlier in Z
/// order) that is a different window.
pub open spec fn covered_at(cands: Seq<(isize, Rect)>, i: int, x: int, y: int) -> bool {
    exists|j: int| 0 <= j < i && cands[j].0 != cands[i].0 && #[trigger] point_in(cands[j].1, x, y)
}

/// Candidate `i` shows at some sample point of its overlap with the drag rectangle.
pub open spec fn has_visible_sample(cands: Seq<(isize, Rect)>, drag: Rect, i: int) -> bool {
    let l = max_int(drag.left as int, cands[i].1.left as int);
    let t = max_int(drag.top as int, cands[i].1.top as int);
    let r = min_int(drag.right as int, cands[i].1.right as int);
    let b = min_int(drag.bottom as int, cands[i].1.bottom as int);
    &&& l < r
    &&& t < b
    &&& exists|x: int, y: int|
        #[trigger] is_sample(l, r, x) && #[trigger] is_sample(t, b, y) && !covered_at(cands, i, x, y)
}

/// The handles of the first `n` candidates that show, in order.
pub open spec fn visible_prefix(cands: Seq<(isize, Rect)>, drag: Rect, n: int) -> Seq<isize>
    decreases n,
{
    if n <= 0 {
        Seq::empty()
    } else {
        let p = visible_prefix(cands, drag, n - 1);
        if has_visible_sample(cands, drag, n - 1) {
            p.push(cands[n - 1].0)
        } else {
            p
        }
    }
}

/// The drag rectangle is large enough to select anything: at least 20 by 20.
pub open spec fn drag_is_large(drag: Rect) -> bool {
    drag.right - drag.left >= 20 && drag.bottom - drag.top >= 20
}

/// The windows that a drag rectangle selects.
pub open spec fn spec_selected(all: Seq<(TrackedWindow, Rect)>, drag: Rect) -> Seq<isize> {
    if drag_is_large(drag) {
        visible_prefix(candidates(all, drag), drag, candidates(all, drag).len() as int)
    } else {
        Seq::empty()
    }
}

pub fn rects_intersect(a: &Rect, b: &Rect) -> (r: bool)
    ensures
        r == spec_rects_intersect(*a, *b),
{
    a.left < b.right && a.right > b.left && a.top < b.bottom && a.bottom > b.top
}

fn min_i32(a: i32, b: i32) -> (r: i32)
    ensures
        r == min_int(a as int, b as int),
{
    if a <= b { a } else { b }
}

fn max_i32(a: i32, b: i32) -> (r: i32)
    ensures
        r == max_int(a as int, b as int),
{
    if a >= b { a } else { b }
}

/// Two multiples of `s` above `lo` that are less than `s` apart are equal.
proof fn lemma_same_sample(lo: int, a: int, b: int, s: int)
    requires
        0 < s,
        lo <= a <= b < a + s,
        (a - lo) % s == 0,
        (b - lo) % s == 0,
    ensures
        a == b,
{
    vstd::arithmetic::div_mod::lemma_fundamental_div_mod(a - lo, s);
    vstd::arithmetic::div_mod::lemma_fundamental_div_mod(b - lo, s);
    let qa = (a - lo) / s;
    let qb = (b - lo) / s;
    assert(a - lo == s * qa);
    assert(b - lo == s * qb);
    assert(qa <= qb) by (nonlinear_arith)
        requires
            s * qa <= s * qb,
            0 < s,
    ;
    assert(qb < qa + 1) by (nonlinear_arith)
        requires
            s * qb < s * qa + s,
            0 < s,
    ;
}

/// Whether a point is covered by a candidate above candidate `i` that is a different window.
fn covered_by_upper(cands: &Vec<(isize, Rect)>, i: usize, x: i64, y: i64) -> (r: bool)
    requires
        i < cands@.len(),
    ensures
        r == covered_at(cands@, i as int, x as int, y as int),
{
    let hwnd = cands[i].0;
    let mut j: usize = 0;
    while j < i
        invariant
            i < cands@.len(),
            hwnd == cands@[i as int].0,
            j <= i,
            forall|k: int|
                0 <= k < j && cands@[k].0 != hwnd ==> !#[trigger] point_in(cands@[k].1, x as int, y as int),
        decreases i - j,
    {
        let (upper_hwnd, upper) = cands[j];
        if upper_hwnd != hwnd && x >= upper.left as i64 && x < upper.right as i64 && y >= upper.top as i64
            && y < upper.bottom as i64 {
            assert(point_in(cands@[j as int].1, x as int, y as int));
            return true;
        }
        j += 1;
    }
    false
}

/// Whether some sample point of row `y` of `[l, r)` is not covered.
fn row_has_visible_sample(cands: &Vec<(isize, Rect)>, i: usize, l: i64, r: i64, y: i64) -> (res: bool)
    requires
        i < cands@.len(),
        i32::MIN <= l < r <= i32::MAX,
    ensures
        res == exists|x: int| #[trigger] is_sample(l as int, r as int, x) && !covered_at(cands@, i as int, x, y as int),
{
    let step: i64 = if (r - l) / 4 >= 1 { (r - l) / 4 } else { 1 };
    assert(step == sample_step(l as int, r as int));
    let mut sx: i64 = l;
    assert((sx - l) % (step as int) == 0) by {
        vstd::arithmetic::div_mod::lemma_small_mod(0, step as nat);
    }
    while sx < r
        invariant
            i < cands@.len(),
            i32::MIN <= l < r <= i32::MAX,
            step == sample_step(l as int, r as int),
            1 <= step <= r - l,
            l <= sx <= r + step,
            (sx - l) % (step as int) == 0,
            forall|x: int| #[trigger] is_sample(l as int, r as int, x) && x < sx ==> covered_at(cands@, i as int, x, y as int),
        decreases r - sx + step,
    {
        if !covered_by_upper(cands, i, sx, y) {
            assert(is_sample(l as int, r as int, sx as int));
            return true;
        }
        proof {
            vstd::arithmetic::div_mod::lemma_mod_add_multiples_vanish(sx - l, step as int);
            assert forall|x: int| #[trigger] is_sample(l as int, r as int, x) && x < sx + step implies covered_at(
                cands@,
                i as int,
                x,
                y as int,
            ) by {
                if x >= sx {
                    lemma_same_sample(l as int, sx as int, x, step as int);
                }
            }
        }
        sx = sx + step;
    }
    false
}

/// Whether candidate `i` shows at some sample point of the overlap `[l, r) x [t, b)`.
fn area_has_visible_sample(cands: &Vec<(isize, Rect)>, i: usize, l: i64, t: i64, r: i64, b: i64) -> (res: bool)
    requires
        i < cands@.len(),
        i32::MIN <= l < r <= i32::MAX,
        i32::MIN <= t < b <= i32::MAX,
    ensures
        res == exists|x: int, y: int|
            #[trigger] is_sample(l as int, r as int, x) && #[trigger] is_sample(t as int, b as int, y)
                && !covered_at(cands@, i as int, x, y),
{
    let step: i64 = if (b - t) / 4 >= 1 { (b - t) / 4 } else { 1 };
    assert(step == sample_step(t as int, b as int));
    let mut sy: i64 = t;
    assert((sy - t) % (step as int) == 0) by {
        vstd::arithmetic::div_mod::lemma_small_mod(0, step as nat);
    }
    while sy < b
        invariant
            i < cands@.len(),
            i32::MIN <= l < r <= i32::MAX,
            i32::MIN <= t < b <= i32::MAX,
            step == sample_step(t as int, b as int),
            1 <= step <= b - t,
            t <= sy <= b + step,
            (sy - t) % (step as int) == 0,
            forall|x: int, y: int|
                #[trigger] is_sample(l as int, r as int, x) && #[trigger] is_sample(t as int, b as int, y) && y < sy
                    ==> covered_at(cands@, i as int, x, y),
        decreases b - sy + step,
    {
        if row_has_visible_sample(cands, i, l, r, sy) {
            assert(is_sample(t as int, b as int, sy as int));
            return true;
        }
        proof {
            vstd::arithmetic::div_mod::lemma_mod_add_multiples_vanish(sy - t, step as int);
            assert forall|x: int, y: int|
                #[trigger] is_sample(l as int, r as int, x) && #[trigger] is_sample(t as int, b as int, y) && y < sy
                    + step implies covered_at(cands@, i as int, x, y) by {
                if y >= sy {
                    lemma_same_sample(t as int, sy as int, y, step as int);
                }
            }
        }
        sy = sy + step;
    }
    false
}

/// Whether candidate `i` shows at some sample point of its overlap with the drag rectangle.
fn candidate_is_visible(cands: &Vec<(isize, Rect)>, drag: &Rect, i: usize) -> (res: bool)
    requires
        i < cands@.len(),
    ensures
        res == has_visible_sample(cands@, *drag, i as int),
{
    let wr = cands[i].1;
    let l = max_i32(drag.left, wr.left) as i64;
    let t = max_i32(drag.top, wr.top) as i64;
    let r = min_i32(drag.right, wr.right) as i64;
    let b = min_i32(drag.bottom, wr.bottom) as i64;
    if l >= r || t >= b {
        return false;
    }
    area_has_visible_sample(cands, i, l, t, r, b)
}

impl OverlayState {
    pub open spec fn spec_drag_rect_screen(&self) -> Rect {
        Rect {
            left: min_int(self.start_x as int, self.current_x as int) as i32,
            top: min_int(self.start_y as int, self.current_y as int) as i32,
            right: max_int(self.start_x as int, self.current_x as int) as i32,
            bottom: max_int(self.start_y as int, self.current_y as int) as i32,
        }
    }

    /// The rectangle spanned by the drag, in screen coordinates.
    pub fn drag_rect_screen(&self) -> (r: Rect)
        ensures
            r == self.spec_drag_rect_screen(),
    {
        Rect {
            left: min_i32(self.start_x, self.current_x),
            top: min_i32(self.start_y, self.current_y),
            right: max_i32(self.start_x, self.current_x),
            bottom: max_i32(self.start_y, self.current_y),
        }
    }

    /// The rectangle spanned by the drag, relative to the overlay's origin.
    pub fn drag_rect_client(&self) -> (r: Rect)
        requires
            i32::MIN <= self.spec_drag_rect_screen().left - self.screen_x <= i32::MAX,
            i32::MIN <= self.spec_drag_rect_screen().top - self.screen_y <= i32::MAX,
            i32::MIN <= self.spec_drag_rect_screen().right - self.screen_x <= i32::MAX,
            i32::MIN <= self.spec_drag_rect_screen().bottom - self.screen_y <= i32::MAX,
        ensures
            r.left == self.spec_drag_rect_screen().left - self.screen_x,
            r.top == self.spec_drag_rect_screen().top - self.screen_y,
            r.right == self.spec_drag_rect_screen().right - self.screen_x,
            r.bottom == self.spec_drag_rect_screen().bottom - self.screen_y,
    {
        let r = self.drag_rect_screen();
        Rect {
            left: r.left - self.screen_x,
            top: r.top - self.screen_y,
            right: r.right - self.screen_x,
            bottom: r.bottom - self.screen_y,
        }
    }

    /// The windows that the drag selects: those that meet the drag
    /// rectangle and show, at one of a grid of sample points of the overlap,
    /// above every other selected-area window higher in Z order; none when
    /// the drag is under 20 pixels wide or high.
    pub fn find_intersecting_windows(&self) -> (r: Vec<isize>)
        ensures
            r@ == spec_selected(self.all_windows@, self.spec_drag_rect_screen()),
    {
        let drag = self.drag_rect_screen();
        if (drag.right as i64 - drag.left as i64) < 20 || (drag.bottom as i64 - drag.top as i64) < 20 {
            return Vec::new();
        }
        let ghost all = self.all_windows@;
        let mut cands: Vec<(isize, Rect)> = Vec::new();
        let n = self.all_windows.len();
        let mut i: usize = 0;
        while i < n
            invariant
                n == all.len(),
                all == self.all_windows@,
                i <= n,
                cands@ == candidates(all.take(i as int), drag),
            decreases n - i,
        {
            let wr = self.all_windows[i].1;
            proof {
                assert(all.take(i + 1).drop_last() =~= all.take(i as int));
            }
            if rects_intersect(&drag, &wr) {
                cands.push((self.all_windows[i].0.hwnd, wr));
            }
            i += 1;
        }
        assert(all.take(n as int) =~= all);

        let mut selected: Vec<isize> = Vec::new();
        let m = cands.len();
        let mut k: usize = 0;
        while k < m
            invariant
                m == cands@.len(),
                k <= m,
                selected@ == visible_prefix(cands@, drag, k as int),
            decreases m - k,
        {
            if candidate_is_visible(&cands, &drag, k) {
                selected.push(cands[k].0);
            }
            k += 1;
        }
        selected
    }
}

/// An input to the lasso overlay; coordinates are relative to the overlay's origin.
#[derive(Clone, Copy, Debug, PartialEq, Eq, Structural)]
pub enum OverlayEvent {
    LeftButtonDown { x: i32, y: i32 },
    MouseMove { x: i32, y: i32 },
    LeftButtonUp { x: i32, y: i32 },
    RightButtonDown,
    KeyDown { vk: u32 },
}

/// What the overlay window does after an event.
#[derive(Clone, Copy, Debug, PartialEq, Eq, Structural)]
pub enum OverlayAction {
    Nothing,
    /// Capture the mouse (a drag began).
    CaptureMouse,
    /// Repaint the overlay.
    Repaint,
    /// Release the mouse and hide the overlay: the selection is final.
    ReleaseAndHide,
    /// Release the mouse and repaint: too few windows were selected.
    ReleaseAndRepaint,
    /// Hide the overlay: the selection was cancelled.
    Hide,
}

/// The virtual-key code of Escape.
pub const VK_ESCAPE_CODE: u32 = 0x1B;

impl OverlayState {
    /// The overlay state before any input.
    pub fn new(all_windows: Vec<(TrackedWindow, Rect)>, screen_x: i32, screen_y: i32) -> (r: Self)
        ensures
            r.all_windows@ == all_windows@,
            !r.dragging,
            r.start_x == 0 && r.start_y == 0 && r.current_x == 0 && r.current_y == 0,
            !r.done,
            !r.cancelled,
            r.selected_hwnds@ == Seq::<isize>::empty(),
            r.screen_x == screen_x,
            r.screen_y == screen_y,
    {
        OverlayState {
            all_windows,
            dragging: false,
            start_x: 0,
            start_y: 0,
            current_x: 0,
            current_y: 0,
            done: false,
            cancelled: false,
            selected_hwnds: Vec::new(),
            screen_x,
            screen_y,
        }
    }

    /// A client point of the event lies, in screen coordinates, within `i32`.
    pub open spec fn fits_screen(&self, x: i32, y: i32) -> bool {
        i32::MIN <= x + self.screen_x <= i32::MAX && i32::MIN <= y + self.screen_y <= i32::MAX
    }

    /// The state and the overlay's response after one event: a left press
    /// starts a drag and clears the selection; a move during a drag updates
    /// the selection; a left release during a drag ends it, and closes the
    /// overlay when at least two windows are selected, else clears the
    /// selection; a right press or Escape cancels.
    pub fn handle_event(&mut self, event: OverlayEvent) -> (action: OverlayAction)
        requires
            match event {
                OverlayEvent::LeftButtonDown { x, y } => old(self).fits_screen(x, y),
                OverlayEvent::MouseMove { x, y } => old(self).dragging ==> old(self).fits_screen(x, y),
                OverlayEvent::LeftButtonUp { x, y } => old(self).dragging ==> old(self).fits_screen(x, y),
                _ => true,
            },
        ensures
            final(self).all_windows == old(self).all_windows,
            final(self).screen_x == old(self).screen_x,
            final(self).screen_y == old(self).screen_y,
            match event {
                OverlayEvent::LeftButtonDown { x, y } => {
                    &&& final(self).start_x == x + old(self).screen_x
                    &&& final(self).start_y == y + old(self).screen_y
                    &&& final(self).current_x == final(self).start_x
                    &&& final(self).current_y == final(self).start_y
                    &&& final(self).dragging
                    &&& final(self).selected_hwnds@ == Seq::<isize>::empty()
                    &&& final(self).done == old(self).done
                    &&& final(self).cancelled == old(self).cancelled
                    &&& action == OverlayAction::CaptureMouse
                },
                OverlayEvent::MouseMove { x, y } => if old(self).dragging {
                    &&& final(self).start_x == old(self).start_x
                    &&& final(self).start_y == old(self).start_y
                    &&& final(self).current_x == x + old(self).screen_x
                    &&& final(self).current_y == y + old(self).screen_y
                    &&& final(self).dragging
                    &&& final(self).selected_hwnds@ == spec_selected(
                        old(self).all_windows@,
                        final(self).spec_drag_rect_screen(),
                    )
                    &&& final(self).done == old(self).done
                    &&& final(self).cancelled == old(self).cancelled
                    &&& action == OverlayAction::Repaint
                } else {
                    &&& *final(self) == *old(self)
                    &&& action == OverlayAction::Nothing
                },
                OverlayEvent::LeftButtonUp { x, y } => if old(self).dragging {
                    let sel = spec_selected(old(self).all_windows@, final(self).spec_drag_rect_screen());
                    &&& final(self).start_x == old(self).start_x
                    &&& final(self).start_y == old(self).start_y
                    &&& final(self).current_x == x + old(self).screen_x
                    &&& final(self).current_y == y + old(self).screen_y
                    &&& !final(self).dragging
                    &&& final(self).cancelled == old(self).cancelled
                    &&& if sel.len() >= 2 {
                        &&& final(self).selected_hwnds@ == sel
                        &&& final(self).done
                        &&& action == OverlayAction::ReleaseAndHide
                    } else {
                        &&& final(self).selected_hwnds@ == Seq::<isize>::empty()
                        &&& final(self).done == old(self).done
                        &&& action == OverlayAction::ReleaseAndRepaint
                    }
                } else {
                    &&& *final(self) == *old(self)
                    &&& action == OverlayAction::Nothing
                },
                OverlayEvent::RightButtonDown => {
                    &&& final(self).cancelled
                    &&& final(self).done
                    &&& final(self).dragging == old(self).dragging
                    &&& final(self).selected_hwnds == old(self).selected_hwnds
                    &&& final(self).start_x == old(self).start_x
                    &&& final(self).start_y == old(self).start_y
                    &&& final(self).current_x == old(self).current_x
                    &&& final(self).current_y == old(self).current_y
                    &&& final(self).screen_x == old(self).screen_x
                    &&& final(self).screen_y == old(self).screen_y
                    &&& final(self).all_windows == old(self).all_windows
                    &&& action == OverlayAction::Hide
                },
                OverlayEvent::KeyDown { vk } => if vk == VK_ESCAPE_CODE {
                    &&& final(self).cancelled
                    &&& final(self).done
                    &&& final(self).dragging == old(self).dragging
                    &&& final(self).selected_hwnds == old(self).selected_hwnds
                    &&& final(self).start_x == old(self).start_x
                    &&& final(self).start_y == old(self).start_y
                    &&& final(self).current_x == old(self).current_x
                    &&& final(self).current_y == old(self).current_y
                    &&& final(self).screen_x == old(self).screen_x
                    &&& final(self).screen_y == old(self).screen_y
                    &&& final(self).all_windows == old(self).all_windows
                    &&& action == OverlayAction::Hide
                } else {
                    &&& *final(self) == *old(self)
                    &&& action == OverlayAction::Nothing
                },
            },
    {
        match event {
            OverlayEvent::LeftButtonDown { x, y } => {
                self.start_x = x + self.screen_x;
                self.start_y = y + self.screen_y;
                self.current_x = self.start_x;
                self.current_y = self.start_y;
                self.dragging = true;
                self.selected_hwnds.clear();
                OverlayAction::CaptureMouse
            },
            OverlayEvent::MouseMove { x, y } => {
                if self.dragging {
                    self.current_x = x + self.screen_x;
                    self.current_y = y + self.screen_y;
                    self.selected_hwnds = self.find_intersecting_windows();
                    OverlayAction::Repaint
                } else {
                    OverlayAction::Nothing
                }
            },
            OverlayEvent::LeftButtonUp { x, y } => {
                if self.dragging {
                    self.dragging = false;
                    self.current_x = x + self.screen_x;
                    self.current_y = y + self.screen_y;
                    self.selected_hwnds = self.find_intersecting_windows();
                    if self.selected_hwnds.len() >= 2 {
                        self.done = true;
                        OverlayAction::ReleaseAndHide
                    } else {
                        self.selected_hwnds.clear();
                        OverlayAction::ReleaseAndRepaint
                    }
                } else {
                    OverlayAction::Nothing
                }
            },
            OverlayEvent::RightButtonDown => {
                self.cancelled = true;
                self.done = true;
                OverlayAction::Hide
            },
            OverlayEvent::KeyDown { vk } => {
                if vk == VK_ESCAPE_CODE {
                    self.cancelled = true;
                    self.done = true;
                    OverlayAction::Hide
                } else {
                    OverlayAction::Nothing
                }
            },
        }
    }

    /// What the overlay hands back once it is done: nothing, as cancelled,
    /// when it was cancelled or fewer than two windows are selected; else
    /// the selectable windows whose handle is selected, in their order.
    pub fn picker_result(&self) -> (r: PickerResult)
        ensures
            if self.cancelled || self.selected_hwnds@.len() < 2 {
                &&& r.cancelled
                &&& r.selected_windows@ == Seq::<TrackedWindow>::empty()
            } else {
                &&& !r.cancelled
                &&& r.selected_windows@ == windows_with_handles(self.all_windows@, self.selected_hwnds@)
            },
    {
        if self.cancelled || self.selected_hwnds.len() < 2 {
            return PickerResult { selected_windows: Vec::new(), cancelled: true };
        }
        let ghost all = self.all_windows@;
        let mut selected: Vec<TrackedWindow> = Vec::new();
        let n = self.all_windows.len();
        let mut i: usize = 0;
        while i < n
            invariant
                n == all.len(),
                all == self.all_windows@,
                i <= n,
                selected@ == windows_with_handles(all.take(i as int), self.selected_hwnds@),
            decreases n - i,
        {
            proof {
                assert(all.take(i + 1).drop_last() =~= all.take(i as int));
            }
            if vec_contains_isize(&self.selected_hwnds, self.all_windows[i].0.hwnd) {
                selected.push(self.all_windows[i].0.duplicate());
            }
            i += 1;
        }
        assert(all.take(n as int) =~= all);
        PickerResult { selected_windows: selected, cancelled: false }
    }
}

/// The windows of `all` whose handle is in `handles`, in the order of `all`.
pub open spec fn windows_with_handles(all: Seq<(TrackedWindow, Rect)>, handles: Seq<isize>) -> Seq<TrackedWindow>
    decreases all.len(),
{
    if all.len() == 0 {
        Seq::empty()
    } else {
        let p = windows_with_handles(all.drop_last(), handles);
        if handles.contains(all.last().0.hwnd) {
            p.push(all.last().0)
        } else {
            p
        }
    }
}

/// Whether the handle is in the list.
pub fn vec_contains_isize(v: &Vec<isize>, x: isize) -> (r: bool)
    ensures
        r == v@.contains(x),
{
    let n = v.len();
    let mut i: usize = 0;
    while i < n
        invariant
            n == v@.len(),
            i <= n,
            forall|k: int| 0 <= k < i ==> v@[k] != x,
        decreases n - i,
    {
        if v[i] == x {
            assert(v@[i as int] == x);
            return true;
        }
        i += 1;
    }
    false
}

/// The lasso overlay on a platform without one: nothing is picked.
pub fn run_picker_overlay() -> (r: PickerResult)
    ensures
        r.cancelled,
        r.selected_windows@ == Seq::<TrackedWindow>::empty(),
{
    PickerResult { selected_windows: Vec::new(), cancelled: true }
}

/// Every candidate meets the drag rectangle and is a window of `all`.
proof fn lemma_candidates_meet_drag(all: Seq<(TrackedWindow, Rect)>, drag: Rect, k: int)
    requires
        0 <= k < candidates(all, drag).len(),
    ensures
        spec_rects_intersect(drag, candidates(all, drag)[k].1),
        exists|i: int|
            0 <= i < all.len() && (#[trigger] all[i]).0.hwnd == candidates(all, drag)[k].0 && all[i].1
                == candidates(all, drag)[k].1,
    decreases all.len(),
{
    let c = candidates(all.drop_last(), drag);
    if k < c.len() {
        lemma_candidates_meet_drag(all.drop_last(), drag, k);
        let i = choose|i: int|
            0 <= i < all.drop_last().len() && (#[trigger] all.drop_last()[i]).0.hwnd == c[k].0
                && all.drop_last()[i].1 == c[k].1;
        assert(all[i] == all.drop_last()[i]);
    } else {
        assert(all[all.len() - 1] == all.last());
    }
}

/// Each handle of `visible_prefix(cands, drag, n)` is that of one of the first `n` candidates.
proof fn lemma_visible_prefix_from_candidates(cands: Seq<(isize, Rect)>, drag: Rect, n: int, k: int)
    requires
        0 <= n <= cands.len(),
        0 <= k < visible_prefix(cands, drag, n).len(),
    ensures
        exists|j: int| 0 <= j < n && #[trigger] cands[j].0 == visible_prefix(cands, drag, n)[k],
    decreases n,
{
    let p = visible_prefix(cands, drag, n - 1);
    if k < p.len() {
        lemma_visible_prefix_from_candidates(cands, drag, n - 1, k);
        let j = choose|j: int| 0 <= j < n - 1 && #[trigger] cands[j].0 == p[k];
        assert(cands[j].0 == visible_prefix(cands, drag, n)[k]);
    } else {
        assert(cands[n - 1].0 == visible_prefix(cands, drag, n)[k]);
    }
}

/// A longer prefix of candidates extends the handles of a shorter one.
proof fn lemma_visible_prefix_extends(cands: Seq<(isize, Rect)>, drag: Rect, m: int, n: int)
    requires
        0 <= m <= n,
    ensures
        visible_prefix(cands, drag, m).len() <= visible_prefix(cands, drag, n).len(),
        forall|k: int|
            0 <= k < visible_prefix(cands, drag, m).len() ==> visible_prefix(cands, drag, n)[k]
                == #[trigger] visible_prefix(cands, drag, m)[k],
    decreases n - m,
{
    if m < n {
        lemma_visible_prefix_extends(cands, drag, m, n - 1);
    }
}

/// Whether two rectangles meet does not depend on their order.
pub proof fn law_intersection_is_symmetric(a: Rect, b: Rect)
    ensures
        spec_rects_intersect(a, b) == spec_rects_intersect(b, a),
{
}

/// The drag rectangle is well formed whichever way the drag went, and it
/// is the same for a drag from `p` to `q` as for one from `q` to `p`.
pub proof fn law_drag_rect_is_normalised(sx: int, sy: int, cx: int, cy: int)
    ensures
        spec_drag_rect(sx, sy, cx, cy).0 <= spec_drag_rect(sx, sy, cx, cy).2,
        spec_drag_rect(sx, sy, cx, cy).1 <= spec_drag_rect(sx, sy, cx, cy).3,
        spec_drag_rect(sx, sy, cx, cy) == spec_drag_rect(cx, cy, sx, sy),
{
}

/// Every selected window meets the drag rectangle and is one of the selectable windows.
pub proof fn law_selected_windows_meet_drag(all: Seq<(TrackedWindow, Rect)>, drag: Rect, k: int)
    requires
        0 <= k < spec_selected(all, drag).len(),
    ensures
        exists|i: int|
            0 <= i < all.len() && (#[trigger] all[i]).0.hwnd == spec_selected(all, drag)[k]
                && spec_rects_intersect(drag, all[i].1),
{
    let c = candidates(all, drag);
    lemma_visible_prefix_from_candidates(c, drag, c.len() as int, k);
    let j = choose|j: int| 0 <= j < c.len() && #[trigger] c[j].0 == visible_prefix(c, drag, c.len() as int)[k];
    lemma_candidates_meet_drag(all, drag, j);
    let i = choose|i: int| 0 <= i < all.len() && (#[trigger] all[i]).0.hwnd == c[j].0 && all[i].1 == c[j].1;
    assert(all[i].0.hwnd == spec_selected(all, drag)[k]);
}

/// The topmost window that meets a large enough drag rectangle is always
/// selected, and comes first: nothing lies above it. (Of windows with an
/// empty rectangle nothing shows.)
pub proof fn law_topmost_window_is_selected(all: Seq<(TrackedWindow, Rect)>, drag: Rect)
    requires
        drag_is_large(drag),
        forall|i: int| 0 <= i < all.len() ==> (#[trigger] all[i]).1.left < all[i].1.right && all[i].1.top < all[i].1.bottom,
        candidates(all, drag).len() > 0,
    ensures
        spec_selected(all, drag).len() > 0,
        spec_selected(all, drag)[0] == candidates(all, drag)[0].0,
{
    let c = candidates(all, drag);
    lemma_candidates_meet_drag(all, drag, 0);
    let l = max_int(drag.left as int, c[0].1.left as int);
    let t = max_int(drag.top as int, c[0].1.top as int);
    let r = min_int(drag.right as int, c[0].1.right as int);
    let b = min_int(drag.bottom as int, c[0].1.bottom as int);
    vstd::arithmetic::div_mod::lemma_small_mod(0, sample_step(l, r) as nat);
    vstd::arithmetic::div_mod::lemma_small_mod(0, sample_step(t, b) as nat);
    assert(is_sample(l, r, l));
    assert(is_sample(t, b, t));
    assert(!covered_at(c, 0, l, t));
    assert(has_visible_sample(c, drag, 0));
    assert(visible_prefix(c, drag, 0) =~= Seq::<isize>::empty());
    assert(visible_prefix(c, drag, 1) =~= seq![c[0].0]);
    lemma_visible_prefix_extends(c, drag, 1, c.len() as int);
    assert(visible_prefix(c, drag, 1)[0] == c[0].0);
    assert(visible_prefix(c, drag, c.len() as int)[0] == visible_prefix(c, drag, 1)[0]);
}

} // verus!
verus! {

/// The candidates of the first `n` windows are a prefix of the candidates of all of them.
proof fn lemma_candidates_prefix(all: Seq<(TrackedWindow, Rect)>, drag: Rect, n: int)
    requires
        0 <= n <= all.len(),
    ensures
        candidates(all.take(n), drag).len() <= candidates(all, drag).len(),
        forall|k: int|
            0 <= k < candidates(all.take(n), drag).len() ==> candidates(all, drag)[k]
                == #[trigger] candidates(all.take(n), drag)[k],
    decreases all.len() - n,
{
    if n == all.len() {
        assert(all.take(n) =~= all);
    } else {
        lemma_candidates_prefix(all, drag, n + 1);
        assert(all.take(n + 1).drop_last() =~= all.take(n));
        let short = candidates(all.take(n), drag);
        let long = candidates(all.take(n + 1), drag);
        assert forall|k: int| 0 <= k < short.len() implies candidates(all, drag)[k] == #[trigger] short[k] by {
            assert(long[k] == short[k]);
        }
    }
}

/// A window that meets the drag rectangle is the candidate that follows
/// those of the windows above it.
proof fn lemma_candidate_of_window(all: Seq<(TrackedWindow, Rect)>, drag: Rect, i: int)
    requires
        0 <= i < all.len(),
        spec_rects_intersect(drag, all[i].1),
    ensures
        candidates(all.take(i), drag).len() < candidates(all, drag).len(),
        candidates(all, drag)[candidates(all.take(i), drag).len() as int] == (all[i].0.hwnd, all[i].1),
        forall|k: int|
            #![trigger candidates(all, drag)[k]]
            0 <= k < candidates(all.take(i), drag).len() ==> exists|j: int|
                0 <= j < i && (#[trigger] all[j]).0.hwnd == candidates(all, drag)[k].0 && all[j].1
                    == candidates(all, drag)[k].1,
{
    let ci = candidates(all.take(i), drag).len() as int;
    assert(all.take(i + 1).drop_last() =~= all.take(i));
    assert(all.take(i + 1).last() == all[i]);
    assert(candidates(all.take(i + 1), drag) == candidates(all.take(i), drag).push((all[i].0.hwnd, all[i].1)));
    lemma_candidates_prefix(all, drag, i + 1);
    lemma_candidates_prefix(all, drag, i);
    assert(candidates(all, drag)[ci] == candidates(all.take(i + 1), drag)[ci]);
    assert forall|k: int| #![trigger candidates(all, drag)[k]] 0 <= k < ci implies exists|j: int|
        0 <= j < i && (#[trigger] all[j]).0.hwnd == candidates(all, drag)[k].0 && all[j].1
            == candidates(all, drag)[k].1 by {
        lemma_candidates_meet_drag(all.take(i), drag, k);
        let j = choose|j: int|
            0 <= j < all.take(i).len() && (#[trigger] all.take(i)[j]).0.hwnd == candidates(all.take(i), drag)[k].0
                && all.take(i)[j].1 == candidates(all.take(i), drag)[k].1;
        assert(all[j] == all.take(i)[j]);
    }
}

/// The point `k` steps along a side `[lo, hi)` of an overlap sampled every
/// quarter of its length (every pixel when it is shorter than 4).
pub open spec fn quarter_step_point(lo: int, hi: int, k: int) -> int {
    lo + k * (if (hi - lo) / 4 >= 1 { (hi - lo) / 4 } else { 1 })
}

/// A window meeting a drag rectangle at least 20 by 20 is selected when,
/// at some point of the sampling grid over its overlap with the drag
/// rectangle (any column and any row of it), no window above it with
/// another handle covers the point.
pub proof fn law_uncovered_window_is_selected(
    all: Seq<(TrackedWindow, Rect)>,
    drag: Rect,
    i: int,
    kx: int,
    ky: int,
)
    requires
        0 <= i < all.len(),
        drag.right - drag.left >= 20,
        drag.bottom - drag.top >= 20,
        drag.left < all[i].1.right && all[i].1.left < drag.right,
        drag.top < all[i].1.bottom && all[i].1.top < drag.bottom,
        0 <= kx,
        0 <= ky,
        quarter_step_point(max_int(drag.left as int, all[i].1.left as int), min_int(drag.right as int, all[i].1.right as int), kx)
            < min_int(drag.right as int, all[i].1.right as int),
        quarter_step_point(max_int(drag.top as int, all[i].1.top as int), min_int(drag.bottom as int, all[i].1.bottom as int), ky)
            < min_int(drag.bottom as int, all[i].1.bottom as int),
        forall|j: int|
            0 <= j < i && (#[trigger] all[j]).0.hwnd != all[i].0.hwnd ==> !({
                let x = quarter_step_point(max_int(drag.left as int, all[i].1.left as int), min_int(drag.right as int, all[i].1.right as int), kx);
                let y = quarter_step_point(max_int(drag.top as int, all[i].1.top as int), min_int(drag.bottom as int, all[i].1.bottom as int), ky);
                all[j].1.left <= x < all[j].1.right && all[j].1.top <= y < all[j].1.bottom
            }),
    ensures
        spec_selected(all, drag).contains(all[i].0.hwnd),
{
    let c = candidates(all, drag);
    lemma_candidate_of_window(all, drag, i);
    let ci = candidates(all.take(i), drag).len() as int;
    let l = max_int(drag.left as int, all[i].1.left as int);
    let t = max_int(drag.top as int, all[i].1.top as int);
    let r = min_int(drag.right as int, all[i].1.right as int);
    let b = min_int(drag.bottom as int, all[i].1.bottom as int);
    let x = quarter_step_point(l, r, kx);
    let y = quarter_step_point(t, b, ky);
    assert(is_sample(l, r, x)) by {
        vstd::arithmetic::div_mod::lemma_mod_multiples_basic(kx, sample_step(l, r));
        assert(kx * sample_step(l, r) >= 0) by (nonlinear_arith)
            requires kx >= 0, sample_step(l, r) >= 1;
    }
    assert(is_sample(t, b, y)) by {
        vstd::arithmetic::div_mod::lemma_mod_multiples_basic(ky, sample_step(t, b));
        assert(ky * sample_step(t, b) >= 0) by (nonlinear_arith)
            requires ky >= 0, sample_step(t, b) >= 1;
    }
    assert(!covered_at(c, ci, x, y)) by {
        if covered_at(c, ci, x, y) {
            let jj = choose|jj: int| 0 <= jj < ci && c[jj].0 != c[ci].0 && #[trigger] point_in(c[jj].1, x, y);
            let j = choose|j: int| 0 <= j < i && (#[trigger] all[j]).0.hwnd == c[jj].0 && all[j].1 == c[jj].1;
            assert(all[j].0.hwnd != all[i].0.hwnd);
        }
    }
    assert(c[ci].1 == all[i].1);
    assert(l < r && t < b);
    assert(is_sample(l, r, x) && is_sample(t, b, y) && !covered_at(c, ci, x, y));
    assert(has_visible_sample(c, drag, ci));
    let p = visible_prefix(c, drag, ci);
    assert(visible_prefix(c, drag, ci + 1) == p.push(c[ci].0));
    lemma_visible_prefix_extends(c, drag, ci + 1, c.len() as int);
    assert(visible_prefix(c, drag, ci + 1)[p.len() as int] == all[i].0.hwnd);
    assert(spec_selected(all, drag)[p.len() as int] == all[i].0.hwnd);
}

} // verus!
verus! {

/// Each handle of `visible_prefix(cands, drag, n)` is that of one of the
/// first `n` candidates that shows.
proof fn lemma_visible_prefix_shows(cands: Seq<(isize, Rect)>, drag: Rect, n: int, k: int)
    requires
        0 <= n <= cands.len(),
        0 <= k < visible_prefix(cands, drag, n).len(),
    ensures
        exists|j: int|
            0 <= j < n && has_visible_sample(cands, drag, j) && #[trigger] cands[j].0 == visible_prefix(cands, drag, n)[k],
    decreases n,
{
    let p = visible_prefix(cands, drag, n - 1);
    if k < p.len() {
        lemma_visible_prefix_shows(cands, drag, n - 1, k);
        let j = choose|j: int| 0 <= j < n - 1 && has_visible_sample(cands, drag, j) && #[trigger] cands[j].0 == p[k];
        assert(cands[j].0 == visible_prefix(cands, drag, n)[k]);
    } else {
        assert(cands[n - 1].0 == visible_prefix(cands, drag, n)[k]);
    }
}

/// Each candidate is that of a window meeting the drag rectangle, after the
/// candidates of the windows above it.
proof fn lemma_window_of_candidate(all: Seq<(TrackedWindow, Rect)>, drag: Rect, ci: int) -> (i: int)
    requires
        0 <= ci < candidates(all, drag).len(),
    ensures
        0 <= i < all.len(),
        spec_rects_intersect(drag, all[i].1),
        candidates(all.take(i), drag).len() == ci,
    decreases all.len(),
{
    let d = all.drop_last();
    let cd = candidates(d, drag);
    if ci < cd.len() {
        let i = lemma_window_of_candidate(d, drag, ci);
        assert(d.take(i) =~= all.take(i));
        assert(all[i] == d[i]);
        i
    } else {
        let i = all.len() - 1;
        assert(all.take(i) =~= d);
        assert(all[i] == all.last());
        i
    }
}

/// The windows above a window have no more candidates than it has above it.
proof fn lemma_candidates_count_grows(all: Seq<(TrackedWindow, Rect)>, drag: Rect, j: int, i: int)
    requires
        0 <= j < i <= all.len(),
        spec_rects_intersect(drag, all[j].1),
    ensures
        candidates(all.take(j), drag).len() < candidates(all.take(i), drag).len(),
{
    let a = all.take(i);
    assert(a.take(j) =~= all.take(j));
    assert(a[j] == all[j]);
    lemma_candidate_of_window(a, drag, j);
}

/// Every selected window shows in the drag rectangle: the drag rectangle
/// is at least 20 by 20, and the window is one that meets it and that, at
/// some point of the sampling grid over its overlap with the drag rectangle
/// (every quarter of the overlap's width and height), no window above it
/// with another handle covers.
pub proof fn law_selected_window_shows(all: Seq<(TrackedWindow, Rect)>, drag: Rect, q: int)
    requires
        0 <= q < spec_selected(all, drag).len(),
    ensures
        drag.right - drag.left >= 20,
        drag.bottom - drag.top >= 20,
        exists|i: int, kx: int, ky: int|
            #![trigger all[i], quarter_step_point(max_int(drag.left as int, all[i].1.left as int), min_int(drag.right as int, all[i].1.right as int), kx), quarter_step_point(max_int(drag.top as int, all[i].1.top as int), min_int(drag.bottom as int, all[i].1.bottom as int), ky)]
            0 <= i < all.len() && all[i].0.hwnd == spec_selected(all, drag)[q] && drag.left < all[i].1.right
                && all[i].1.left < drag.right && drag.top < all[i].1.bottom && all[i].1.top < drag.bottom && 0 <= kx
                && 0 <= ky && quarter_step_point(max_int(drag.left as int, all[i].1.left as int), min_int(drag.right as int, all[i].1.right as int), kx)
                < min_int(drag.right as int, all[i].1.right as int) && quarter_step_point(max_int(drag.top as int, all[i].1.top as int), min_int(drag.bottom as int, all[i].1.bottom as int), ky)
                < min_int(drag.bottom as int, all[i].1.bottom as int) && forall|j: int|
                0 <= j < i && (#[trigger] all[j]).0.hwnd != all[i].0.hwnd ==> !(all[j].1.left <= quarter_step_point(max_int(drag.left as int, all[i].1.left as int), min_int(drag.right as int, all[i].1.right as int), kx)
                    < all[j].1.right && all[j].1.top <= quarter_step_point(max_int(drag.top as int, all[i].1.top as int), min_int(drag.bottom as int, all[i].1.bottom as int), ky) < all[j].1.bottom),
{
    let c = candidates(all, drag);
    let n = c.len() as int;
    lemma_visible_prefix_shows(c, drag, n, q);
    let ci = choose|ci: int| 0 <= ci < n && has_visible_sample(c, drag, ci) && #[trigger] c[ci].0 == visible_prefix(c, drag, n)[q];
    let i = lemma_window_of_candidate(all, drag, ci);
    lemma_candidate_of_window(all, drag, i);
    let l = max_int(drag.left as int, all[i].1.left as int);
    let t = max_int(drag.top as int, all[i].1.top as int);
    let r = min_int(drag.right as int, all[i].1.right as int);
    let b = min_int(drag.bottom as int, all[i].1.bottom as int);
    assert(c[ci].1 == all[i].1);
    let (x, y) = choose|x: int, y: int| #[trigger] is_sample(l, r, x) && #[trigger] is_sample(t, b, y) && !covered_at(c, ci, x, y);
    let sx = sample_step(l, r);
    let sy = sample_step(t, b);
    let kx = (x - l) / sx;
    let ky = (y - t) / sy;
    vstd::arithmetic::div_mod::lemma_fundamental_div_mod(x - l, sx);
    vstd::arithmetic::div_mod::lemma_fundamental_div_mod(y - t, sy);
    assert(x == l + kx * sx) by (nonlinear_arith)
        requires x - l == sx * ((x - l) / sx) + (x - l) % sx, (x - l) % sx == 0, kx == (x - l) / sx;
    assert(y == t + ky * sy) by (nonlinear_arith)
        requires y - t == sy * ((y - t) / sy) + (y - t) % sy, (y - t) % sy == 0, ky == (y - t) / sy;
    vstd::arithmetic::div_mod::lemma_div_pos_is_pos(x - l, sx);
    vstd::arithmetic::div_mod::lemma_div_pos_is_pos(y - t, sy);
    assert(quarter_step_point(l, r, kx) == x);
    assert(quarter_step_point(t, b, ky) == y);
    assert forall|j: int|
        0 <= j < i && (#[trigger] all[j]).0.hwnd != all[i].0.hwnd implies !(all[j].1.left <= x < all[j].1.right
            && all[j].1.top <= y < all[j].1.bottom) by {
        if all[j].1.left <= x < all[j].1.right && all[j].1.top <= y < all[j].1.bottom {
            assert(spec_rects_intersect(drag, all[j].1));
            lemma_candidate_of_window(all, drag, j);
            lemma_candidates_count_grows(all, drag, j, i);
            let cj = candidates(all.take(j), drag).len() as int;
            assert(c[cj] == (all[j].0.hwnd, all[j].1));
            assert(point_in(c[cj].1, x, y));
            assert(covered_at(c, ci, x, y));
        }
    }
    assert(spec_selected(all, drag)[q] == all[i].0.hwnd);
}

} // verus!
