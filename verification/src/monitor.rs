//! The window monitor's decisions: what a window event asks of a group,
//! which applications follow a new frontmost application, the Z order in
//! which a group comes to the front, and how the other windows of a group
//! follow a dragged one.

use vstd::prelude::*;
use vstd::string::*;
use crate::group::{GroupManager, TrackedWindow, first_match, group_of, is_sibling};
use crate::text::str_eq;

verus! {

/// Events within this many milliseconds of the last sync are ignored.
pub const FG_DEBOUNCE_MS: i64 = 150;

/// A window came to the foreground.
pub const EVENT_SYSTEM_FOREGROUND: u32 = 0x0003;

/// A window began to minimize.
pub const EVENT_SYSTEM_MINIMIZESTART: u32 = 0x0016;

/// A window was restored from minimized.
pub const EVENT_SYSTEM_MINIMIZEEND: u32 = 0x0017;

/// A window was destroyed.
pub const EVENT_OBJECT_DESTROY: u32 = 0x8001;

/// Coordinates look valid (a minimized window sits at -32000).
pub fn is_valid_pos(x: i32, y: i32) -> (r: bool)
    ensures
        r == (x > -10000 && y > -10000),
{
    x > -10000 && y > -10000
}

/// At most the first `n` entries of `s`.
pub open spec fn at_most(s: Seq<isize>, n: int) -> Seq<isize> {
    if s.len() <= n {
        s
    } else {
        s.take(n)
    }
}

/// The windows of the walk that belong to the group, in walk order.
pub open spec fn group_windows_in(walk: Seq<isize>, group: Seq<isize>) -> Seq<isize> {
    walk.filter(|h: isize| group.contains(h))
}

/// The group's windows met while walking the windows from the top of the Z
/// order down, no more of them than the group has.
pub open spec fn spec_zorder_sorted(walk: Seq<isize>, group: Seq<isize>) -> Seq<isize> {
    at_most(group_windows_in(walk, group), group.len() as int)
}

/// The windows of a group in Z order, top first; `walk` holds the desktop's
/// windows from the top of the Z order down.
pub fn get_zorder_sorted(walk: &Vec<isize>, group: &Vec<isize>) -> (r: Vec<isize>)
    ensures
        r@ == spec_zorder_sorted(walk@, group@),
{
    let mut sorted: Vec<isize> = Vec::new();
    let n = walk.len();
    let mut i: usize = 0;
    let ghost g = group@.len() as int;
    while i < n
        invariant
            n == walk@.len(),
            i <= n,
            g == group@.len(),
            sorted@ == at_most(group_windows_in(walk@.take(i as int), group@), g),
        decreases n - i,
    {
        let ghost met = group_windows_in(walk@.take(i as int), group@);
        let ghost next = group_windows_in(walk@.take(i + 1), group@);
        proof {
            reveal(Seq::filter);
            assert(walk@.take(i + 1).drop_last() =~= walk@.take(i as int));
            assert(walk@.take(i + 1).last() == walk@[i as int]);
            if group@.contains(walk@[i as int]) {
                assert(next == met.push(walk@[i as int]));
            } else {
                assert(next == met);
            }
        }
        if sorted.len() != group.len() && crate::overlay::vec_contains_isize(group, walk[i]) {
            sorted.push(walk[i]);
            proof {
                assert(met.len() < g);
                assert(sorted@ =~= at_most(next, g));
            }
        } else {
            proof {
                if sorted.len() == group.len() && group@.contains(walk@[i as int]) {
                    assert(at_most(next, g) =~= at_most(met, g));
                }
            }
        }
        i += 1;
    }
    assert(walk@.take(n as int) =~= walk@);
    sorted
}

/// The order in which a group is brought to the front: the activated window
/// first, then the group's other windows in their Z order.
pub fn front_order(zorder: Vec<isize>, activated: isize) -> (r: Vec<isize>)
    ensures
        r@ == seq![activated] + zorder@.filter(|h: isize| h != activated),
{
    let ghost z = zorder@;
    let ghost pred = |h: isize| h != activated;
    let mut rest: Vec<isize> = Vec::new();
    let n = zorder.len();
    let mut i: usize = 0;
    while i < n
        invariant
            n == z.len(),
            z == zorder@,
            pred == |h: isize| h != activated,
            i <= n,
            rest@ == z.take(i as int).filter(pred),
        decreases n - i,
    {
        proof {
            assert(z.take(i + 1) =~= z.take(i as int).push(z[i as int]));
            z.take(i as int).lemma_filter_push(z[i as int], pred);
        }
        if zorder[i] != activated {
            rest.push(zorder[i]);
        }
        i += 1;
    }
    assert(z.take(n as int) =~= z);
    rest.insert(0, activated);
    assert(rest@ =~= seq![activated] + z.filter(pred));
    rest
}

/// What the monitor does after a window event.
#[derive(Debug)]
pub enum MonitorAction {
    Nothing,
    /// Bring these windows to the front (the activated one last).
    BringToFront(Vec<isize>),
    Minimize(Vec<isize>),
    Restore(Vec<isize>),
}

/// The list holds each sibling of `hwnd` once.
pub open spec fn lists_siblings(v: Seq<isize>, b: Map<isize, Seq<char>>, hwnd: isize) -> bool {
    &&& v.no_duplicates()
    &&& forall|h: isize| #[trigger] v.contains(h) <==> is_sibling(b, hwnd, h)
}

/// `hwnd` has some sibling.
pub open spec fn has_sibling(b: Map<isize, Seq<char>>, hwnd: isize) -> bool {
    exists|h: isize| is_sibling(b, hwnd, h)
}

/// Some group with id `gid` syncs minimize/restore.
pub open spec fn syncs_minimize(groups: Seq<crate::group::WindowGroup>, gid: Seq<char>) -> bool {
    exists|i: int| 0 <= i < groups.len() && (#[trigger] groups[i]).id@ == gid && groups[i].sync_minimize
}

/// Some group with id `gid` syncs moves.
pub open spec fn syncs_move(groups: Seq<crate::group::WindowGroup>, gid: Seq<char>) -> bool {
    exists|i: int| 0 <= i < groups.len() && (#[trigger] groups[i]).id@ == gid && groups[i].sync_move
}

/// The bindings after a foreground event that is not ignored: a window
/// with no sibling that is a real window is bound to the first group that
/// matches it.
pub open spec fn bindings_after_foreground(
    groups: Seq<crate::group::WindowGroup>,
    b: Map<isize, Seq<char>>,
    hwnd: isize,
    window: Option<TrackedWindow>,
) -> Map<isize, Seq<char>> {
    if !has_sibling(b, hwnd) && window is Some && first_match(groups, window->0) is Some {
        b.insert(hwnd, groups[first_match(groups, window->0)->0].id@)
    } else {
        b
    }
}

impl GroupManager {
    fn has_group_with(&self, group_id: &str, minimize: bool) -> (r: bool)
        ensures
            r == if minimize {
                syncs_minimize(self.groups@, group_id@)
            } else {
                syncs_move(self.groups@, group_id@)
            },
    {
        let n = self.groups.len();
        let mut i: usize = 0;
        while i < n
            invariant
                n == self.groups@.len(),
                i <= n,
                forall|k: int|
                    0 <= k < i ==> !((#[trigger] self.groups@[k]).id@ == group_id@ && (if minimize {
                        self.groups@[k].sync_minimize
                    } else {
                        self.groups@[k].sync_move
                    })),
            decreases n - i,
        {
            let g = &self.groups[i];
            let flag = if minimize { g.sync_minimize } else { g.sync_move };
            if flag && crate::text::str_eq(g.id.as_str(), group_id) {
                assert(self.groups@[i as int].id@ == group_id@);
                return true;
            }
            i += 1;
        }
        false
    }

    /// What a window event asks: a foreground change brings the window's
    /// group to the front (binding a lone real window to the first group
    /// that matches it); the start or end of a minimize minimizes or
    /// restores the window's siblings when its group syncs minimize; a
    /// destroyed window is unbound. Events on a child object or on no
    /// window, and foreground and minimize events within the debounce time
    /// of the last sync, are ignored, and so is every event while the
    /// monitor is `suppressed` (its own moves, minimizes and activations are
    /// under way). `window` describes the window when it is a real (visible,
    /// titled, not cloaked) one.
    pub fn on_window_event(
        &mut self,
        suppressed: bool,
        event: u32,
        object_id: i32,
        hwnd: isize,
        now_ms: i64,
        last_sync_ms: i64,
        window: Option<TrackedWindow>,
    ) -> (r: MonitorAction)
        requires
            0 <= now_ms,
            0 <= last_sync_ms,
            window matches Some(w) ==> w.hwnd == hwnd,
        ensures
            final(self).groups == old(self).groups,
            final(self).suppressed == old(self).suppressed,
            if suppressed || object_id != 0 || hwnd == 0 {
                &&& r is Nothing
                &&& final(self).bindings() == old(self).bindings()
            } else if event == EVENT_SYSTEM_FOREGROUND {
                if now_ms - last_sync_ms < FG_DEBOUNCE_MS {
                    &&& r is Nothing
                    &&& final(self).bindings() == old(self).bindings()
                } else {
                    let b1 = bindings_after_foreground(old(self).groups@, old(self).bindings(), hwnd, window);
                    &&& final(self).bindings() == b1
                    &&& if has_sibling(b1, hwnd) {
                        r matches MonitorAction::BringToFront(v) && v@.len() > 0 && v@.last() == hwnd && lists_siblings(
                            v@.drop_last(),
                            b1,
                            hwnd,
                        )
                    } else {
                        r is Nothing
                    }
                }
            } else if event == EVENT_SYSTEM_MINIMIZESTART || event == EVENT_SYSTEM_MINIMIZEEND {
                let b = old(self).bindings();
                &&& final(self).bindings() == b
                &&& if now_ms - last_sync_ms < FG_DEBOUNCE_MS || group_of(b, hwnd) is None || !syncs_minimize(
                    old(self).groups@,
                    group_of(b, hwnd)->0,
                ) || !has_sibling(b, hwnd) {
                    r is Nothing
                } else if event == EVENT_SYSTEM_MINIMIZESTART {
                    r matches MonitorAction::Minimize(v) && lists_siblings(v@, b, hwnd)
                } else {
                    r matches MonitorAction::Restore(v) && lists_siblings(v@, b, hwnd)
                }
            } else if event == EVENT_OBJECT_DESTROY {
                &&& r is Nothing
                &&& final(self).bindings() == old(self).bindings().remove(hwnd)
            } else {
                &&& r is Nothing
                &&& final(self).bindings() == old(self).bindings()
            },
    {
        if object_id != 0 || hwnd == 0 {
            return MonitorAction::Nothing;
        }
        if suppressed {
            return MonitorAction::Nothing;
        }
        if event == EVENT_SYSTEM_FOREGROUND {
            if now_ms - last_sync_ms < FG_DEBOUNCE_MS {
                return MonitorAction::Nothing;
            }
            let mut sibs = self.get_sibling_hwnds(hwnd);
            if sibs.len() == 0 {
                assert(!has_sibling(old(self).bindings(), hwnd)) by {
                    if has_sibling(old(self).bindings(), hwnd) {
                        let h = choose|h: isize| is_sibling(old(self).bindings(), hwnd, h);
                        assert(sibs@.contains(h));
                    }
                }
                match window {
                    Some(tw) => {
                        let bound = self.try_auto_bind(&tw);
                        if bound.is_some() {
                            sibs = self.get_sibling_hwnds(hwnd);
                        }
                    },
                    None => {},
                }
            } else {
                assert(has_sibling(old(self).bindings(), hwnd)) by {
                    assert(sibs@.contains(sibs@[0]));
                }
            }
            let ghost b1 = self.bindings();
            assert(b1 == bindings_after_foreground(old(self).groups@, old(self).bindings(), hwnd, window));
            if sibs.len() == 0 {
                assert(!has_sibling(b1, hwnd)) by {
                    if has_sibling(b1, hwnd) {
                        let h = choose|h: isize| is_sibling(b1, hwnd, h);
                        assert(sibs@.contains(h));
                    }
                }
                return MonitorAction::Nothing;
            }
            assert(has_sibling(b1, hwnd)) by {
                assert(sibs@.contains(sibs@[0]));
            }
            let ghost s0 = sibs@;
            sibs.push(hwnd);
            assert(sibs@.drop_last() =~= s0);
            return MonitorAction::BringToFront(sibs);
        }
        if event == EVENT_SYSTEM_MINIMIZESTART || event == EVENT_SYSTEM_MINIMIZEEND {
            if now_ms - last_sync_ms < FG_DEBOUNCE_MS {
                return MonitorAction::Nothing;
            }
            let gid = match self.find_group_for_hwnd(hwnd) {
                Some(g) => String::from_str(g),
                None => {
                    return MonitorAction::Nothing;
                },
            };
            if !self.has_group_with(gid.as_str(), true) {
                return MonitorAction::Nothing;
            }
            let sibs = self.get_sibling_hwnds(hwnd);
            if sibs.len() == 0 {
                assert(!has_sibling(self.bindings(), hwnd)) by {
                    if has_sibling(self.bindings(), hwnd) {
                        let h = choose|h: isize| is_sibling(self.bindings(), hwnd, h);
                        assert(sibs@.contains(h));
                    }
                }
                return MonitorAction::Nothing;
            }
            assert(has_sibling(self.bindings(), hwnd)) by {
                assert(sibs@.contains(sibs@[0]));
            }
            if event == EVENT_SYSTEM_MINIMIZESTART {
                return MonitorAction::Minimize(sibs);
            } else {
                return MonitorAction::Restore(sibs);
            }
        }
        if event == EVENT_OBJECT_DESTROY {
            self.unbind_window(hwnd);
        }
        MonitorAction::Nothing
    }
}

/// What the group of the foreground window says about move sync.
#[derive(Debug)]
pub enum MoveGroup {
    /// The window is in no group.
    Unbound,
    /// Its group does not sync moves, or it has no sibling.
    NotSyncing,
    /// The siblings that follow it.
    Siblings(Vec<isize>),
}

impl GroupManager {
    /// Whether and which windows follow the foreground window when it moves.
    pub fn move_sync_group(&self, fg: isize) -> (r: MoveGroup)
        ensures
            match group_of(self.bindings(), fg) {
                None => r is Unbound,
                Some(g) => if !syncs_move(self.groups@, g) || !has_sibling(self.bindings(), fg) {
                    r is NotSyncing
                } else {
                    r matches MoveGroup::Siblings(v) && lists_siblings(v@, self.bindings(), fg)
                },
            },
    {
        let gid = match self.find_group_for_hwnd(fg) {
            Some(g) => String::from_str(g),
            None => {
                return MoveGroup::Unbound;
            },
        };
        if !self.has_group_with(gid.as_str(), false) {
            return MoveGroup::NotSyncing;
        }
        let sibs = self.get_sibling_hwnds(fg);
        if sibs.len() == 0 {
            assert(!has_sibling(self.bindings(), fg)) by {
                if has_sibling(self.bindings(), fg) {
                    let h = choose|h: isize| is_sibling(self.bindings(), fg, h);
                    assert(sibs@.contains(h));
                }
            }
            return MoveGroup::NotSyncing;
        }
        assert(has_sibling(self.bindings(), fg)) by {
            assert(sibs@.contains(sibs@[0]));
        }
        MoveGroup::Siblings(sibs)
    }
}

/// What the monitor sees of a sibling in one tick: whether it is a window
/// and not minimized, and its position when it has one.
#[derive(Clone, Copy, Debug)]
pub struct SiblingInfo {
    pub hwnd: isize,
    pub usable: bool,
    pub pos: Option<(i32, i32)>,
}

/// One tick of the move-sync poll: what the monitor saw.
#[derive(Debug)]
pub struct MoveTick {
    /// Another part of the monitor moved or raised windows since the last tick.
    pub cache_dirty: bool,
    /// The monitor is itself moving windows.
    pub suppressed: bool,
    /// The foreground window, 0 when none.
    pub fg: isize,
    pub fg_iconic: bool,
    pub fg_pos: Option<(i32, i32)>,
    pub cursor: (i32, i32),
    pub left_down: bool,
}

/// The state of move sync between ticks.
pub struct MoveSync {
    /// The foreground window whose siblings' offsets are known, 0 when none.
    pub tracked_fg: isize,
    /// Each sibling's position relative to the foreground window.
    pub offsets: Vec<(isize, i64, i64)>,
    pub drag_active: bool,
    pub drag_cursor_start: (i32, i32),
    /// Each sibling's position when the drag began.
    pub drag_sibling_start: Vec<(isize, i32, i32)>,
}

/// What a tick does: the windows to move, and whether to let the windows
/// settle before the next tick.
pub struct MoveStep {
    pub moves: Vec<(isize, i32, i32)>,
    pub settle: bool,
}

/// The position of a sibling that counts: it is a usable window with a valid position.
pub open spec fn counted_pos(s: SiblingInfo) -> Option<(i32, i32)> {
    if s.usable && s.pos is Some && (s.pos->0).0 > -10000 && (s.pos->0).1 > -10000 {
        s.pos
    } else {
        None
    }
}

/// The offsets of the counted siblings from the foreground window at `(fx, fy)`.
pub open spec fn offsets_of(infos: Seq<SiblingInfo>, fx: int, fy: int) -> Seq<(isize, i64, i64)>
    decreases infos.len(),
{
    if infos.len() == 0 {
        Seq::empty()
    } else {
        let p = offsets_of(infos.drop_last(), fx, fy);
        match counted_pos(infos.last()) {
            Some(pos) => p.push((infos.last().hwnd, (pos.0 - fx) as i64, (pos.1 - fy) as i64)),
            None => p,
        }
    }
}

/// The positions of the counted siblings.
pub open spec fn starts_of(infos: Seq<SiblingInfo>) -> Seq<(isize, i32, i32)>
    decreases infos.len(),
{
    if infos.len() == 0 {
        Seq::empty()
    } else {
        let p = starts_of(infos.drop_last());
        match counted_pos(infos.last()) {
            Some(pos) => p.push((infos.last().hwnd, pos.0, pos.1)),
            None => p,
        }
    }
}

/// The first recorded start position of a window.
pub open spec fn start_of(starts: Seq<(isize, i32, i32)>, h: isize) -> Option<(i32, i32)>
    decreases starts.len(),
{
    if starts.len() == 0 {
        None
    } else if starts[0].0 == h {
        Some((starts[0].1, starts[0].2))
    } else {
        start_of(starts.drop_first(), h)
    }
}

/// The moves of a drag by `(dx, dy)`: each usable sibling with a start
/// position goes to that position shifted by the drag.
pub open spec fn moves_of(infos: Seq<SiblingInfo>, starts: Seq<(isize, i32, i32)>, dx: int, dy: int) -> Seq<(isize, int, int)>
    decreases infos.len(),
{
    if infos.len() == 0 {
        Seq::empty()
    } else {
        let p = moves_of(infos.drop_last(), starts, dx, dy);
        let s = infos.last();
        if s.usable && start_of(starts, s.hwnd) is Some {
            let st = start_of(starts, s.hwnd)->0;
            p.push((s.hwnd, st.0 + dx, st.1 + dy))
        } else {
            p
        }
    }
}

/// Every move of the drag lands within `i32`.
pub open spec fn moves_fit(infos: Seq<SiblingInfo>, starts: Seq<(isize, i32, i32)>, dx: int, dy: int) -> bool {
    forall|i: int|
        0 <= i < infos.len() && start_of(starts, (#[trigger] infos[i]).hwnd) is Some ==> {
            let st = start_of(starts, infos[i].hwnd)->0;
            &&& i32::MIN <= st.0 + dx <= i32::MAX
            &&& i32::MIN <= st.1 + dy <= i32::MAX
        }
}

/// The siblings that the tick describes are those the group gives, in order.
pub open spec fn infos_match(group: MoveGroup, infos: Seq<SiblingInfo>) -> bool {
    group matches MoveGroup::Siblings(v) ==> {
        &&& infos.len() == v@.len()
        &&& forall|i: int| 0 <= i < infos.len() ==> (#[trigger] infos[i]).hwnd == v@[i]
    }
}

fn counted_pos_exec(s: &SiblingInfo) -> (r: Option<(i32, i32)>)
    ensures
        r == counted_pos(*s),
{
    match s.pos {
        Some(p) => if s.usable && is_valid_pos(p.0, p.1) {
            Some(p)
        } else {
            None
        },
        None => None,
    }
}

fn offsets_exec(infos: &Vec<SiblingInfo>, fx: i32, fy: i32) -> (r: Vec<(isize, i64, i64)>)
    ensures
        r@ == offsets_of(infos@, fx as int, fy as int),
{
    let mut out: Vec<(isize, i64, i64)> = Vec::new();
    let n = infos.len();
    let mut i: usize = 0;
    while i < n
        invariant
            n == infos@.len(),
            i <= n,
            out@ == offsets_of(infos@.take(i as int), fx as int, fy as int),
        decreases n - i,
    {
        proof {
            assert(infos@.take(i + 1).drop_last() =~= infos@.take(i as int));
        }
        match counted_pos_exec(&infos[i]) {
            Some(p) => {
                out.push((infos[i].hwnd, p.0 as i64 - fx as i64, p.1 as i64 - fy as i64));
            },
            None => {},
        }
        i += 1;
    }
    assert(infos@.take(n as int) =~= infos@);
    out
}

fn starts_exec(infos: &Vec<SiblingInfo>) -> (r: Vec<(isize, i32, i32)>)
    ensures
        r@ == starts_of(infos@),
{
    let mut out: Vec<(isize, i32, i32)> = Vec::new();
    let n = infos.len();
    let mut i: usize = 0;
    while i < n
        invariant
            n == infos@.len(),
            i <= n,
            out@ == starts_of(infos@.take(i as int)),
        decreases n - i,
    {
        proof {
            assert(infos@.take(i + 1).drop_last() =~= infos@.take(i as int));
        }
        match counted_pos_exec(&infos[i]) {
            Some(p) => {
                out.push((infos[i].hwnd, p.0, p.1));
            },
            None => {},
        }
        i += 1;
    }
    assert(infos@.take(n as int) =~= infos@);
    out
}

fn start_of_exec(starts: &Vec<(isize, i32, i32)>, h: isize) -> (r: Option<(i32, i32)>)
    ensures
        r == start_of(starts@, h),
{
    let n = starts.len();
    let mut i: usize = 0;
    assert(starts@.skip(0) =~= starts@);
    while i < n
        invariant
            n == starts@.len(),
            i <= n,
            start_of(starts@, h) == start_of(starts@.skip(i as int), h),
        decreases n - i,
    {
        assert(starts@.skip(i as int).drop_first() =~= starts@.skip(i + 1));
        if starts[i].0 == h {
            return Some((starts[i].1, starts[i].2));
        }
        i += 1;
    }
    None
}

impl MoveSync {
    /// Nothing tracked, no drag.
    pub fn new() -> (r: Self)
        ensures
            r.tracked_fg == 0,
            r.offsets@.len() == 0,
            !r.drag_active,
            r.drag_cursor_start == (0i32, 0i32),
            r.drag_sibling_start@.len() == 0,
    {
        MoveSync {
            tracked_fg: 0,
            offsets: Vec::new(),
            drag_active: false,
            drag_cursor_start: (0, 0),
            drag_sibling_start: Vec::new(),
        }
    }

    /// One tick of move sync. When the foreground window of a group that
    /// syncs moves changes, its siblings' offsets are taken; when the left
    /// button goes down over it, the siblings' positions and the cursor are
    /// taken; while it stays down, every sibling follows the cursor's move
    /// from there; when it goes up, the offsets are taken again. A dirty
    /// cache drops all of this and lets the windows settle.
    pub fn step(&mut self, tick: &MoveTick, group: &MoveGroup, infos: &Vec<SiblingInfo>) -> (r: MoveStep)
        requires
            infos_match(*group, infos@),
            old(self).drag_active ==> moves_fit(
                infos@,
                old(self).drag_sibling_start@,
                tick.cursor.0 - old(self).drag_cursor_start.0,
                tick.cursor.1 - old(self).drag_cursor_start.1,
            ),
        ensures
            r.settle == tick.cache_dirty,
            if tick.cache_dirty {
                &&& final(self).tracked_fg == 0
                &&& final(self).offsets@.len() == 0
                &&& !final(self).drag_active
                &&& final(self).drag_sibling_start@.len() == 0
                &&& r.moves@.len() == 0
            } else if tick.suppressed || tick.fg == 0 {
                &&& *final(self) == *old(self)
                &&& r.moves@.len() == 0
            } else if tick.fg_iconic {
                &&& r.moves@.len() == 0
                &&& if tick.fg == old(self).tracked_fg {
                    &&& final(self).tracked_fg == 0
                    &&& final(self).offsets@.len() == 0
                    &&& !final(self).drag_active
                    &&& final(self).drag_cursor_start == old(self).drag_cursor_start
                    &&& final(self).drag_sibling_start == old(self).drag_sibling_start
                } else {
                    *final(self) == *old(self)
                }
            } else {
                match *group {
                    MoveGroup::Unbound => {
                        &&& r.moves@.len() == 0
                        &&& if old(self).tracked_fg != 0 {
                            &&& final(self).tracked_fg == 0
                            &&& final(self).offsets@.len() == 0
                            &&& !final(self).drag_active
                            &&& final(self).drag_cursor_start == old(self).drag_cursor_start
                            &&& final(self).drag_sibling_start == old(self).drag_sibling_start
                        } else {
                            *final(self) == *old(self)
                        }
                    },
                    MoveGroup::NotSyncing => {
                        &&& r.moves@.len() == 0
                        &&& *final(self) == *old(self)
                    },
                    MoveGroup::Siblings(_) => if tick.fg != old(self).tracked_fg {
                        &&& r.moves@.len() == 0
                        &&& final(self).tracked_fg == tick.fg
                        &&& final(self).offsets@ == match tick.fg_pos {
                            Some(p) => if p.0 > -10000 && p.1 > -10000 {
                                offsets_of(infos@, p.0 as int, p.1 as int)
                            } else {
                                Seq::empty()
                            },
                            None => Seq::empty(),
                        }
                        &&& !final(self).drag_active
                        &&& final(self).drag_cursor_start == old(self).drag_cursor_start
                        &&& final(self).drag_sibling_start@.len() == 0
                    } else if tick.left_down && !old(self).drag_active && old(self).offsets@.len() > 0 {
                        &&& r.moves@.len() == 0
                        &&& final(self).tracked_fg == old(self).tracked_fg
                        &&& final(self).offsets == old(self).offsets
                        &&& final(self).drag_active
                        &&& final(self).drag_cursor_start == tick.cursor
                        &&& final(self).drag_sibling_start@ == starts_of(infos@)
                    } else if !tick.left_down && old(self).drag_active {
                        &&& r.moves@.len() == 0
                        &&& final(self).tracked_fg == old(self).tracked_fg
                        &&& final(self).offsets@ == match tick.fg_pos {
                            Some(p) => if p.0 > -10000 && p.1 > -10000 {
                                offsets_of(infos@, p.0 as int, p.1 as int)
                            } else {
                                old(self).offsets@
                            },
                            None => old(self).offsets@,
                        }
                        &&& !final(self).drag_active
                        &&& final(self).drag_cursor_start == old(self).drag_cursor_start
                        &&& final(self).drag_sibling_start@.len() == 0
                    } else if old(self).drag_active {
                        let dx = tick.cursor.0 - old(self).drag_cursor_start.0;
                        let dy = tick.cursor.1 - old(self).drag_cursor_start.1;
                        &&& *final(self) == *old(self)
                        &&& if dx == 0 && dy == 0 {
                            r.moves@.len() == 0
                        } else {
                            r.moves@.map_values(|m: (isize, i32, i32)| (m.0, m.1 as int, m.2 as int)) == moves_of(
                                infos@,
                                old(self).drag_sibling_start@,
                                dx,
                                dy,
                            )
                        }
                    } else {
                        &&& *final(self) == *old(self)
                        &&& r.moves@.len() == 0
                    },
                }
            },
    {
        let none = MoveStep { moves: Vec::new(), settle: false };
        if tick.cache_dirty {
            self.tracked_fg = 0;
            self.offsets.clear();
            self.drag_active = false;
            self.drag_sibling_start.clear();
            return MoveStep { moves: Vec::new(), settle: true };
        }
        if tick.suppressed || tick.fg == 0 {
            return none;
        }
        if tick.fg_iconic {
            if tick.fg == self.tracked_fg {
                self.tracked_fg = 0;
                self.offsets.clear();
                self.drag_active = false;
            }
            return none;
        }
        match group {
            MoveGroup::Unbound => {
                if self.tracked_fg != 0 {
                    self.tracked_fg = 0;
                    self.offsets.clear();
                    self.drag_active = false;
                }
                return none;
            },
            MoveGroup::NotSyncing => {
                return none;
            },
            MoveGroup::Siblings(_) => {},
        }
        if tick.fg != self.tracked_fg {
            self.tracked_fg = tick.fg;
            self.offsets.clear();
            self.drag_active = false;
            self.drag_sibling_start.clear();
            match tick.fg_pos {
                Some(p) => {
                    if is_valid_pos(p.0, p.1) {
                        self.offsets = offsets_exec(infos, p.0, p.1);
                    }
                },
                None => {},
            }
            return none;
        }
        if tick.left_down && !self.drag_active && self.offsets.len() > 0 {
            self.drag_active = true;
            self.drag_cursor_start = tick.cursor;
            self.drag_sibling_start = starts_exec(infos);
            return none;
        }
        if !tick.left_down && self.drag_active {
            self.drag_active = false;
            self.drag_sibling_start.clear();
            match tick.fg_pos {
                Some(p) => {
                    if is_valid_pos(p.0, p.1) {
                        self.offsets = offsets_exec(infos, p.0, p.1);
                    }
                },
                None => {},
            }
            return none;
        }
        if self.drag_active {
            let dx: i64 = tick.cursor.0 as i64 - self.drag_cursor_start.0 as i64;
            let dy: i64 = tick.cursor.1 as i64 - self.drag_cursor_start.1 as i64;
            if dx == 0 && dy == 0 {
                return none;
            }
            let ghost starts = self.drag_sibling_start@;
            let mut moves: Vec<(isize, i32, i32)> = Vec::new();
            let n = infos.len();
            let mut i: usize = 0;
            while i < n
                invariant
                    n == infos@.len(),
                    i <= n,
                    starts == self.drag_sibling_start@,
                    moves_fit(infos@, starts, dx as int, dy as int),
                    moves@.map_values(|m: (isize, i32, i32)| (m.0, m.1 as int, m.2 as int)) == moves_of(
                        infos@.take(i as int),
                        starts,
                        dx as int,
                        dy as int,
                    ),
                decreases n - i,
            {
                proof {
                    assert(infos@.take(i + 1).drop_last() =~= infos@.take(i as int));
                }
                let s = infos[i];
                if s.usable {
                    match start_of_exec(&self.drag_sibling_start, s.hwnd) {
                        Some(st) => {
                            assert(infos@[i as int] == s);
                            let tx = (st.0 as i64 + dx) as i32;
                            let ty = (st.1 as i64 + dy) as i32;
                            moves.push((s.hwnd, tx, ty));
                        },
                        None => {},
                    }
                }
                assert(moves@.map_values(|m: (isize, i32, i32)| (m.0, m.1 as int, m.2 as int)) =~= moves_of(
                    infos@.take(i + 1),
                    starts,
                    dx as int,
                    dy as int,
                ));
                i += 1;
            }
            assert(infos@.take(n as int) =~= infos@);
            return MoveStep { moves, settle: false };
        }
        none
    }
}

/// The part of an executable's path after its last backslash.
pub open spec fn spec_exe_file_name(path: Seq<char>) -> Seq<char> {
    if exists|i: int| 0 <= i < path.len() && path[i] == '\\' {
        let i = choose|i: int|
            0 <= i < path.len() && path[i] == '\\' && forall|j: int| i < j < path.len() ==> path[j] != '\\';
        path.subrange(i + 1, path.len() as int)
    } else {
        path
    }
}

/// The file name of an executable's full path, as the process name of a window.
pub fn exe_file_name(path: &str) -> (r: String)
    ensures
        r@ == spec_exe_file_name(path@),
{
    let chars = crate::text::chars_of(path);
    let n = chars.len();
    let mut i: usize = n;
    while i > 0
        invariant
            chars@ == path@,
            n == path@.len(),
            i <= n,
            forall|j: int| i <= j < n ==> path@[j] != '\\',
        decreases i,
    {
        if chars[i - 1] == '\\' {
            let k = i - 1;
            assert(path@[k as int] == '\\');
            let out = String::from_str(path.substring_char(i, n));
            proof {
                let c = choose|c: int|
                    0 <= c < path@.len() && path@[c] == '\\' && forall|d: int| c < d < path@.len() ==> path@[d] != '\\';
                if c < k {
                    assert(path@[k as int] != '\\');
                }
                if c > k {
                    assert(path@[c] != '\\');
                }
            }
            return out;
        }
        i -= 1;
    }
    String::from_str(path)
}

/// The text with its trailing NUL characters taken off.
pub open spec fn trim_nuls(s: Seq<char>) -> Seq<char>
    decreases s.len(),
{
    if s.len() > 0 && s.last() == '\0' {
        trim_nuls(s.drop_last())
    } else {
        s
    }
}

/// A window's title as read into a buffer: the text up to the trailing NULs.
pub fn trim_trailing_nuls(text: &str) -> (r: String)
    ensures
        r@ == trim_nuls(text@),
{
    let chars = crate::text::chars_of(text);
    let mut k: usize = chars.len();
    assert(text@.subrange(0, k as int) =~= text@);
    while k > 0 && chars[k - 1] == '\0'
        invariant
            chars@ == text@,
            k <= text@.len(),
            trim_nuls(text@) == trim_nuls(text@.subrange(0, k as int)),
        decreases k,
    {
        assert(text@.subrange(0, k as int).drop_last() =~= text@.subrange(0, k - 1));
        k -= 1;
    }
    String::from_str(text.substring_char(0, k))
}

/// The extended window style of a tool window.
pub const WS_EX_TOOLWINDOW_BIT: u32 = 0x80;

/// A window the user works with: visible, not a tool window, titled, and
/// not cloaked (`cloaked` is the cloak attribute when it could be read).
pub fn is_real_window(visible: bool, ex_style: u32, title: &str, cloaked: Option<u32>) -> (r: bool)
    ensures
        r == (visible && ex_style & WS_EX_TOOLWINDOW_BIT == 0 && title@.len() > 0 && !(cloaked matches Some(c)
            && c != 0)),
{
    if !visible {
        return false;
    }
    if ex_style & WS_EX_TOOLWINDOW_BIT != 0 {
        return false;
    }
    if title.unicode_len() == 0 {
        return false;
    }
    match cloaked {
        Some(c) => c == 0,
        None => true,
    }
}

/// The first of the windows with handle `h`, looking from position `i` on.
pub open spec fn first_window_from(ws: Seq<TrackedWindow>, h: isize, i: int) -> Option<TrackedWindow>
    decreases ws.len() - i,
{
    if i < 0 || i >= ws.len() {
        None
    } else if ws[i].hwnd == h {
        Some(ws[i])
    } else {
        first_window_from(ws, h, i + 1)
    }
}

/// The application to bring forward for the window `h`: that of the first
/// window with handle `h`, unless it is the frontmost application `fg`.
pub open spec fn app_to_raise(ws: Seq<TrackedWindow>, h: isize, fg: Seq<char>) -> Option<Seq<char>> {
    match first_window_from(ws, h, 0) {
        Some(w) => if w.process_name@ != fg {
            Some(w.process_name@)
        } else {
            None
        },
        None => None,
    }
}

/// The texts of a list of strings.
pub open spec fn texts(v: Seq<String>) -> Seq<Seq<char>> {
    v.map_values(|s: String| s@)
}

/// `apps` names, each once, the applications to bring forward for the
/// windows bound to the group `g`.
pub open spec fn raises_group(
    apps: Seq<Seq<char>>,
    ws: Seq<TrackedWindow>,
    b: Map<isize, Seq<char>>,
    g: Seq<char>,
    fg: Seq<char>,
) -> bool {
    &&& apps.no_duplicates()
    &&& forall|a: Seq<char>|
        #[trigger] apps.contains(a) <==> exists|h: isize|
            b.contains_key(h) && b[h] == g && #[trigger] app_to_raise(ws, h, fg) == Some(a)
}

/// Some window bound to the group `g` is shown as a window of `app`.
pub open spec fn group_shows_app(b: Map<isize, Seq<char>>, ws: Seq<TrackedWindow>, g: Seq<char>, app: Seq<char>) -> bool {
    exists|h: isize| b.contains_key(h) && b[h] == g && #[trigger] crate::group::shows_app(ws, h, app)
}

/// The position of the first window with handle `h`.
fn first_window(ws: &Vec<TrackedWindow>, h: isize) -> (r: Option<usize>)
    ensures
        match r {
            Some(k) => k < ws@.len() && first_window_from(ws@, h, 0) == Some(ws@[k as int]),
            None => first_window_from(ws@, h, 0) is None,
        },
{
    let n = ws.len();
    let mut i: usize = 0;
    while i < n
        invariant
            n == ws@.len(),
            i <= n,
            first_window_from(ws@, h, 0) == first_window_from(ws@, h, i as int),
        decreases n - i,
    {
        if ws[i].hwnd == h {
            return Some(i);
        }
        i += 1;
    }
    None
}

/// Whether one of the strings has the text `t`.
fn has_text(v: &Vec<String>, t: &str) -> (r: bool)
    ensures
        r == texts(v@).contains(t@),
{
    let n = v.len();
    let mut i: usize = 0;
    while i < n
        invariant
            n == v@.len(),
            i <= n,
            forall|k: int| 0 <= k < i ==> (#[trigger] v@[k])@ != t@,
        decreases n - i,
    {
        if str_eq(v[i].as_str(), t) {
            assert(texts(v@)[i as int] == t@);
            return true;
        }
        i += 1;
    }
    proof {
        if texts(v@).contains(t@) {
            let k = choose|k: int| 0 <= k < texts(v@).len() && texts(v@)[k] == t@;
            assert(v@[k]@ == t@);
        }
    }
    false
}

/// The applications to bring forward for the windows `hs`, each once, in
/// the order of `hs`.
fn apps_to_raise(hs: &Vec<isize>, ws: &Vec<TrackedWindow>, fg: &str) -> (r: Vec<String>)
    ensures
        texts(r@).no_duplicates(),
        forall|a: Seq<char>|
            #[trigger] texts(r@).contains(a) <==> exists|k: int|
                0 <= k < hs@.len() && #[trigger] app_to_raise(ws@, hs@[k], fg@) == Some(a),
{
    let mut out: Vec<String> = Vec::new();
    let n = hs.len();
    let mut i: usize = 0;
    while i < n
        invariant
            n == hs@.len(),
            i <= n,
            texts(out@).no_duplicates(),
            forall|a: Seq<char>|
                #[trigger] texts(out@).contains(a) <==> exists|k: int|
                    0 <= k < i && #[trigger] app_to_raise(ws@, hs@[k], fg@) == Some(a),
        decreases n - i,
    {
        let ghost before = texts(out@);
        let ghost h = hs@[i as int];
        match first_window(ws, hs[i]) {
            Some(k) => {
                let p = &ws[k].process_name;
                if !str_eq(p.as_str(), fg) && !has_text(&out, p.as_str()) {
                    out.push(p.clone());
                    proof {
                        assert(texts(out@) =~= before.push(p@));
                        assert forall|a: Seq<char>|
                            #[trigger] texts(out@).contains(a) <==> exists|j: int|
                                0 <= j < i + 1 && #[trigger] app_to_raise(ws@, hs@[j], fg@) == Some(a) by {
                            if texts(out@).contains(a) {
                                let q = choose|q: int| 0 <= q < texts(out@).len() && texts(out@)[q] == a;
                                if q < before.len() {
                                    assert(before[q] == a);
                                    assert(before.contains(a));
                                } else {
                                    assert(app_to_raise(ws@, hs@[i as int], fg@) == Some(a));
                                }
                            }
                            if exists|j: int| 0 <= j < i + 1 && #[trigger] app_to_raise(ws@, hs@[j], fg@) == Some(a) {
                                let j = choose|j: int| 0 <= j < i + 1 && #[trigger] app_to_raise(ws@, hs@[j], fg@) == Some(a);
                                if j < i {
                                    assert(before.contains(a));
                                    let q = choose|q: int| 0 <= q < before.len() && before[q] == a;
                                    assert(texts(out@)[q] == a);
                                } else {
                                    assert(texts(out@)[before.len() as int] == a);
                                }
                            }
                        }
                    }
                } else {
                    proof {
                        assert forall|a: Seq<char>|
                            #[trigger] texts(out@).contains(a) <==> exists|j: int|
                                0 <= j < i + 1 && #[trigger] app_to_raise(ws@, hs@[j], fg@) == Some(a) by {
                            if exists|j: int| 0 <= j < i + 1 && #[trigger] app_to_raise(ws@, hs@[j], fg@) == Some(a) {
                                let j = choose|j: int| 0 <= j < i + 1 && #[trigger] app_to_raise(ws@, hs@[j], fg@) == Some(a);
                                if j == i {
                                    assert(app_to_raise(ws@, hs@[i as int], fg@) == Some(p@));
                                }
                            }
                            if texts(out@).contains(a) {
                                let j = choose|j: int| 0 <= j < i && #[trigger] app_to_raise(ws@, hs@[j], fg@) == Some(a);
                                assert(0 <= j < i + 1);
                            }
                        }
                    }
                }
            },
            None => {
                proof {
                    assert forall|a: Seq<char>|
                        #[trigger] texts(out@).contains(a) <==> exists|j: int|
                            0 <= j < i + 1 && #[trigger] app_to_raise(ws@, hs@[j], fg@) == Some(a) by {
                        if exists|j: int| 0 <= j < i + 1 && #[trigger] app_to_raise(ws@, hs@[j], fg@) == Some(a) {
                            let j = choose|j: int| 0 <= j < i + 1 && #[trigger] app_to_raise(ws@, hs@[j], fg@) == Some(a);
                            assert(j != i);
                        }
                        if texts(out@).contains(a) {
                            let j = choose|j: int| 0 <= j < i && #[trigger] app_to_raise(ws@, hs@[j], fg@) == Some(a);
                            assert(0 <= j < i + 1);
                        }
                    }
                }
            },
        }
        i += 1;
    }
    out
}

/// What the monitor does when it polls the frontmost application: the
/// application it has now seen last, and, when the frontmost application
/// changed to one that shows a bound window, the other applications of that
/// window's group to bring forward (after which the frontmost one is brought
/// forward again and the windows settle).
pub struct FrontmostStep {
    pub last_fg_app: String,
    pub activate: Option<Vec<String>>,
}

impl GroupManager {
    /// One poll of the frontmost application `fg_app` on a desktop showing
    /// `windows`. Nothing happens while the monitor is `suppressed` (its own
    /// activations are under way), nor when the application is unnamed or
    /// the one seen last.
    /// Otherwise the group of a bound window that `fg_app` shows is found,
    /// and the applications of the group's windows other than `fg_app`, each
    /// once, are to be brought forward. When several groups qualify, the one
    /// found first in the walk of the bindings is taken.
    pub fn on_frontmost_app(
        &self,
        suppressed: bool,
        last_fg_app: &str,
        fg_app: &str,
        windows: &Vec<TrackedWindow>,
    ) -> (r: FrontmostStep)
        ensures
            if suppressed || fg_app@ == last_fg_app@ || fg_app@.len() == 0 {
                &&& r.last_fg_app@ == last_fg_app@
                &&& r.activate is None
            } else {
                &&& r.last_fg_app@ == fg_app@
                &&& (r.activate is Some <==> exists|h: isize|
                    self.bindings().contains_key(h) && #[trigger] crate::group::shows_app(windows@, h, fg_app@))
                &&& (r.activate matches Some(apps) ==> exists|g: Seq<char>|
                    #[trigger] group_shows_app(self.bindings(), windows@, g, fg_app@) && raises_group(
                        texts(apps@),
                        windows@,
                        self.bindings(),
                        g,
                        fg_app@,
                    ))
            },
    {
        if suppressed || str_eq(fg_app, last_fg_app) || fg_app.unicode_len() == 0 {
            return FrontmostStep { last_fg_app: String::from_str(last_fg_app), activate: None };
        }
        match self.group_showing_app(fg_app, windows) {
            None => FrontmostStep { last_fg_app: String::from_str(fg_app), activate: None },
            Some(g) => {
                let sibs = self.keys_bound_to(g.as_str());
                let apps = apps_to_raise(&sibs, windows, fg_app);
                proof {
                    let b = self.bindings();
                    let h0 = choose|h: isize| b.contains_key(h) && b[h] == g@ && #[trigger] crate::group::shows_app(windows@, h, fg_app@);
                    assert(group_shows_app(b, windows@, g@, fg_app@));
                    assert forall|a: Seq<char>|
                        #[trigger] texts(apps@).contains(a) <==> exists|h: isize|
                            b.contains_key(h) && b[h] == g@ && #[trigger] app_to_raise(windows@, h, fg_app@) == Some(a) by {
                        if texts(apps@).contains(a) {
                            let k = choose|k: int| 0 <= k < sibs@.len() && #[trigger] app_to_raise(windows@, sibs@[k], fg_app@) == Some(a);
                            assert(sibs@.contains(sibs@[k]));
                        }
                        if exists|h: isize| b.contains_key(h) && b[h] == g@ && #[trigger] app_to_raise(windows@, h, fg_app@) == Some(a) {
                            let h = choose|h: isize| b.contains_key(h) && b[h] == g@ && #[trigger] app_to_raise(windows@, h, fg_app@) == Some(a);
                            assert(sibs@.contains(h));
                            let k = choose|k: int| 0 <= k < sibs@.len() && sibs@[k] == h;
                            assert(app_to_raise(windows@, sibs@[k], fg_app@) == Some(a));
                        }
                    }
                    assert(raises_group(texts(apps@), windows@, b, g@, fg_app@));
                }
                FrontmostStep { last_fg_app: String::from_str(fg_app), activate: Some(apps) }
            },
        }
    }
}

/// What a filter keeps comes from the filtered sequence and meets the predicate.
proof fn lemma_filter_keeps(s: Seq<isize>, pred: spec_fn(isize) -> bool)
    ensures
        s.filter(pred).len() <= s.len(),
        forall|k: int|
            0 <= k < s.filter(pred).len() ==> pred(#[trigger] s.filter(pred)[k]) && s.contains(
                s.filter(pred)[k],
            ),
    decreases s.len(),
{
    reveal(Seq::filter);
    if s.len() > 0 {
        let d = s.drop_last();
        lemma_filter_keeps(d, pred);
        let f = s.filter(pred);
        assert forall|k: int| 0 <= k < f.len() implies pred(#[trigger] f[k]) && s.contains(f[k]) by {
            if k < d.filter(pred).len() {
                assert(f[k] == d.filter(pred)[k]);
                let j = choose|j: int| 0 <= j < d.len() && d[j] == d.filter(pred)[k];
                assert(s[j] == f[k]);
            } else {
                assert(f[k] == s[s.len() - 1]);
            }
        }
    }
}

/// The Z-ordered windows of a group are windows of the group, never more
/// of them than the group has, each met on the walk.
pub proof fn law_zorder_stays_in_group(walk: Seq<isize>, group: Seq<isize>)
    ensures
        spec_zorder_sorted(walk, group).len() <= group.len(),
        forall|k: int|
            0 <= k < spec_zorder_sorted(walk, group).len() ==> group.contains(
                #[trigger] spec_zorder_sorted(walk, group)[k],
            ),
        forall|k: int|
            0 <= k < spec_zorder_sorted(walk, group).len() ==> walk.contains(
                #[trigger] spec_zorder_sorted(walk, group)[k],
            ),
{
    let pred = |h: isize| group.contains(h);
    let met = group_windows_in(walk, group);
    let r = spec_zorder_sorted(walk, group);
    lemma_filter_keeps(walk, pred);
    assert(met == walk.filter(pred));
    assert forall|k: int| 0 <= k < r.len() implies group.contains(#[trigger] r[k]) && walk.contains(r[k]) by {
        assert(r[k] == met[k]);
        assert(pred(met[k]));
    }
}

/// The window brought to the front comes first, and only once.
pub proof fn law_front_order_puts_activated_first(zorder: Seq<isize>, activated: isize)
    ensures
        (seq![activated] + zorder.filter(|h: isize| h != activated))[0] == activated,
        !zorder.filter(|h: isize| h != activated).contains(activated),
{
    let pred = |h: isize| h != activated;
    if zorder.filter(pred).contains(activated) {
        let k = choose|k: int| 0 <= k < zorder.filter(pred).len() && zorder.filter(pred)[k] == activated;
        zorder.lemma_filter_pred(pred, k);
    }
}

} // verus!
verus! {

/// The first recorded start of a window is the one at the first position
/// that names it.
proof fn lemma_start_of_first(starts: Seq<(isize, i32, i32)>, h: isize, k: int)
    requires
        0 <= k < starts.len(),
        starts[k].0 == h,
        forall|m: int| 0 <= m < k ==> (#[trigger] starts[m]).0 != h,
    ensures
        start_of(starts, h) == Some((starts[k].1, starts[k].2)),
    decreases k,
{
    if k > 0 {
        let d = starts.drop_first();
        assert forall|m: int| 0 <= m < k - 1 implies (#[trigger] d[m]).0 != h by {
            assert(d[m] == starts[m + 1]);
        }
        lemma_start_of_first(d, h, k - 1);
    }
}

/// A recorded start of a window is at the first position that names it.
proof fn lemma_start_of_found(starts: Seq<(isize, i32, i32)>, h: isize) -> (k: int)
    requires
        start_of(starts, h) is Some,
    ensures
        0 <= k < starts.len(),
        starts[k].0 == h,
        forall|m: int| 0 <= m < k ==> (#[trigger] starts[m]).0 != h,
        start_of(starts, h) == Some((starts[k].1, starts[k].2)),
    decreases starts.len(),
{
    if starts[0].0 == h {
        0
    } else {
        let d = starts.drop_first();
        let k = lemma_start_of_found(d, h);
        assert forall|m: int| 0 <= m < k + 1 implies (#[trigger] starts[m]).0 != h by {
            if m > 0 {
                assert(starts[m] == d[m - 1]);
            }
        }
        k + 1
    }
}

/// While a drag by `(dx, dy)` goes on, every usable sibling with a recorded
/// start `(sx, sy)` (the first one recorded for it) is moved to
/// `(sx + dx, sy + dy)`, however far the drag went.
pub proof fn law_drag_moves_every_sibling(
    infos: Seq<SiblingInfo>,
    starts: Seq<(isize, i32, i32)>,
    dx: int,
    dy: int,
    i: int,
    k: int,
)
    requires
        0 <= i < infos.len(),
        infos[i].usable,
        0 <= k < starts.len(),
        starts[k].0 == infos[i].hwnd,
        forall|m: int| 0 <= m < k ==> (#[trigger] starts[m]).0 != infos[i].hwnd,
    ensures
        moves_of(infos, starts, dx, dy).contains((infos[i].hwnd, starts[k].1 + dx, starts[k].2 + dy)),
    decreases infos.len(),
{
    lemma_start_of_first(starts, infos[i].hwnd, k);
    let d = infos.drop_last();
    let p = moves_of(d, starts, dx, dy);
    if i == infos.len() - 1 {
        assert(moves_of(infos, starts, dx, dy) == p.push((infos[i].hwnd, starts[k].1 + dx, starts[k].2 + dy)));
        assert(moves_of(infos, starts, dx, dy)[p.len() as int] == (infos[i].hwnd, starts[k].1 + dx, starts[k].2 + dy));
    } else {
        assert(d[i] == infos[i]);
        law_drag_moves_every_sibling(d, starts, dx, dy, i, k);
        let q = choose|q: int| 0 <= q < p.len() && p[q] == (infos[i].hwnd, starts[k].1 + dx, starts[k].2 + dy);
        assert(moves_of(infos, starts, dx, dy)[q] == p[q]);
    }
}

/// Every move of a drag by `(dx, dy)` is that of a usable sibling, to its
/// first recorded start shifted by the drag.
pub proof fn law_drag_moves_only_siblings(
    infos: Seq<SiblingInfo>,
    starts: Seq<(isize, i32, i32)>,
    dx: int,
    dy: int,
    q: int,
)
    requires
        0 <= q < moves_of(infos, starts, dx, dy).len(),
    ensures
        exists|i: int, k: int|
            #![trigger infos[i], starts[k]]
            0 <= i < infos.len() && infos[i].usable && 0 <= k < starts.len() && starts[k].0 == infos[i].hwnd
                && (forall|m: int| 0 <= m < k ==> (#[trigger] starts[m]).0 != infos[i].hwnd)
                && moves_of(infos, starts, dx, dy)[q] == (infos[i].hwnd, starts[k].1 + dx, starts[k].2 + dy),
    decreases infos.len(),
{
    let d = infos.drop_last();
    let p = moves_of(d, starts, dx, dy);
    if q < p.len() {
        law_drag_moves_only_siblings(d, starts, dx, dy, q);
        let (i, k) = choose|i: int, k: int|
            #![trigger d[i], starts[k]]
            0 <= i < d.len() && d[i].usable && 0 <= k < starts.len() && starts[k].0 == d[i].hwnd
                && (forall|m: int| 0 <= m < k ==> (#[trigger] starts[m]).0 != d[i].hwnd)
                && p[q] == (d[i].hwnd, starts[k].1 + dx, starts[k].2 + dy);
        assert(infos[i] == d[i]);
        assert(moves_of(infos, starts, dx, dy)[q] == p[q]);
    } else {
        let i = infos.len() - 1;
        assert(infos[i] == infos.last());
        let k = lemma_start_of_found(starts, infos[i].hwnd);
        assert(moves_of(infos, starts, dx, dy)[q] == (infos[i].hwnd, starts[k].1 + dx, starts[k].2 + dy));
    }
}

} // verus!
verus! {

/// A foreground event on a window that already has a sibling (another
/// window bound to its group) binds nothing anew: the bindings stay as
/// they are, the window keeps a sibling, and the windows brought to the
/// front before it are listed exactly when they are, each once, the other
/// windows bound to its current group.
pub proof fn law_foreground_keeps_bound_group(
    groups: Seq<crate::group::WindowGroup>,
    b: Map<isize, Seq<char>>,
    hwnd: isize,
    window: Option<TrackedWindow>,
    h: isize,
)
    requires
        h != hwnd,
        b.contains_key(hwnd),
        b.contains_key(h),
        b[h] == b[hwnd],
    ensures
        bindings_after_foreground(groups, b, hwnd, window) == b,
        has_sibling(bindings_after_foreground(groups, b, hwnd, window), hwnd),
        forall|v: Seq<isize>|
            lists_siblings(v, bindings_after_foreground(groups, b, hwnd, window), hwnd) <==> (v.no_duplicates()
                && forall|x: isize| #[trigger] v.contains(x) <==> (x != hwnd && b.contains_key(x) && b[x] == b[hwnd])),
{
    assert(is_sibling(b, hwnd, h));
    assert(has_sibling(b, hwnd));
}

} // verus!
verus! {

/// When some group matches a window, a first one does.
proof fn lemma_first_matching_group(groups: Seq<crate::group::WindowGroup>, w: TrackedWindow, g: int)
    requires
        0 <= g < groups.len(),
        groups[g].spec_matches_window(w),
    ensures
        exists|m: int|
            0 <= m < groups.len() && #[trigger] groups[m].spec_matches_window(w) && forall|j: int|
                0 <= j < m ==> !#[trigger] groups[j].spec_matches_window(w),
    decreases g,
{
    if exists|j: int| 0 <= j < g && #[trigger] groups[j].spec_matches_window(w) {
        let j = choose|j: int| 0 <= j < g && #[trigger] groups[j].spec_matches_window(w);
        lemma_first_matching_group(groups, w, j);
    } else {
        assert(forall|j: int| 0 <= j < g ==> !#[trigger] groups[j].spec_matches_window(w));
    }
}

/// A foreground event on a window without a sibling binds it to the first
/// group, in the manager's order, whose matchers recognise it; when no
/// group does, or the window is not a real one, the bindings stay as they
/// are.
pub proof fn law_foreground_binds_lone_window(
    groups: Seq<crate::group::WindowGroup>,
    b: Map<isize, Seq<char>>,
    hwnd: isize,
    window: Option<TrackedWindow>,
)
    requires
        forall|h: isize| !(h != hwnd && b.contains_key(hwnd) && b.contains_key(h) && #[trigger] b[h] == b[hwnd]),
    ensures
        match window {
            Some(w) => if exists|g: int| 0 <= g < groups.len() && #[trigger] groups[g].spec_matches_window(w) {
                exists|g: int|
                    0 <= g < groups.len() && #[trigger] groups[g].spec_matches_window(w) && (forall|j: int|
                        0 <= j < g ==> !#[trigger] groups[j].spec_matches_window(w)) && bindings_after_foreground(
                        groups,
                        b,
                        hwnd,
                        window,
                    ) == b.insert(hwnd, groups[g].id@)
            } else {
                bindings_after_foreground(groups, b, hwnd, window) == b
            },
            None => bindings_after_foreground(groups, b, hwnd, window) == b,
        },
{
    assert(!has_sibling(b, hwnd)) by {
        if has_sibling(b, hwnd) {
            let h = choose|h: isize| is_sibling(b, hwnd, h);
            assert(b[h] == b[hwnd]);
        }
    }
    match window {
        Some(w) => {
            if exists|g: int| 0 <= g < groups.len() && #[trigger] groups[g].spec_matches_window(w) {
                let g = choose|g: int| 0 <= g < groups.len() && #[trigger] groups[g].spec_matches_window(w);
                lemma_first_matching_group(groups, w, g);
                let m = first_match(groups, w)->0;
                assert(first_match(groups, w) is Some);
                assert(groups[m].spec_matches_window(w));
            }
        },
        None => {},
    }
}

} // verus!
