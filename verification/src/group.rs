//! Window groups, the matchers that recognise their windows, and the
//! manager that binds live window handles to groups.

use std::collections::HashMap;
use vstd::prelude::*;
use vstd::std_specs::hash::spec_hash_map_iter;
use vstd::std_specs::iter::IteratorSpec;
use crate::text::{contains_seq, text_lower, str_contains, str_eq, to_lowercase};

verus! {

broadcast use vstd::std_specs::hash::group_hash_axioms;

/// Identifies a window for matching purposes.
#[derive(Debug, Clone)]
pub struct WindowMatcher {
    /// The process executable name (e.g., "Code.exe")
    pub process_name: Option<String>,
    /// Substring match on window title
    pub title_contains: Option<String>,
    /// Exact window class name (Win32)
    pub class_name: Option<String>,
}

/// A runtime window handle with metadata.
#[derive(Debug, Clone)]
pub struct TrackedWindow {
    pub hwnd: isize,
    pub process_name: String,
    pub title: String,
    pub class_name: String,
}

impl TrackedWindow {
    /// A copy of the window's handle and texts.
    pub fn duplicate(&self) -> (r: Self)
        ensures
            r == *self,
    {
        TrackedWindow {
            hwnd: self.hwnd,
            process_name: self.process_name.clone(),
            title: self.title.clone(),
            class_name: self.class_name.clone(),
        }
    }
}

/// A group of windows that should be bound together.
#[derive(Debug, Clone)]
pub struct WindowGroup {
    pub id: String,
    pub name: String,
    pub window_matchers: Vec<WindowMatcher>,
    pub enabled: bool,
    /// Whether to sync minimize/restore
    pub sync_minimize: bool,
    /// Whether to sync move/resize (keeping relative positions)
    pub sync_move: bool,
}

/// An optional pattern that, when present, must equal the value ignoring case.
pub open spec fn equal_ignoring_case(pat: Option<String>, value: Seq<char>) -> bool {
    match pat {
        None => true,
        Some(p) => text_lower(value) == text_lower(p@),
    }
}

/// An optional pattern that, when present, must occur in the value ignoring case.
pub open spec fn contained_ignoring_case(pat: Option<String>, value: Seq<char>) -> bool {
    match pat {
        None => true,
        Some(p) => contains_seq(text_lower(value), text_lower(p@)),
    }
}

/// A matcher that names a process and nothing else.
pub open spec fn is_process_matcher(m: WindowMatcher, name: Seq<char>) -> bool {
    &&& m.process_name matches Some(p) && p@ == name
    &&& m.title_contains is None
    &&& m.class_name is None
}

/// A matcher that names a title substring and nothing else.
pub open spec fn is_title_matcher(m: WindowMatcher, title: Seq<char>) -> bool {
    &&& m.process_name is None
    &&& m.title_contains matches Some(t) && t@ == title
    &&& m.class_name is None
}

impl WindowMatcher {
    /// Every field that the matcher sets agrees with the window.
    pub open spec fn spec_matches(self, w: TrackedWindow) -> bool {
        &&& equal_ignoring_case(self.process_name, w.process_name@)
        &&& contained_ignoring_case(self.title_contains, w.title@)
        &&& equal_ignoring_case(self.class_name, w.class_name@)
    }

    pub fn by_process(name: &str) -> (r: Self)
        ensures
            is_process_matcher(r, name@),
    {
        WindowMatcher {
            process_name: Some(String::from_str(name)),
            title_contains: None,
            class_name: None,
        }
    }

    pub fn by_title(title: &str) -> (r: Self)
        ensures
            is_title_matcher(r, title@),
    {
        WindowMatcher {
            process_name: None,
            title_contains: Some(String::from_str(title)),
            class_name: None,
        }
    }

    /// Whether this matcher accepts the window.
    pub fn matches(&self, window: &TrackedWindow) -> (r: bool)
        ensures
            r == self.spec_matches(*window),
    {
        let proc_match = match &self.process_name {
            None => true,
            Some(p) => {
                let a = to_lowercase(window.process_name.as_str());
                let b = to_lowercase(p.as_str());
                a == b
            },
        };
        let title_match = match &self.title_contains {
            None => true,
            Some(t) => {
                let a = to_lowercase(window.title.as_str());
                let b = to_lowercase(t.as_str());
                str_contains(a.as_str(), b.as_str())
            },
        };
        let class_match = match &self.class_name {
            None => true,
            Some(c) => {
                let a = to_lowercase(window.class_name.as_str());
                let b = to_lowercase(c.as_str());
                a == b
            },
        };
        proc_match && title_match && class_match
    }
}

/// The text of a version 4 UUID in its hyphenated lower-case form:
/// 36 characters, hyphens at 8, 13, 18 and 23, lower-case hex digits
/// elsewhere, the version digit `4` at 14 and a variant digit of
/// `8`, `9`, `a` or `b` at 19.
pub open spec fn is_uuid_v4_text(s: Seq<char>) -> bool {
    &&& s.len() == 36
    &&& forall|i: int|
        0 <= i < 36 ==> if i == 8 || i == 13 || i == 18 || i == 23 {
            s[i] == '-'
        } else {
            ('0' <= #[trigger] s[i] <= '9') || ('a' <= s[i] <= 'f')
        }
    &&& s[14] == '4'
    &&& (s[19] == '8' || s[19] == '9' || s[19] == 'a' || s[19] == 'b')
}

/// Calls `uuid::Uuid::new_v4` and formats the result with `to_string`.
/// The value is random; what is stated is the shape of its text, which
/// the crate's `Display` impl (hyphenated, lower-case) and the version and
/// variant bits that `new_v4` sets give. The random bytes come from the
/// operating system's random source; `new_v4` panics only when that source
/// fails, which no input of this function decides.
#[verifier::external_body]
fn new_group_id() -> (id: String)
    ensures
        is_uuid_v4_text(id@),
{
    uuid::Uuid::new_v4().to_string()
}

/// A group of the given name with the given id, enabled, syncing both
/// minimize/restore and moves, and with no matchers yet.
pub open spec fn is_fresh_group(g: WindowGroup, id: Seq<char>, name: Seq<char>) -> bool {
    &&& g.id@ == id
    &&& g.name@ == name
    &&& g.window_matchers@.len() == 0
    &&& g.enabled
    &&& g.sync_minimize
    &&& g.sync_move
}

impl WindowGroup {
    /// Some matcher of an enabled group accepts the window.
    pub open spec fn spec_matches_window(self, w: TrackedWindow) -> bool {
        &&& self.enabled
        &&& exists|i: int|
            0 <= i < self.window_matchers@.len() && #[trigger] self.window_matchers@[i].spec_matches(w)
    }

    /// A new group with a fresh random id.
    pub fn new(name: &str) -> (r: Self)
        ensures
            is_fresh_group(r, r.id@, name@),
            is_uuid_v4_text(r.id@),
    {
        let id = new_group_id();
        Self::with_id(id, name)
    }

    /// A new group with the given id.
    pub fn with_id(id: String, name: &str) -> (r: Self)
        ensures
            is_fresh_group(r, id@, name@),
    {
        WindowGroup {
            id,
            name: String::from_str(name),
            window_matchers: Vec::new(),
            enabled: true,
            sync_minimize: true,
            sync_move: true,
        }
    }

    pub fn add_matcher(&mut self, matcher: WindowMatcher)
        ensures
            final(self).window_matchers@ == old(self).window_matchers@.push(matcher),
            final(self).id == old(self).id,
            final(self).name == old(self).name,
            final(self).enabled == old(self).enabled,
            final(self).sync_minimize == old(self).sync_minimize,
            final(self).sync_move == old(self).sync_move,
    {
        self.window_matchers.push(matcher);
    }

    /// Check if a window matches any matcher in this group.
    pub fn matches_window(&self, window: &TrackedWindow) -> (r: bool)
        ensures
            r == self.spec_matches_window(*window),
    {
        if !self.enabled {
            return false;
        }
        let n = self.window_matchers.len();
        let mut i: usize = 0;
        while i < n
            invariant
                n == self.window_matchers@.len(),
                self.enabled,
                i <= n,
                forall|k: int| 0 <= k < i ==> !#[trigger] self.window_matchers@[k].spec_matches(*window),
            decreases n - i,
        {
            if self.window_matchers[i].matches(window) {
                assert(self.window_matchers@[i as int].spec_matches(*window));
                return true;
            }
            i += 1;
        }
        false
    }
}

/// One of the windows has handle `h` and belongs to the application `app`.
pub open spec fn shows_app(windows: Seq<TrackedWindow>, h: isize, app: Seq<char>) -> bool {
    exists|k: int| 0 <= k < windows.len() && (#[trigger] windows[k]).hwnd == h && windows[k].process_name@ == app
}

/// Whether one of the windows has handle `h` and belongs to the application `app`.
pub fn window_shows_app(windows: &Vec<TrackedWindow>, h: isize, app: &str) -> (r: bool)
    ensures
        r == shows_app(windows@, h, app@),
{
    let n = windows.len();
    let mut i: usize = 0;
    while i < n
        invariant
            n == windows@.len(),
            i <= n,
            forall|k: int| 0 <= k < i ==> !((#[trigger] windows@[k]).hwnd == h && windows@[k].process_name@ == app@),
        decreases n - i,
    {
        if windows[i].hwnd == h && str_eq(windows[i].process_name.as_str(), app) {
            return true;
        }
        i += 1;
    }
    false
}

/// Manages all window groups and runtime state.
pub struct GroupManager {
    /// Defined groups
    pub groups: Vec<WindowGroup>,
    /// Currently tracked live windows mapped to their group id
    /// Key: hwnd (as isize), Value: group_id
    pub active_bindings: HashMap<isize, String>,
    /// Suppression flag to avoid recursive activation loops
    pub suppressed: bool,
}

/// The group that a binding map gives a window, if any.
pub open spec fn group_of(b: Map<isize, Seq<char>>, hwnd: isize) -> Option<Seq<char>> {
    if b.contains_key(hwnd) {
        Some(b[hwnd])
    } else {
        None
    }
}

/// `other` is a window of the same group as `hwnd`, and not `hwnd` itself.
pub open spec fn is_sibling(b: Map<isize, Seq<char>>, hwnd: isize, other: isize) -> bool {
    &&& other != hwnd
    &&& b.contains_key(hwnd)
    &&& b.contains_key(other)
    &&& b[other] == b[hwnd]
}

/// The bindings with every binding to `gid` taken out.
pub open spec fn without_group(b: Map<isize, Seq<char>>, gid: Seq<char>) -> Map<isize, Seq<char>> {
    b.restrict(Set::new(|h: isize| b.contains_key(h) && b[h] != gid))
}

/// The bindings with every window of `hwnds` bound to `gid`.
pub open spec fn with_all_bound(b: Map<isize, Seq<char>>, hwnds: Set<isize>, gid: Seq<char>) -> Map<
    isize,
    Seq<char>,
> {
    Map::new(
        |h: isize| b.contains_key(h) || hwnds.contains(h),
        |h: isize|
            if hwnds.contains(h) {
                gid
            } else {
                b[h]
            },
    )
}

/// The groups whose id is not `gid`, in their order.
pub open spec fn groups_without(groups: Seq<WindowGroup>, gid: Seq<char>) -> Seq<WindowGroup> {
    groups.filter(|g: WindowGroup| g.id@ != gid)
}

/// The first group that matches the window, if any.
pub open spec fn first_match(groups: Seq<WindowGroup>, w: TrackedWindow) -> Option<int> {
    if exists|i: int| 0 <= i < groups.len() && #[trigger] groups[i].spec_matches_window(w) {
        Some(
            choose|i: int|
                0 <= i < groups.len() && #[trigger] groups[i].spec_matches_window(w) && forall|j: int|
                    0 <= j < i ==> !#[trigger] groups[j].spec_matches_window(w),
        )
    } else {
        None
    }
}

/// The names of the sequence, each once, in the order of first occurrence.
pub open spec fn distinct_in_order(names: Seq<Seq<char>>) -> Seq<Seq<char>>
    decreases names.len(),
{
    if names.len() == 0 {
        Seq::empty()
    } else {
        let d = distinct_in_order(names.drop_last());
        if d.contains(names.last()) {
            d
        } else {
            d.push(names.last())
        }
    }
}

/// The process names of the picked windows, in order.
pub open spec fn picked_process_names(hwnds: Seq<(isize, String, String)>) -> Seq<Seq<char>> {
    hwnds.map_values(|t: (isize, String, String)| t.1@)
}

/// The handles of the picked windows.
pub open spec fn picked_handles(hwnds: Seq<(isize, String, String)>) -> Set<isize> {
    Set::new(|h: isize| exists|i: int| 0 <= i < hwnds.len() && #[trigger] hwnds[i].0 == h)
}

/// The name of the first group with id `gid`, or the empty text when none has it.
pub open spec fn name_of_group(groups: Seq<WindowGroup>, gid: Seq<char>) -> Seq<char>
    decreases groups.len(),
{
    if groups.len() == 0 {
        Seq::empty()
    } else if groups[0].id@ == gid {
        groups[0].name@
    } else {
        name_of_group(groups.drop_first(), gid)
    }
}

/// A group made from picked windows: the given id and name, enabled,
/// syncing both minimize/restore and moves, with one process matcher for
/// each distinct process name, in the order of first occurrence.
pub open spec fn is_created_group(g: WindowGroup, id: Seq<char>, name: Seq<char>, procs: Seq<Seq<char>>) -> bool {
    &&& g.id@ == id
    &&& g.name@ == name
    &&& g.enabled
    &&& g.sync_minimize
    &&& g.sync_move
    &&& g.window_matchers@.len() == distinct_in_order(procs).len()
    &&& forall|i: int|
        0 <= i < g.window_matchers@.len() ==> is_process_matcher(
            #[trigger] g.window_matchers@[i],
            distinct_in_order(procs)[i],
        )
}

/// The matcher names exactly this process (whatever else it names).
pub open spec fn names_process(m: WindowMatcher, p: Seq<char>) -> bool {
    m.process_name matches Some(q) && q@ == p
}

/// Whether some matcher names exactly this process.
fn has_process_matcher(matchers: &Vec<WindowMatcher>, process_name: &str) -> (r: bool)
    ensures
        r == exists|k: int|
            0 <= k < matchers@.len() && names_process(#[trigger] matchers@[k], process_name@),
{
    let n = matchers.len();
    let mut i: usize = 0;
    while i < n
        invariant
            n == matchers@.len(),
            i <= n,
            forall|k: int|
                0 <= k < i ==> !names_process(#[trigger] matchers@[k], process_name@),
        decreases n - i,
    {
        match &matchers[i].process_name {
            Some(q) => {
                if str_eq(q.as_str(), process_name) {
                    assert(names_process(matchers@[i as int], process_name@));
                    return true;
                }
            },
            None => {},
        }
        i += 1;
    }
    false
}

impl GroupManager {
    /// The bindings, window handle to group id.
    pub open spec fn bindings(&self) -> Map<isize, Seq<char>> {
        self.active_bindings@.map_values(|s: String| s@)
    }

    pub fn new() -> (r: Self)
        ensures
            r.groups@ == Seq::<WindowGroup>::empty(),
            r.bindings() == Map::<isize, Seq<char>>::empty(),
            !r.suppressed,
    {
        let r = GroupManager { groups: Vec::new(), active_bindings: HashMap::new(), suppressed: false };
        assert(r.bindings() =~= Map::<isize, Seq<char>>::empty());
        r
    }

    pub fn add_group(&mut self, group: WindowGroup)
        ensures
            final(self).groups@ == old(self).groups@.push(group),
            final(self).bindings() == old(self).bindings(),
            final(self).suppressed == old(self).suppressed,
    {
        self.groups.push(group);
    }

    /// Register a live window handle to a group.
    pub fn bind_window(&mut self, hwnd: isize, group_id: &str)
        ensures
            final(self).bindings() == old(self).bindings().insert(hwnd, group_id@),
            final(self).groups == old(self).groups,
            final(self).suppressed == old(self).suppressed,
    {
        self.active_bindings.insert(hwnd, String::from_str(group_id));
        assert(self.bindings() =~= old(self).bindings().insert(hwnd, group_id@));
    }

    /// Unregister a window handle.
    pub fn unbind_window(&mut self, hwnd: isize)
        ensures
            final(self).bindings() == old(self).bindings().remove(hwnd),
            final(self).groups == old(self).groups,
            final(self).suppressed == old(self).suppressed,
    {
        self.active_bindings.remove(&hwnd);
        assert(self.bindings() =~= old(self).bindings().remove(hwnd));
    }

    /// Find which group a window belongs to.
    pub fn find_group_for_hwnd(&self, hwnd: isize) -> (r: Option<&str>)
        ensures
            match r {
                Some(g) => group_of(self.bindings(), hwnd) == Some(g@),
                None => group_of(self.bindings(), hwnd) is None,
            },
    {
        match self.active_bindings.get(&hwnd) {
            Some(s) => Some(s.as_str()),
            None => None,
        }
    }

    /// Get a snapshot of all groups for serialization.
    pub fn get_groups(&self) -> (r: &[WindowGroup])
        ensures
            r@ == self.groups@,
    {
        self.groups.as_slice()
    }

    /// Get all hwnds in the same group as the given hwnd (excluding itself).
    /// Their order is that in which the map is walked, which is left open.
    pub fn get_sibling_hwnds(&self, hwnd: isize) -> (r: Vec<isize>)
        ensures
            r@.no_duplicates(),
            forall|h: isize| #[trigger] r@.contains(h) <==> is_sibling(self.bindings(), hwnd, h),
    {
        let group_id = match self.active_bindings.get(&hwnd) {
            Some(g) => g,
            None => {
                return Vec::new();
            },
        };
        let ghost m = self.active_bindings@;
        let mut out: Vec<isize> = Vec::new();
        for entry in it: self.active_bindings.iter()
            invariant
                m == self.active_bindings@,
                m.contains_key(hwnd),
                m[hwnd] == *group_id,
                it.seq() == spec_hash_map_iter(&self.active_bindings).remaining(),
                it.seq().no_duplicates(),
                out@.no_duplicates(),
                forall|j: int|
                    0 <= j < it.index() && *it.seq()[j].0 != hwnd && it.seq()[j].1@ == group_id@
                        ==> out@.contains(*#[trigger] it.seq()[j].0),
                forall|h: isize|
                    #[trigger] out@.contains(h) ==> exists|j: int|
                        0 <= j < it.index() && *it.seq()[j].0 == h && h != hwnd && it.seq()[j].1@
                            == group_id@,
        {
            let ghost idx = it.index();
            let ghost before_loop = out@;
            let (h, gid) = entry;
            assert(entry == it.seq()[it.index()]);
            if *h != hwnd && str_eq(gid.as_str(), group_id.as_str()) {
                proof {
                    let v = it.seq();
                    let i = it.index();
                    assert forall|j: int| 0 <= j < i && *v[j].0 == *h implies false by {
                        assert(m.contains_key(*v[j].0));
                        assert(m.contains_key(*v[i].0));
                        assert(v[j] == v[i]);
                    }
                    assert(!out@.contains(*h));
                }
                let ghost before = out@;
                out.push(*h);
                proof {
                    assert forall|x: isize| before.contains(x) implies #[trigger] out@.contains(x) by {
                        let k = choose|k: int| 0 <= k < before.len() && before[k] == x;
                        assert(out@[k] == x);
                    }
                    assert(out@[before.len() as int] == *h);
                    assert forall|x: isize| #[trigger] out@.contains(x) implies before.contains(x) || x == *h by {
                        let k = choose|k: int| 0 <= k < out@.len() && out@[k] == x;
                        if k < before.len() {
                            assert(before[k] == x);
                        }
                    }
                }
            }
            proof {
                let v = it.seq();
                assert forall|j: int|
                    0 <= j < idx + 1 && *v[j].0 != hwnd && v[j].1@ == group_id@ implies out@.contains(
                        *#[trigger] v[j].0,
                    ) by {
                    if j < idx {
                        assert(before_loop.contains(*v[j].0));
                    }
                }
                assert forall|x: isize| #[trigger] out@.contains(x) implies exists|j: int|
                    0 <= j < idx + 1 && *v[j].0 == x && x != hwnd && v[j].1@ == group_id@ by {
                    if before_loop.contains(x) {
                        let j = choose|j: int|
                            0 <= j < idx && *v[j].0 == x && x != hwnd && v[j].1@ == group_id@;
                        assert(0 <= j < idx + 1 && *v[j].0 == x);
                    } else {
                        assert(*v[idx].0 == x);
                    }
                }
            }
        }
        proof {
            let v = spec_hash_map_iter(&self.active_bindings).remaining();
            assert forall|h: isize| #[trigger] out@.contains(h) <==> is_sibling(self.bindings(), hwnd, h) by {
                if is_sibling(self.bindings(), hwnd, h) {
                    assert(v.contains((&h, &m[h])));
                    let j = choose|j: int| 0 <= j < v.len() && v[j] == (&h, &m[h]);
                    assert(*v[j].0 == h);
                }
                if out@.contains(h) {
                    let j = choose|j: int|
                        0 <= j < v.len() && *v[j].0 == h && h != hwnd && v[j].1@ == group_id@;
                    assert(m.contains_key(*v[j].0));
                }
            }
        }
        out
    }

    /// The windows bound to `group_id`, each once, in the order in which the map is walked.
    pub(crate) fn keys_bound_to(&self, group_id: &str) -> (r: Vec<isize>)
        ensures
            forall|h: isize|
                #[trigger] r@.contains(h) <==> (self.bindings().contains_key(h) && self.bindings()[h]
                    == group_id@),
    {
        let ghost m = self.active_bindings@;
        let mut out: Vec<isize> = Vec::new();
        for entry in it: self.active_bindings.iter()
            invariant
                m == self.active_bindings@,
                it.seq() == spec_hash_map_iter(&self.active_bindings).remaining(),
                forall|j: int|
                    0 <= j < it.index() && it.seq()[j].1@ == group_id@ ==> out@.contains(
                        *#[trigger] it.seq()[j].0,
                    ),
                forall|h: isize|
                    #[trigger] out@.contains(h) ==> exists|j: int|
                        0 <= j < it.index() && *it.seq()[j].0 == h && it.seq()[j].1@ == group_id@,
        {
            let ghost idx = it.index();
            let ghost before = out@;
            let (h, gid) = entry;
            assert(entry == it.seq()[it.index()]);
            if str_eq(gid.as_str(), group_id) {
                out.push(*h);
                proof {
                    assert forall|x: isize| before.contains(x) implies #[trigger] out@.contains(x) by {
                        let k = choose|k: int| 0 <= k < before.len() && before[k] == x;
                        assert(out@[k] == x);
                    }
                    assert(out@[before.len() as int] == *h);
                    assert forall|x: isize| #[trigger] out@.contains(x) implies before.contains(x) || x == *h by {
                        let k = choose|k: int| 0 <= k < out@.len() && out@[k] == x;
                        if k < before.len() {
                            assert(before[k] == x);
                        }
                    }
                }
            }
            proof {
                let v = it.seq();
                assert forall|j: int|
                    0 <= j < idx + 1 && v[j].1@ == group_id@ implies out@.contains(*#[trigger] v[j].0) by {
                    if j < idx {
                        assert(before.contains(*v[j].0));
                    }
                }
                assert forall|x: isize| #[trigger] out@.contains(x) implies exists|j: int|
                    0 <= j < idx + 1 && *v[j].0 == x && v[j].1@ == group_id@ by {
                    if before.contains(x) {
                        let j = choose|j: int| 0 <= j < idx && *v[j].0 == x && v[j].1@ == group_id@;
                        assert(0 <= j < idx + 1 && *v[j].0 == x);
                    } else {
                        assert(*v[idx].0 == x);
                    }
                }
            }
        }
        proof {
            let v = spec_hash_map_iter(&self.active_bindings).remaining();
            assert forall|h: isize|
                #[trigger] out@.contains(h) <==> (self.bindings().contains_key(h) && self.bindings()[h]
                    == group_id@) by {
                if self.bindings().contains_key(h) && self.bindings()[h] == group_id@ {
                    assert(v.contains((&h, &m[h])));
                    let j = choose|j: int| 0 <= j < v.len() && v[j] == (&h, &m[h]);
                    assert(*v[j].0 == h);
                }
                if out@.contains(h) {
                    let j = choose|j: int| 0 <= j < v.len() && *v[j].0 == h && v[j].1@ == group_id@;
                    assert(m.contains_key(*v[j].0));
                }
            }
        }
        out
    }

    /// The group of some bound window that one of `windows` shows as a
    /// window of the application `app`; which one, when several do, follows
    /// the order in which the map is walked.
    pub(crate) fn group_showing_app(&self, app: &str, windows: &Vec<TrackedWindow>) -> (r: Option<String>)
        ensures
            match r {
                Some(g) => exists|h: isize|
                    self.bindings().contains_key(h) && self.bindings()[h] == g@ && #[trigger] shows_app(
                        windows@,
                        h,
                        app@,
                    ),
                None => forall|h: isize|
                    self.bindings().contains_key(h) ==> !#[trigger] shows_app(windows@, h, app@),
            },
    {
        let ghost m = self.active_bindings@;
        for entry in it: self.active_bindings.iter()
            invariant
                m == self.active_bindings@,
                it.seq() == spec_hash_map_iter(&self.active_bindings).remaining(),
                forall|j: int| 0 <= j < it.index() ==> !shows_app(windows@, *#[trigger] it.seq()[j].0, app@),
        {
            let (h, gid) = entry;
            assert(entry == it.seq()[it.index()]);
            if window_shows_app(windows, *h, app) {
                assert(m.contains_key(*h));
                return Some(gid.clone());
            }
        }
        proof {
            let v = spec_hash_map_iter(&self.active_bindings).remaining();
            assert forall|h: isize| self.bindings().contains_key(h) implies !#[trigger] shows_app(windows@, h, app@) by {
                assert(v.contains((&h, &m[h])));
                let j = choose|j: int| 0 <= j < v.len() && v[j] == (&h, &m[h]);
                assert(*v[j].0 == h);
            }
        }
        None
    }

    /// Remove a group and every binding to it.
    pub fn remove_group(&mut self, group_id: &str)
        ensures
            final(self).groups@ == groups_without(old(self).groups@, group_id@),
            final(self).bindings() == without_group(old(self).bindings(), group_id@),
            final(self).suppressed == old(self).suppressed,
    {
        let mut old_groups: Vec<WindowGroup> = Vec::new();
        std::mem::swap(&mut old_groups, &mut self.groups);
        let ghost orig = old_groups@;
        let ghost pred = |g: WindowGroup| g.id@ != group_id@;
        let mut kept: Vec<WindowGroup> = Vec::new();
        for g in it: old_groups.into_iter()
            invariant
                it.seq() == orig,
                kept@ == orig.take(it.index()).filter(pred),
                pred == |g: WindowGroup| g.id@ != group_id@,
        {
            proof {
                let i = it.index();
                assert(orig.take(i + 1) =~= orig.take(i).push(orig[i]));
                orig.take(i).lemma_filter_push(orig[i], pred);
            }
            if !str_eq(g.id.as_str(), group_id) {
                kept.push(g);
            }
        }
        assert(orig.take(orig.len() as int) =~= orig);
        self.groups = kept;

        let stale = self.keys_bound_to(group_id);
        let ghost b0 = self.bindings();
        let n = stale.len();
        let mut i: usize = 0;
        while i < n
            invariant
                n == stale@.len(),
                i <= n,
                forall|h: isize|
                    #[trigger] stale@.contains(h) <==> (b0.contains_key(h) && b0[h] == group_id@),
                self.bindings() == b0.remove_keys(stale@.take(i as int).to_set()),
                self.groups@ == groups_without(old(self).groups@, group_id@),
                self.suppressed == old(self).suppressed,
            decreases n - i,
        {
            let ghost before = self.bindings();
            self.active_bindings.remove(&stale[i]);
            proof {
                assert(self.bindings() =~= before.remove(stale@[i as int]));
                assert(stale@.take(i + 1) =~= stale@.take(i as int).push(stale@[i as int]));
                assert(stale@.take(i + 1).to_set() =~= stale@.take(i as int).to_set().insert(
                    stale@[i as int],
                )) by {
                    assert forall|x: isize| #[trigger] stale@.take(i + 1).contains(x) <==> (stale@.take(
                        i as int,
                    ).contains(x) || x == stale@[i as int]) by {
                        if stale@.take(i + 1).contains(x) {
                            let k = choose|k: int| 0 <= k < i + 1 && #[trigger] stale@.take(i + 1)[k] == x;
                            if k < i {
                                assert(stale@.take(i as int)[k] == x);
                            }
                        }
                        if stale@.take(i as int).contains(x) {
                            let k = choose|k: int| 0 <= k < i && #[trigger] stale@.take(i as int)[k] == x;
                            assert(stale@.take(i + 1)[k] == x);
                        }
                        if x == stale@[i as int] {
                            assert(stale@.take(i + 1)[i as int] == x);
                        }
                    }
                }
                assert(self.bindings() =~= b0.remove_keys(stale@.take(i + 1).to_set()));
            }
            i += 1;
        }
        assert(stale@.take(n as int) =~= stale@);
        assert(self.bindings() =~= without_group(old(self).bindings(), group_id@));
    }

    /// Try to match a window to a group and auto-bind it.
    pub fn try_auto_bind(&mut self, window: &TrackedWindow) -> (r: Option<String>)
        ensures
            match first_match(old(self).groups@, *window) {
                Some(i) => {
                    &&& r is Some
                    &&& r->0@ == old(self).groups@[i].id@
                    &&& final(self).bindings() == old(self).bindings().insert(window.hwnd, old(self).groups@[i].id@)
                },
                None => {
                    &&& r is None
                    &&& final(self).bindings() == old(self).bindings()
                },
            },
            final(self).groups == old(self).groups,
            final(self).suppressed == old(self).suppressed,
    {
        let n = self.groups.len();
        let mut i: usize = 0;
        while i < n
            invariant
                n == self.groups@.len(),
                i <= n,
                self.groups == old(self).groups,
                self.active_bindings == old(self).active_bindings,
                self.suppressed == old(self).suppressed,
                forall|k: int| 0 <= k < i ==> !#[trigger] self.groups@[k].spec_matches_window(*window),
            decreases n - i,
        {
            if self.groups[i].matches_window(window) {
                let gid = self.groups[i].id.clone();
                proof {
                    let gs = self.groups@;
                    assert(0 <= i < gs.len() && gs[i as int].spec_matches_window(*window));
                    let c = first_match(gs, *window)->0;
                    assert(first_match(gs, *window) is Some);
                    if c < i {
                        assert(!gs[c].spec_matches_window(*window));
                    }
                    if c > i {
                        assert(!gs[i as int].spec_matches_window(*window));
                    }
                }
                self.active_bindings.insert(window.hwnd, gid.clone());
                assert(self.bindings() =~= old(self).bindings().insert(window.hwnd, gid@));
                return Some(gid);
            }
            i += 1;
        }
        None
    }

    /// Create a group from a set of picked window handles: one process
    /// matcher per distinct process name, and every picked window bound
    /// to the new group.
    pub fn create_group_from_hwnds(&mut self, name: &str, hwnds: Vec<(isize, String, String)>) -> (r: String)
        ensures
            is_uuid_v4_text(r@),
            final(self).groups@.len() == old(self).groups@.len() + 1,
            final(self).groups@.drop_last() == old(self).groups@,
            is_created_group(final(self).groups@.last(), r@, name@, picked_process_names(hwnds@)),
            final(self).bindings() == with_all_bound(old(self).bindings(), picked_handles(hwnds@), r@),
            final(self).suppressed == old(self).suppressed,
    {
        let mut group = WindowGroup::new(name);
        let ghost procs = picked_process_names(hwnds@);
        let ghost id = group.id@;
        let n = hwnds.len();
        let mut i: usize = 0;
        while i < n
            invariant
                n == hwnds@.len(),
                i <= n,
                procs == picked_process_names(hwnds@),
                is_uuid_v4_text(id),
                is_created_group(group, id, name@, procs.take(i as int)),
            decreases n - i,
        {
            let ghost d = distinct_in_order(procs.take(i as int));
            let pn = &hwnds[i].1;
            proof {
                assert(procs.take(i + 1).drop_last() =~= procs.take(i as int));
                assert(procs.take(i + 1).last() == pn@);
                assert forall|x: Seq<char>| d.contains(x) <==> exists|k: int|
                    0 <= k < group.window_matchers@.len() && names_process(#[trigger] group.window_matchers@[k], x) by {
                    if d.contains(x) {
                        let k = choose|k: int| 0 <= k < d.len() && d[k] == x;
                        assert(is_process_matcher(group.window_matchers@[k], d[k]));
                    }
                    if exists|k: int|
                        0 <= k < group.window_matchers@.len() && names_process(#[trigger] group.window_matchers@[k], x) {
                        let k = choose|k: int|
                            0 <= k < group.window_matchers@.len() && names_process(#[trigger] group.window_matchers@[k], x);
                        assert(is_process_matcher(group.window_matchers@[k], d[k]));
                        assert(d[k] == x);
                    }
                }
            }
            if !has_process_matcher(&group.window_matchers, pn.as_str()) {
                group.add_matcher(WindowMatcher::by_process(pn.as_str()));
            }
            i += 1;
        }
        assert(procs.take(n as int) =~= procs);
        let gid = group.id.clone();
        let ghost b0 = self.bindings();
        let mut j: usize = 0;
        while j < n
            invariant
                n == hwnds@.len(),
                j <= n,
                gid@ == id,
                self.bindings() == with_all_bound(b0, picked_handles(hwnds@.take(j as int)), id),
                self.groups == old(self).groups,
                self.suppressed == old(self).suppressed,
                b0 == old(self).bindings(),
            decreases n - j,
        {
            let h = hwnds[j].0;
            let ghost before = self.bindings();
            self.active_bindings.insert(h, gid.clone());
            proof {
                let t0 = hwnds@.take(j as int);
                let t1 = hwnds@.take(j + 1);
                assert(self.bindings() =~= before.insert(h, id));
                assert forall|x: isize| #[trigger] picked_handles(t1).contains(x) <==> (picked_handles(
                    t0,
                ).contains(x) || x == h) by {
                    if picked_handles(t1).contains(x) {
                        let k = choose|k: int| 0 <= k < t1.len() && #[trigger] t1[k].0 == x;
                        if k < j {
                            assert(t0[k].0 == x);
                        }
                    }
                    if picked_handles(t0).contains(x) {
                        let k = choose|k: int| 0 <= k < t0.len() && #[trigger] t0[k].0 == x;
                        assert(t1[k].0 == x);
                    }
                    if x == h {
                        assert(t1[j as int].0 == x);
                    }
                }
                assert(self.bindings() =~= with_all_bound(b0, picked_handles(t1), id));
            }
            j += 1;
        }
        assert(hwnds@.take(n as int) =~= hwnds@);
        self.groups.push(group);
        assert(self.groups@.drop_last() =~= old(self).groups@);
        gid
    }

    /// Unbind every group: all groups and all bindings go. Gives the number of groups there were.
    pub fn unbind_all(&mut self) -> (r: usize)
        ensures
            r == old(self).groups@.len(),
            final(self).groups@ == Seq::<WindowGroup>::empty(),
            final(self).bindings() == Map::<isize, Seq<char>>::empty(),
            final(self).suppressed == old(self).suppressed,
    {
        let count = self.groups.len();
        self.groups.clear();
        self.active_bindings.clear();
        assert(self.bindings() =~= Map::<isize, Seq<char>>::empty());
        count
    }

    /// Unbind the group of the given window. Gives the group's name, or
    /// `None`, with nothing changed, when the window is in no group.
    pub fn unbind_group_of(&mut self, hwnd: isize) -> (r: Option<String>)
        ensures
            match group_of(old(self).bindings(), hwnd) {
                Some(gid) => {
                    &&& r matches Some(name) && name@ == name_of_group(old(self).groups@, gid)
                    &&& final(self).groups@ == groups_without(old(self).groups@, gid)
                    &&& final(self).bindings() == without_group(old(self).bindings(), gid)
                },
                None => {
                    &&& r is None
                    &&& final(self).groups == old(self).groups
                    &&& final(self).bindings() == old(self).bindings()
                },
            },
            final(self).suppressed == old(self).suppressed,
    {
        let group_id = match self.active_bindings.get(&hwnd) {
            Some(g) => g.clone(),
            None => {
                return None;
            },
        };
        let name = self.name_of(group_id.as_str());
        self.remove_group(group_id.as_str());
        Some(name)
    }

    /// The name of the first group with the given id, or the empty text.
    fn name_of(&self, group_id: &str) -> (r: String)
        ensures
            r@ == name_of_group(self.groups@, group_id@),
    {
        let n = self.groups.len();
        let mut i: usize = 0;
        assert(self.groups@.skip(0) =~= self.groups@);
        while i < n
            invariant
                n == self.groups@.len(),
                i <= n,
                name_of_group(self.groups@, group_id@) == name_of_group(self.groups@.skip(i as int), group_id@),
            decreases n - i,
        {
            assert(self.groups@.skip(i as int).drop_first() =~= self.groups@.skip(i + 1));
            if str_eq(self.groups[i].id.as_str(), group_id) {
                return self.groups[i].name.clone();
            }
            i += 1;
        }
        String::new()
    }
}

/// Every name of the sequence is among its distinct names.
proof fn lemma_distinct_keeps_all(names: Seq<Seq<char>>, x: Seq<char>)
    requires
        names.contains(x),
    ensures
        distinct_in_order(names).contains(x),
    decreases names.len(),
{
    let d = distinct_in_order(names.drop_last());
    if names.last() == x {
        if !d.contains(x) {
            assert(d.push(x)[d.len() as int] == x);
        }
    } else {
        let k = choose|k: int| 0 <= k < names.len() && names[k] == x;
        assert(names.drop_last()[k] == x);
        lemma_distinct_keeps_all(names.drop_last(), x);
        if !d.contains(names.last()) {
            let j = choose|j: int| 0 <= j < d.len() && d[j] == x;
            assert(d.push(names.last())[j] == x);
        }
    }
}

/// After a window is bound to a group, looking the window up gives that group.
pub proof fn law_find_after_bind(b: Map<isize, Seq<char>>, hwnd: isize, gid: Seq<char>)
    ensures
        group_of(b.insert(hwnd, gid), hwnd) == Some(gid),
{
}

/// Binding one window leaves the group of every other window as it was.
pub proof fn law_bind_keeps_others(b: Map<isize, Seq<char>>, hwnd: isize, gid: Seq<char>, other: isize)
    requires
        other != hwnd,
    ensures
        group_of(b.insert(hwnd, gid), other) == group_of(b, other),
{
}

/// After a window is unbound, it is in no group.
pub proof fn law_find_after_unbind(b: Map<isize, Seq<char>>, hwnd: isize)
    ensures
        group_of(b.remove(hwnd), hwnd) is None,
{
}

/// Being siblings is symmetric, and no window is its own sibling.
pub proof fn law_siblings_symmetric(b: Map<isize, Seq<char>>, a: isize, c: isize)
    ensures
        is_sibling(b, a, c) == is_sibling(b, c, a),
        !is_sibling(b, a, a),
{
}

/// After a group is removed, no window is bound to it and no group has its id;
/// the bindings to other groups stay.
pub proof fn law_removed_group_is_gone(b: Map<isize, Seq<char>>, groups: Seq<WindowGroup>, gid: Seq<char>, hwnd: isize)
    ensures
        group_of(without_group(b, gid), hwnd) != Some(gid),
        forall|i: int| 0 <= i < groups_without(groups, gid).len() ==> #[trigger] groups_without(groups, gid)[i].id@ != gid,
        group_of(b, hwnd) is Some && group_of(b, hwnd) != Some(gid) ==> group_of(without_group(b, gid), hwnd) == group_of(b, hwnd),
{
    let pred = |g: WindowGroup| g.id@ != gid;
    assert forall|i: int| 0 <= i < groups.filter(pred).len() implies #[trigger] groups.filter(pred)[i].id@ != gid by {
        groups.lemma_filter_pred(pred, i);
    }
}

/// The windows picked for a new group are all siblings of one another.
pub proof fn law_picked_windows_are_siblings(
    b: Map<isize, Seq<char>>,
    hwnds: Seq<(isize, String, String)>,
    gid: Seq<char>,
    i: int,
    j: int,
)
    requires
        0 <= i < hwnds.len(),
        0 <= j < hwnds.len(),
        hwnds[i].0 != hwnds[j].0,
    ensures
        is_sibling(with_all_bound(b, picked_handles(hwnds), gid), hwnds[i].0, hwnds[j].0),
{
    assert(picked_handles(hwnds).contains(hwnds[i].0));
    assert(picked_handles(hwnds).contains(hwnds[j].0));
}

/// A disabled group matches no window.
pub proof fn law_disabled_group_matches_nothing(g: WindowGroup, w: TrackedWindow)
    requires
        !g.enabled,
    ensures
        !g.spec_matches_window(w),
{
}

/// A group made from picked windows matches every window whose process is
/// one of the picked processes, whatever its title and class: a new window
/// of a bound application is bound to the group on its own.
pub proof fn law_created_group_matches_its_processes(
    g: WindowGroup,
    id: Seq<char>,
    name: Seq<char>,
    hwnds: Seq<(isize, String, String)>,
    w: TrackedWindow,
)
    requires
        is_created_group(g, id, name, picked_process_names(hwnds)),
        picked_process_names(hwnds).contains(w.process_name@),
    ensures
        g.spec_matches_window(w),
{
    let procs = picked_process_names(hwnds);
    lemma_distinct_keeps_all(procs, w.process_name@);
    let d = distinct_in_order(procs);
    let k = choose|k: int| 0 <= k < d.len() && d[k] == w.process_name@;
    assert(is_process_matcher(g.window_matchers@[k], d[k]));
    assert(g.window_matchers@[k].spec_matches(w));
}

} // verus!
