//! The tray's decisions: what a hotkey or a menu item does, the group that
//! a lasso selection makes, and the toggles of the settings.

use vstd::prelude::*;
use crate::group::{
    GroupManager, TrackedWindow, distinct_in_order, is_created_group, is_uuid_v4_text,
    picked_handles, picked_process_names, with_all_bound,
};
use crate::i18n::{Lang, LangSetting, get_lang, lang_code, lang_of_code, lang_tag, set_lang, spec_lang_tag, spec_toggled_lang, toggled_lang};
use crate::overlay::PickerResult;
use crate::settings::Settings;
use crate::text::{join_strings, join_with, str_eq};

verus! {

/// What the tray does in answer to a hotkey or a menu item.
#[derive(Clone, Copy, Debug, PartialEq, Eq, Structural)]
pub enum TrayAction {
    LassoBind,
    UnbindAtCursor,
    UnbindAll,
    ToggleLang,
    ToggleAutoStart,
    Quit,
    Nothing,
}

/// The action of a pressed hotkey: the first registered hotkey whose id it is.
pub open spec fn spec_action_for_hotkey(id: u32, bind: Option<u32>, unbind_cursor: Option<u32>, unbind_all: Option<u32>) -> TrayAction {
    if bind == Some(id) {
        TrayAction::LassoBind
    } else if unbind_cursor == Some(id) {
        TrayAction::UnbindAtCursor
    } else if unbind_all == Some(id) {
        TrayAction::UnbindAll
    } else {
        TrayAction::Nothing
    }
}

pub fn action_for_hotkey(id: u32, bind: Option<u32>, unbind_cursor: Option<u32>, unbind_all: Option<u32>) -> (r: TrayAction)
    ensures
        r == spec_action_for_hotkey(id, bind, unbind_cursor, unbind_all),
{
    if bind == Some(id) {
        TrayAction::LassoBind
    } else if unbind_cursor == Some(id) {
        TrayAction::UnbindAtCursor
    } else if unbind_all == Some(id) {
        TrayAction::UnbindAll
    } else {
        TrayAction::Nothing
    }
}

/// The ids of the tray menu's items.
pub open spec fn menu_ids() -> Seq<(Seq<char>, TrayAction)> {
    seq![
        ("lasso"@, TrayAction::LassoBind),
        ("unbind_cursor"@, TrayAction::UnbindAtCursor),
        ("unbind_all"@, TrayAction::UnbindAll),
        ("toggle_lang"@, TrayAction::ToggleLang),
        ("toggle_autostart"@, TrayAction::ToggleAutoStart),
        ("quit"@, TrayAction::Quit),
    ]
}

/// The action of the first menu id at or after `i` equal to `id`, or nothing.
pub open spec fn menu_action_from(id: Seq<char>, i: int) -> TrayAction
    decreases menu_ids().len() - i,
{
    if i < 0 || i >= menu_ids().len() {
        TrayAction::Nothing
    } else if menu_ids()[i].0 == id {
        menu_ids()[i].1
    } else {
        menu_action_from(id, i + 1)
    }
}

/// The action of a clicked menu item.
pub fn action_for_menu(id: &str) -> (r: TrayAction)
    ensures
        r == menu_action_from(id@, 0),
{
    proof {
        reveal_with_fuel(menu_action_from, 7);
    }
    if str_eq(id, "lasso") {
        TrayAction::LassoBind
    } else if str_eq(id, "unbind_cursor") {
        TrayAction::UnbindAtCursor
    } else if str_eq(id, "unbind_all") {
        TrayAction::UnbindAll
    } else if str_eq(id, "toggle_lang") {
        TrayAction::ToggleLang
    } else if str_eq(id, "toggle_autostart") {
        TrayAction::ToggleAutoStart
    } else if str_eq(id, "quit") {
        TrayAction::Quit
    } else {
        TrayAction::Nothing
    }
}

/// The process names of the windows, in order.
pub open spec fn process_names(ws: Seq<TrackedWindow>) -> Seq<Seq<char>> {
    ws.map_values(|w: TrackedWindow| w.process_name@)
}

/// The name a lasso selection gives its group: its distinct process names
/// in the order of first occurrence, joined by " + ".
pub open spec fn spec_lasso_group_name(ws: Seq<TrackedWindow>) -> Seq<char> {
    join_with(distinct_in_order(process_names(ws)), " + "@)
}

/// The picks handed to the manager: handle, process name and title of each window.
pub open spec fn picks_of(ws: Seq<TrackedWindow>) -> Seq<(isize, String, String)> {
    ws.map_values(|w: TrackedWindow| (w.hwnd, w.process_name, w.title))
}

/// Whether a process name is among the names.
fn contains_name(names: &Vec<String>, name: &String) -> (r: bool)
    ensures
        r == names@.map_values(|p: String| p@).contains(name@),
{
    let ghost views = names@.map_values(|p: String| p@);
    let n = names.len();
    let mut i: usize = 0;
    while i < n
        invariant
            n == names@.len(),
            views == names@.map_values(|p: String| p@),
            i <= n,
            forall|k: int| 0 <= k < i ==> views[k] != name@,
        decreases n - i,
    {
        if names[i] == *name {
            assert(views[i as int] == name@);
            return true;
        }
        i += 1;
    }
    false
}

/// The name of the group a lasso selection makes.
pub fn lasso_group_name(windows: &Vec<TrackedWindow>) -> (r: String)
    ensures
        r@ == spec_lasso_group_name(windows@),
{
    let ghost names = process_names(windows@);
    let mut unique: Vec<String> = Vec::new();
    let n = windows.len();
    let mut i: usize = 0;
    while i < n
        invariant
            n == windows@.len(),
            names == process_names(windows@),
            i <= n,
            unique@.map_values(|p: String| p@) == distinct_in_order(names.take(i as int)),
        decreases n - i,
    {
        proof {
            assert(names.take(i + 1).drop_last() =~= names.take(i as int));
        }
        let p = &windows[i].process_name;
        if !contains_name(&unique, p) {
            unique.push(p.clone());
            assert(unique@.map_values(|p: String| p@) =~= distinct_in_order(names.take(i + 1)));
        }
        i += 1;
    }
    assert(names.take(n as int) =~= names);
    join_strings(&unique, " + ")
}

/// A lasso selection made into a group: nothing when the selection was
/// cancelled or is empty; else the group named after the selection's
/// processes, with its windows bound to it, and the name and the number of
/// windows.
pub fn apply_lasso_result(mgr: &mut GroupManager, result: &PickerResult) -> (r: Option<(String, usize)>)
    ensures
        if result.cancelled || result.selected_windows@.len() == 0 {
            &&& r is None
            &&& final(mgr).groups == old(mgr).groups
            &&& final(mgr).bindings() == old(mgr).bindings()
        } else {
            let ws = result.selected_windows@;
            let g = final(mgr).groups@.last();
            &&& r matches Some((name, count)) && name@ == spec_lasso_group_name(ws) && count == ws.len()
            &&& final(mgr).groups@.len() == old(mgr).groups@.len() + 1
            &&& final(mgr).groups@.drop_last() == old(mgr).groups@
            &&& is_uuid_v4_text(g.id@)
            &&& is_created_group(g, g.id@, spec_lasso_group_name(ws), picked_process_names(picks_of(ws)))
            &&& final(mgr).bindings() == with_all_bound(old(mgr).bindings(), picked_handles(picks_of(ws)), g.id@)
        },
        final(mgr).suppressed == old(mgr).suppressed,
{
    if result.cancelled || result.selected_windows.len() == 0 {
        return None;
    }
    let name = lasso_group_name(&result.selected_windows);
    let ghost ws = result.selected_windows@;
    let mut selected: Vec<(isize, String, String)> = Vec::new();
    let n = result.selected_windows.len();
    let mut i: usize = 0;
    while i < n
        invariant
            n == ws.len(),
            ws == result.selected_windows@,
            i <= n,
            selected@ == picks_of(ws.take(i as int)),
        decreases n - i,
    {
        let w = &result.selected_windows[i];
        selected.push((w.hwnd, w.process_name.clone(), w.title.clone()));
        assert(selected@ =~= picks_of(ws.take(i + 1)));
        i += 1;
    }
    assert(ws.take(n as int) =~= ws);
    let count = selected.len();
    mgr.create_group_from_hwnds(name.as_str(), selected);
    Some((name, count))
}

/// Switch the language: the other one is set and stored as the settings'
/// language tag. Gives the new language.
pub fn toggle_language(settings: &mut Settings, lang: &mut LangSetting) -> (r: Lang)
    ensures
        r == spec_toggled_lang(lang_of_code(old(lang).code)),
        final(lang).code == lang_code(r),
        final(settings).lang@ == spec_lang_tag(r),
        final(settings).hotkey_bind == old(settings).hotkey_bind,
        final(settings).hotkey_unbind_cursor == old(settings).hotkey_unbind_cursor,
        final(settings).hotkey_unbind_all == old(settings).hotkey_unbind_all,
        final(settings).sync_move == old(settings).sync_move,
        final(settings).sync_minimize == old(settings).sync_minimize,
        final(settings).auto_start == old(settings).auto_start,
{
    let new_lang = toggled_lang(get_lang(lang));
    set_lang(lang, new_lang);
    settings.lang = String::from_str(lang_tag(new_lang));
    new_lang
}

/// Switch auto-start; gives the new value.
pub fn toggle_auto_start(settings: &mut Settings) -> (r: bool)
    ensures
        r == !old(settings).auto_start,
        final(settings).auto_start == r,
        final(settings).lang == old(settings).lang,
        final(settings).hotkey_bind == old(settings).hotkey_bind,
        final(settings).hotkey_unbind_cursor == old(settings).hotkey_unbind_cursor,
        final(settings).hotkey_unbind_all == old(settings).hotkey_unbind_all,
        final(settings).sync_move == old(settings).sync_move,
        final(settings).sync_minimize == old(settings).sync_minimize,
{
    settings.auto_start = !settings.auto_start;
    settings.auto_start
}

/// A menu entry: its text, two spaces, and the hotkey in brackets.
pub fn menu_label(text: &str, hotkey: &str) -> (r: String)
    ensures
        r@ == text@ + "  ("@ + hotkey@ + ")"@,
{
    let mut s = String::from_str(text);
    s.append("  (");
    s.append(hotkey);
    s.append(")");
    s
}

} // verus!
