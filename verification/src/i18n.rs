//! Messages in English and Chinese, and the choice of language.

use vstd::prelude::*;
use crate::text::{text_lower, starts_with_seq, str_eq, str_starts_with, to_lowercase};

verus! {

/// A language of the messages.
#[derive(Clone, Copy, Debug, PartialEq, Eq, Structural)]
pub enum Lang {
    En,
    Zh,
}

/// The stored language: 0 stands for English, 1 for Chinese, and any
/// other value reads as English.
pub struct LangSetting {
    pub code: u8,
}

/// The code under which a language is stored.
pub open spec fn lang_code(lang: Lang) -> u8 {
    match lang {
        Lang::En => 0,
        Lang::Zh => 1,
    }
}

/// The language that a stored code reads as.
pub open spec fn lang_of_code(code: u8) -> Lang {
    if code == 1 {
        Lang::Zh
    } else {
        Lang::En
    }
}

impl LangSetting {
    /// The setting at start-up: English.
    pub fn new() -> (r: Self)
        ensures
            r.code == 0,
    {
        LangSetting { code: 0 }
    }
}

pub fn set_lang(setting: &mut LangSetting, lang: Lang)
    ensures
        final(setting).code == lang_code(lang),
{
    setting.code = match lang {
        Lang::En => 0,
        Lang::Zh => 1,
    };
}

pub fn get_lang(setting: &LangSetting) -> (r: Lang)
    ensures
        r == lang_of_code(setting.code),
{
    if setting.code == 1 {
        Lang::Zh
    } else {
        Lang::En
    }
}

pub open spec fn spec_toggled_lang(lang: Lang) -> Lang {
    match lang {
        Lang::Zh => Lang::En,
        Lang::En => Lang::Zh,
    }
}

/// The other language.
pub fn toggled_lang(lang: Lang) -> (r: Lang)
    ensures
        r == spec_toggled_lang(lang),
{
    match lang {
        Lang::Zh => Lang::En,
        Lang::En => Lang::Zh,
    }
}

/// The tag under which the settings file stores a language.
pub fn lang_tag(lang: Lang) -> (r: &'static str)
    ensures
        r@ == spec_lang_tag(lang),
{
    match lang {
        Lang::Zh => "zh",
        Lang::En => "en",
    }
}

pub open spec fn spec_lang_tag(lang: Lang) -> Seq<char> {
    match lang {
        Lang::Zh => "zh"@,
        Lang::En => "en"@,
    }
}

pub open spec fn spec_lang_from_tag(tag: Seq<char>) -> Option<Lang> {
    if tag == "zh"@ {
        Some(Lang::Zh)
    } else if tag == "en"@ {
        Some(Lang::En)
    } else {
        None
    }
}

/// The language that a settings tag names: "zh" or "en"; any other tag
/// (such as "auto") names none, and the system language is used.
pub fn lang_from_tag(tag: &str) -> (r: Option<Lang>)
    ensures
        r == spec_lang_from_tag(tag@),
{
    if str_eq(tag, "zh") {
        Some(Lang::Zh)
    } else if str_eq(tag, "en") {
        Some(Lang::En)
    } else {
        None
    }
}

/// The language of a Windows user interface language id: Chinese when its
/// primary language (low byte) is 0x04.
pub fn lang_from_ui_language(lang_id: u16) -> (r: Lang)
    ensures
        r == (if lang_id & 0xFF == 0x04 {
            Lang::Zh
        } else {
            Lang::En
        }),
{
    if (lang_id & 0xFF) == 0x04 {
        Lang::Zh
    } else {
        Lang::En
    }
}

/// Some locale value, lower-cased, begins with "zh".
pub open spec fn some_locale_is_chinese(values: Seq<String>) -> bool {
    exists|i: int| 0 <= i < values.len() && starts_with_seq(text_lower(#[trigger] values[i]@), "zh"@)
}

/// The language of the locale variables that are set (`LANG`,
/// `LC_ALL`, `LC_MESSAGES`, in that order): Chinese when one of them,
/// lower-cased, begins with "zh".
pub fn lang_from_locale_values(values: &Vec<String>) -> (r: Lang)
    ensures
        r == (if some_locale_is_chinese(values@) {
            Lang::Zh
        } else {
            Lang::En
        }),
{
    let n = values.len();
    let mut i: usize = 0;
    while i < n
        invariant
            n == values@.len(),
            i <= n,
            forall|k: int| 0 <= k < i ==> !starts_with_seq(text_lower(#[trigger] values@[k]@), "zh"@),
        decreases n - i,
    {
        let lower = to_lowercase(values[i].as_str());
        if str_starts_with(lower.as_str(), "zh") {
            assert(starts_with_seq(text_lower(values@[i as int]@), "zh"@));
            return Lang::Zh;
        }
        i += 1;
    }
    Lang::En
}

/// The messages: key, English text, Chinese text.
pub open spec fn messages() -> Seq<(Seq<char>, Seq<char>, Seq<char>)> {
    seq![
        ("app.name"@, "AlwaysBindWindow"@, "窗口绑定助手"@),
        ("app.ready"@, "  Ready! Hotkeys active."@, "  就绪！快捷键已激活。"@),
        ("hk.bind"@, "Bind windows (lasso)"@, "框选绑定窗口"@),
        ("hk.unbind_cursor"@, "Unbind group under cursor"@, "解绑光标所在组"@),
        ("hk.unbind_all"@, "Unbind all"@, "解绑全部"@),
        ("menu.bind"@, "Bind Windows"@, "框选绑定"@),
        ("menu.unbind_cursor"@, "Unbind This Group"@, "解绑此组"@),
        ("menu.unbind_all"@, "Unbind All"@, "解绑全部"@),
        ("menu.lang"@, "\u{5207}\u{6362}\u{5230}\u{4E2D}\u{6587} (Chinese)"@, "Switch to English"@),
        ("menu.quit"@, "Quit"@, "退出"@),
        ("overlay.hint"@, "Drag to select | ESC = cancel"@, "拖框选择 | ESC = 取消"@),
        ("overlay.selecting"@, "Selecting..."@, "选择中..."@),
        ("menu.hotkey_settings"@, "Hotkey Settings"@, "快捷键设置"@),
        ("hk_dlg.title"@, "Hotkey Settings"@, "快捷键设置"@),
        ("hk_dlg.bind_label"@, "Bind (Lasso):"@, "框选绑定："@),
        ("hk_dlg.unbind_cursor_label"@, "Unbind Group:"@, "解绑此组："@),
        ("hk_dlg.unbind_all_label"@, "Unbind All:"@, "解绑全部："@),
        ("hk_dlg.hint"@, "Click a field then press new key combo"@, "点击输入框后按下新的快捷键组合"@),
        ("hk_dlg.save"@, "Save"@, "保存"@),
        ("hk_dlg.cancel"@, "Cancel"@, "取消"@),
        ("hk_dlg.reset"@, "Reset Defaults"@, "恢复默认"@),
        ("hk_dlg.saved"@, "Hotkeys updated"@, "快捷键已更新"@),
        ("hk_dlg.invalid"@, "Invalid hotkey, please try again"@, "无效的快捷键，请重新设置"@),
        ("hk_dlg.recording"@, "Press keys..."@, "按下快捷键..."@),
        ("msg.bound"@, "Bound"@, "已绑定"@),
        ("msg.windows"@, "windows"@, "个窗口"@),
        ("msg.unbound_group"@, "Unbound group"@, "已解绑组"@),
        ("msg.unbound_all"@, "Unbound all"@, "已解绑全部"@),
        ("msg.no_group"@, "Window under cursor is not in any group"@, "光标下的窗口不在任何组中"@),
        ("msg.cancelled"@, "Cancelled"@, "已取消"@),
        ("msg.need2"@, "Need at least 2 windows"@, "至少需要选择2个窗口"@)
    ]
}

fn message_table() -> (r: Vec<(&'static str, &'static str, &'static str)>)
    ensures
        r@.len() == messages().len(),
        forall|i: int|
            0 <= i < r@.len() ==> (#[trigger] r@[i]).0@ == messages()[i].0 && r@[i].1@ == messages()[i].1
                && r@[i].2@ == messages()[i].2,
{
    let r = vec![
        ("app.name", "AlwaysBindWindow", "窗口绑定助手"),
        ("app.ready", "  Ready! Hotkeys active.", "  就绪！快捷键已激活。"),
        ("hk.bind", "Bind windows (lasso)", "框选绑定窗口"),
        ("hk.unbind_cursor", "Unbind group under cursor", "解绑光标所在组"),
        ("hk.unbind_all", "Unbind all", "解绑全部"),
        ("menu.bind", "Bind Windows", "框选绑定"),
        ("menu.unbind_cursor", "Unbind This Group", "解绑此组"),
        ("menu.unbind_all", "Unbind All", "解绑全部"),
        ("menu.lang", "\u{5207}\u{6362}\u{5230}\u{4E2D}\u{6587} (Chinese)", "Switch to English"),
        ("menu.quit", "Quit", "退出"),
        ("overlay.hint", "Drag to select | ESC = cancel", "拖框选择 | ESC = 取消"),
        ("overlay.selecting", "Selecting...", "选择中..."),
        ("menu.hotkey_settings", "Hotkey Settings", "快捷键设置"),
        ("hk_dlg.title", "Hotkey Settings", "快捷键设置"),
        ("hk_dlg.bind_label", "Bind (Lasso):", "框选绑定："),
        ("hk_dlg.unbind_cursor_label", "Unbind Group:", "解绑此组："),
        ("hk_dlg.unbind_all_label", "Unbind All:", "解绑全部："),
        ("hk_dlg.hint", "Click a field then press new key combo", "点击输入框后按下新的快捷键组合"),
        ("hk_dlg.save", "Save", "保存"),
        ("hk_dlg.cancel", "Cancel", "取消"),
        ("hk_dlg.reset", "Reset Defaults", "恢复默认"),
        ("hk_dlg.saved", "Hotkeys updated", "快捷键已更新"),
        ("hk_dlg.invalid", "Invalid hotkey, please try again", "无效的快捷键，请重新设置"),
        ("hk_dlg.recording", "Press keys...", "按下快捷键..."),
        ("msg.bound", "Bound", "已绑定"),
        ("msg.windows", "windows", "个窗口"),
        ("msg.unbound_group", "Unbound group", "已解绑组"),
        ("msg.unbound_all", "Unbound all", "已解绑全部"),
        ("msg.no_group", "Window under cursor is not in any group", "光标下的窗口不在任何组中"),
        ("msg.cancelled", "Cancelled", "已取消"),
        ("msg.need2", "Need at least 2 windows", "至少需要选择2个窗口")
    ];
    assert(r@.len() == messages().len());
    r
}

/// The first entry of `table` at or after `i` whose key is `key`.
pub open spec fn lookup_from(table: Seq<(Seq<char>, Seq<char>, Seq<char>)>, key: Seq<char>, i: int) -> Option<int>
    decreases table.len() - i,
{
    if i < 0 || i >= table.len() {
        None
    } else if table[i].0 == key {
        Some(i)
    } else {
        lookup_from(table, key, i + 1)
    }
}

/// The text of a message in a language, or "???" for an unknown key.
pub open spec fn spec_t(key: Seq<char>, lang: Lang) -> Seq<char> {
    match lookup_from(messages(), key, 0) {
        Some(i) => if lang == Lang::Zh {
            messages()[i].2
        } else {
            messages()[i].1
        },
        None => "???"@,
    }
}

/// The text of a message in the given language.
pub fn t(key: &str, lang: Lang) -> (r: &'static str)
    ensures
        r@ == spec_t(key@, lang),
{
    let table = message_table();
    let n = table.len();
    let mut i: usize = 0;
    while i < n
        invariant
            n == table@.len(),
            n == messages().len(),
            i <= n,
            forall|k: int|
                0 <= k < table@.len() ==> (#[trigger] table@[k]).0@ == messages()[k].0 && table@[k].1@
                    == messages()[k].1 && table@[k].2@ == messages()[k].2,
            lookup_from(messages(), key@, 0) == lookup_from(messages(), key@, i as int),
        decreases n - i,
    {
        let (k, en, zh) = table[i];
        if str_eq(k, key) {
            return match lang {
                Lang::Zh => zh,
                Lang::En => en,
            };
        }
        i += 1;
    }
    "???"
}

/// The texts of the messages, spelled out where they begin.
proof fn lemma_message_texts()
    ensures
        messages().len() == 31,
        "???"@[0] == '?',
        messages()[0].1[0] == 'A',
        messages()[0].1[1] == 'l',
        messages()[0].1[2] == 'w',
        messages()[0].2[0] == '窗',
        messages()[0].2[1] == '口',
        messages()[0].2[2] == '绑',
        messages()[1].1[0] == ' ',
        messages()[1].1[1] == ' ',
        messages()[1].1[2] == 'R',
        messages()[1].2[0] == ' ',
        messages()[1].2[1] == ' ',
        messages()[1].2[2] == '就',
        messages()[2].1[0] == 'B',
        messages()[2].1[1] == 'i',
        messages()[2].1[2] == 'n',
        messages()[2].2[0] == '框',
        messages()[2].2[1] == '选',
        messages()[2].2[2] == '绑',
        messages()[3].1[0] == 'U',
        messages()[3].1[1] == 'n',
        messages()[3].1[2] == 'b',
        messages()[3].2[0] == '解',
        messages()[3].2[1] == '绑',
        messages()[3].2[2] == '光',
        messages()[4].1[0] == 'U',
        messages()[4].1[1] == 'n',
        messages()[4].1[2] == 'b',
        messages()[4].2[0] == '解',
        messages()[4].2[1] == '绑',
        messages()[4].2[2] == '全',
        messages()[5].1[0] == 'B',
        messages()[5].1[1] == 'i',
        messages()[5].1[2] == 'n',
        messages()[5].2[0] == '框',
        messages()[5].2[1] == '选',
        messages()[5].2[2] == '绑',
        messages()[6].1[0] == 'U',
        messages()[6].1[1] == 'n',
        messages()[6].1[2] == 'b',
        messages()[6].2[0] == '解',
        messages()[6].2[1] == '绑',
        messages()[6].2[2] == '此',
        messages()[7].1[0] == 'U',
        messages()[7].1[1] == 'n',
        messages()[7].1[2] == 'b',
        messages()[7].2[0] == '解',
        messages()[7].2[1] == '绑',
        messages()[7].2[2] == '全',
        messages()[8].1[0] == '切',
        messages()[8].1[1] == '换',
        messages()[8].1[2] == '到',
        messages()[8].2[0] == 'S',
        messages()[8].2[1] == 'w',
        messages()[8].2[2] == 'i',
        messages()[9].1[0] == 'Q',
        messages()[9].1[1] == 'u',
        messages()[9].1[2] == 'i',
        messages()[9].2[0] == '退',
        messages()[9].2[1] == '出',
        messages()[10].1[0] == 'D',
        messages()[10].1[1] == 'r',
        messages()[10].1[2] == 'a',
        messages()[10].2[0] == '拖',
        messages()[10].2[1] == '框',
        messages()[10].2[2] == '选',
        messages()[11].1[0] == 'S',
        messages()[11].1[1] == 'e',
        messages()[11].1[2] == 'l',
        messages()[11].2[0] == '选',
        messages()[11].2[1] == '择',
        messages()[11].2[2] == '中',
        messages()[12].1[0] == 'H',
        messages()[12].1[1] == 'o',
        messages()[12].1[2] == 't',
        messages()[12].2[0] == '快',
        messages()[12].2[1] == '捷',
        messages()[12].2[2] == '键',
        messages()[13].1[0] == 'H',
        messages()[13].1[1] == 'o',
        messages()[13].1[2] == 't',
        messages()[13].2[0] == '快',
        messages()[13].2[1] == '捷',
        messages()[13].2[2] == '键',
        messages()[14].1[0] == 'B',
        messages()[14].1[1] == 'i',
        messages()[14].1[2] == 'n',
        messages()[14].2[0] == '框',
        messages()[14].2[1] == '选',
        messages()[14].2[2] == '绑',
        messages()[15].1[0] == 'U',
        messages()[15].1[1] == 'n',
        messages()[15].1[2] == 'b',
        messages()[15].2[0] == '解',
        messages()[15].2[1] == '绑',
        messages()[15].2[2] == '此',
        messages()[16].1[0] == 'U',
        messages()[16].1[1] == 'n',
        messages()[16].1[2] == 'b',
        messages()[16].2[0] == '解',
        messages()[16].2[1] == '绑',
        messages()[16].2[2] == '全',
        messages()[17].1[0] == 'C',
        messages()[17].1[1] == 'l',
        messages()[17].1[2] == 'i',
        messages()[17].2[0] == '点',
        messages()[17].2[1] == '击',
        messages()[17].2[2] == '输',
        messages()[18].1[0] == 'S',
        messages()[18].1[1] == 'a',
        messages()[18].1[2] == 'v',
        messages()[18].2[0] == '保',
        messages()[18].2[1] == '存',
        messages()[19].1[0] == 'C',
        messages()[19].1[1] == 'a',
        messages()[19].1[2] == 'n',
        messages()[19].2[0] == '取',
        messages()[19].2[1] == '消',
        messages()[20].1[0] == 'R',
        messages()[20].1[1] == 'e',
        messages()[20].1[2] == 's',
        messages()[20].2[0] == '恢',
        messages()[20].2[1] == '复',
        messages()[20].2[2] == '默',
        messages()[21].1[0] == 'H',
        messages()[21].1[1] == 'o',
        messages()[21].1[2] == 't',
        messages()[21].2[0] == '快',
        messages()[21].2[1] == '捷',
        messages()[21].2[2] == '键',
        messages()[22].1[0] == 'I',
        messages()[22].1[1] == 'n',
        messages()[22].1[2] == 'v',
        messages()[22].2[0] == '无',
        messages()[22].2[1] == '效',
        messages()[22].2[2] == '的',
        messages()[23].1[0] == 'P',
        messages()[23].1[1] == 'r',
        messages()[23].1[2] == 'e',
        messages()[23].2[0] == '按',
        messages()[23].2[1] == '下',
        messages()[23].2[2] == '快',
        messages()[24].1[0] == 'B',
        messages()[24].1[1] == 'o',
        messages()[24].1[2] == 'u',
        messages()[24].2[0] == '已',
        messages()[24].2[1] == '绑',
        messages()[24].2[2] == '定',
        messages()[25].1[0] == 'w',
        messages()[25].1[1] == 'i',
        messages()[25].1[2] == 'n',
        messages()[25].2[0] == '个',
        messages()[25].2[1] == '窗',
        messages()[25].2[2] == '口',
        messages()[26].1[0] == 'U',
        messages()[26].1[1] == 'n',
        messages()[26].1[2] == 'b',
        messages()[26].2[0] == '已',
        messages()[26].2[1] == '解',
        messages()[26].2[2] == '绑',
        messages()[27].1[0] == 'U',
        messages()[27].1[1] == 'n',
        messages()[27].1[2] == 'b',
        messages()[27].2[0] == '已',
        messages()[27].2[1] == '解',
        messages()[27].2[2] == '绑',
        messages()[28].1[0] == 'W',
        messages()[28].1[1] == 'i',
        messages()[28].1[2] == 'n',
        messages()[28].2[0] == '光',
        messages()[28].2[1] == '标',
        messages()[28].2[2] == '下',
        messages()[29].1[0] == 'C',
        messages()[29].1[1] == 'a',
        messages()[29].1[2] == 'n',
        messages()[29].2[0] == '已',
        messages()[29].2[1] == '取',
        messages()[29].2[2] == '消',
        messages()[30].1[0] == 'N',
        messages()[30].1[1] == 'e',
        messages()[30].1[2] == 'e',
        messages()[30].2[0] == '至',
        messages()[30].2[1] == '少',
        messages()[30].2[2] == '需',
{
    reveal_strlit("???");
    reveal_strlit("AlwaysBindWindow");
    reveal_strlit("窗口绑定助手");
    reveal_strlit("  Ready! Hotkeys active.");
    reveal_strlit("  就绪！快捷键已激活。");
    reveal_strlit("Bind windows (lasso)");
    reveal_strlit("框选绑定窗口");
    reveal_strlit("Unbind group under cursor");
    reveal_strlit("解绑光标所在组");
    reveal_strlit("Unbind all");
    reveal_strlit("解绑全部");
    reveal_strlit("Bind Windows");
    reveal_strlit("框选绑定");
    reveal_strlit("Unbind This Group");
    reveal_strlit("解绑此组");
    reveal_strlit("Unbind All");
    reveal_strlit("解绑全部");
    reveal_strlit("\u{5207}\u{6362}\u{5230}\u{4E2D}\u{6587} (Chinese)");
    reveal_strlit("Switch to English");
    reveal_strlit("Quit");
    reveal_strlit("退出");
    reveal_strlit("Drag to select | ESC = cancel");
    reveal_strlit("拖框选择 | ESC = 取消");
    reveal_strlit("Selecting...");
    reveal_strlit("选择中...");
    reveal_strlit("Hotkey Settings");
    reveal_strlit("快捷键设置");
    reveal_strlit("Hotkey Settings");
    reveal_strlit("快捷键设置");
    reveal_strlit("Bind (Lasso):");
    reveal_strlit("框选绑定：");
    reveal_strlit("Unbind Group:");
    reveal_strlit("解绑此组：");
    reveal_strlit("Unbind All:");
    reveal_strlit("解绑全部：");
    reveal_strlit("Click a field then press new key combo");
    reveal_strlit("点击输入框后按下新的快捷键组合");
    reveal_strlit("Save");
    reveal_strlit("保存");
    reveal_strlit("Cancel");
    reveal_strlit("取消");
    reveal_strlit("Reset Defaults");
    reveal_strlit("恢复默认");
    reveal_strlit("Hotkeys updated");
    reveal_strlit("快捷键已更新");
    reveal_strlit("Invalid hotkey, please try again");
    reveal_strlit("无效的快捷键，请重新设置");
    reveal_strlit("Press keys...");
    reveal_strlit("按下快捷键...");
    reveal_strlit("Bound");
    reveal_strlit("已绑定");
    reveal_strlit("windows");
    reveal_strlit("个窗口");
    reveal_strlit("Unbound group");
    reveal_strlit("已解绑组");
    reveal_strlit("Unbound all");
    reveal_strlit("已解绑全部");
    reveal_strlit("Window under cursor is not in any group");
    reveal_strlit("光标下的窗口不在任何组中");
    reveal_strlit("Cancelled");
    reveal_strlit("已取消");
    reveal_strlit("Need at least 2 windows");
    reveal_strlit("至少需要选择2个窗口");
}

/// `key` is the key of one of the messages.
pub open spec fn is_message_key(key: Seq<char>) -> bool {
    exists|i: int| 0 <= i < messages().len() && (#[trigger] messages()[i]).0 == key
}

/// A lookup that finds an entry finds one with that key, at or after `i`.
proof fn lemma_lookup_found(table: Seq<(Seq<char>, Seq<char>, Seq<char>)>, key: Seq<char>, i: int)
    requires
        lookup_from(table, key, i) is Some,
    ensures
        i <= lookup_from(table, key, i)->0 < table.len(),
        0 <= lookup_from(table, key, i)->0,
        table[lookup_from(table, key, i)->0].0 == key,
    decreases table.len() - i,
{
    if table[i].0 != key {
        lemma_lookup_found(table, key, i + 1);
    }
}

/// A lookup finds an entry when one at or after `i` has the key.
proof fn lemma_lookup_listed(table: Seq<(Seq<char>, Seq<char>, Seq<char>)>, key: Seq<char>, i: int, j: int)
    requires
        0 <= i <= j < table.len(),
        table[j].0 == key,
    ensures
        lookup_from(table, key, i) is Some,
    decreases j - i,
{
    if table[i].0 != key {
        lemma_lookup_listed(table, key, i + 1, j);
    }
}

/// Every message has an English and a Chinese text; the two differ, and
/// neither is the "???" given for an unknown key.
proof fn lemma_messages_translated(i: int)
    requires
        0 <= i < messages().len(),
    ensures
        messages()[i].1 != "???"@,
        messages()[i].2 != "???"@,
        messages()[i].1 != messages()[i].2,
{
    lemma_message_texts();

    if i == 0 {
    } else if i == 1 {
    } else if i == 2 {
    } else if i == 3 {
    } else if i == 4 {
    } else if i == 5 {
    } else if i == 6 {
    } else if i == 7 {
    } else if i == 8 {
    } else if i == 9 {
    } else if i == 10 {
    } else if i == 11 {
    } else if i == 12 {
    } else if i == 13 {
    } else if i == 14 {
    } else if i == 15 {
    } else if i == 16 {
    } else if i == 17 {
    } else if i == 18 {
    } else if i == 19 {
    } else if i == 20 {
    } else if i == 21 {
    } else if i == 22 {
    } else if i == 23 {
    } else if i == 24 {
    } else if i == 25 {
    } else if i == 26 {
    } else if i == 27 {
    } else if i == 28 {
    } else if i == 29 {
    } else if i == 30 {
    }
}

/// Every known key has a text in English and one in Chinese, the two
/// differ, and neither is the "???" of an unknown key; any other key gives
/// "???" in both languages. The text depends on the key and the language
/// alone.
pub proof fn law_every_message_is_translated(key: Seq<char>)
    ensures
        is_message_key(key) ==> {
            &&& spec_t(key, Lang::En) != "???"@
            &&& spec_t(key, Lang::Zh) != "???"@
            &&& spec_t(key, Lang::En) != spec_t(key, Lang::Zh)
        },
        !is_message_key(key) ==> spec_t(key, Lang::En) == "???"@ && spec_t(key, Lang::Zh) == "???"@,
{
    if is_message_key(key) {
        let j = choose|j: int| 0 <= j < messages().len() && (#[trigger] messages()[j]).0 == key;
        lemma_lookup_listed(messages(), key, 0, j);
        lemma_lookup_found(messages(), key, 0);
        lemma_messages_translated(lookup_from(messages(), key, 0)->0);
    } else if lookup_from(messages(), key, 0) is Some {
        lemma_lookup_found(messages(), key, 0);
        let j = lookup_from(messages(), key, 0)->0;
        assert(messages()[j].0 == key);
    }
}

/// Where the keys of the tray menu's items stand in the message table.
proof fn lemma_menu_keys_found()
    ensures
        lookup_from(messages(), "menu.bind"@, 0) == Some(5int),
        lookup_from(messages(), "menu.unbind_cursor"@, 0) == Some(6int),
        lookup_from(messages(), "menu.unbind_all"@, 0) == Some(7int),
        lookup_from(messages(), "menu.hotkey_settings"@, 0) == Some(12int),
        lookup_from(messages(), "menu.lang"@, 0) == Some(8int),
        lookup_from(messages(), "menu.quit"@, 0) == Some(9int),
{
    reveal_strlit("app.name");
    reveal_strlit("app.ready");
    reveal_strlit("hk.bind");
    reveal_strlit("hk.unbind_cursor");
    reveal_strlit("hk.unbind_all");
    reveal_strlit("menu.bind");
    reveal_strlit("menu.unbind_cursor");
    reveal_strlit("menu.unbind_all");
    reveal_strlit("menu.lang");
    reveal_strlit("menu.quit");
    reveal_strlit("overlay.hint");
    reveal_strlit("overlay.selecting");
    reveal_strlit("menu.hotkey_settings");
    assert(messages()[0].0.len() == 8);
    assert(messages()[1].0.len() == 9);
    assert(messages()[2].0.len() == 7);
    assert(messages()[3].0.len() == 16);
    assert(messages()[4].0.len() == 13);
    assert(messages()[5].0.len() == 9);
    assert(messages()[6].0.len() == 18);
    assert(messages()[7].0.len() == 15);
    assert(messages()[8].0.len() == 9);
    assert(messages()[9].0.len() == 9);
    assert(messages()[10].0.len() == 12);
    assert(messages()[11].0.len() == 17);
    assert(messages()[12].0.len() == 20);
    assert(messages()[1].0[0] == 'a');
    assert(messages()[5].0[5] == 'b');
    assert(messages()[8].0[5] == 'l');
    assert("menu.bind"@.len() == 9);
    assert("menu.bind"@[0] == 'm');
    assert("menu.bind"@[5] == 'b');
    assert("menu.unbind_cursor"@.len() == 18);
    assert("menu.unbind_all"@.len() == 15);
    assert("menu.hotkey_settings"@.len() == 20);
    assert("menu.lang"@.len() == 9);
    assert("menu.lang"@[0] == 'm');
    assert("menu.lang"@[5] == 'l');
    assert("menu.quit"@.len() == 9);
    assert("menu.quit"@[0] == 'm');
    assert("menu.quit"@[5] == 'q');
    reveal_with_fuel(lookup_from, 14);
}

/// The keys of the texts of the tray menu's items.
pub open spec fn menu_text_keys() -> Seq<Seq<char>> {
    seq!["menu.bind"@, "menu.unbind_cursor"@, "menu.unbind_all"@, "menu.hotkey_settings"@, "menu.lang"@, "menu.quit"@]
}

/// The tray menu's items can be told apart: in each language, the texts
/// of any two different items differ (so that, for example, the item that
/// unbinds the group under the cursor never reads like the one that
/// unbinds all), and none is the "???" of an unknown key.
pub proof fn law_menu_items_are_distinct(lang: Lang, i: int, j: int)
    requires
        0 <= i < menu_text_keys().len(),
        0 <= j < menu_text_keys().len(),
        i != j,
    ensures
        spec_t(menu_text_keys()[i], lang) != spec_t(menu_text_keys()[j], lang),
        spec_t(menu_text_keys()[i], lang) != "???"@,
{
    lemma_menu_keys_found();
    lemma_message_texts();
    reveal_strlit("Unbind This Group");
    reveal_strlit("Unbind All");
    assert(messages()[6].1[7] == 'T');
    assert(messages()[7].1[7] == 'A');
}

/// Reading the language gives back the one last set.
pub proof fn law_get_after_set(lang: Lang)
    ensures
        lang_of_code(lang_code(lang)) == lang,
{
}

/// Switching the language twice gives the language back, and once gives the other one.
pub proof fn law_toggle_is_an_involution(lang: Lang)
    ensures
        spec_toggled_lang(spec_toggled_lang(lang)) == lang,
        spec_toggled_lang(lang) != lang,
{
}

/// The tag stored for a language reads back as that language.
pub proof fn law_tag_round_trip(lang: Lang)
    ensures
        spec_lang_from_tag(spec_lang_tag(lang)) == Some(lang),
{
    reveal_strlit("zh");
    reveal_strlit("en");
    assert("zh"@ != "en"@) by {
        assert("zh"@[0] != "en"@[0]);
    }
}

} // verus!
