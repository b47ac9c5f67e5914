//! Persistent settings: the three hotkeys, the language, the sync options,
//! and how a hotkey's text reads as modifiers and a key.

use vstd::prelude::*;
use crate::text::{contains_seq, str_contains, str_eq, text_upper, to_uppercase};

verus! {

#[derive(Debug, Clone)]
pub struct HotkeyConfig {
    /// e.g. "Ctrl+Alt"
    pub modifiers: String,
    /// e.g. "G"
    pub key: String,
}

#[derive(Debug, Clone)]
pub struct Settings {
    /// "en" or "zh" or "auto"
    pub lang: String,
    pub hotkey_bind: HotkeyConfig,
    pub hotkey_unbind_cursor: HotkeyConfig,
    pub hotkey_unbind_all: HotkeyConfig,
    pub sync_move: bool,
    pub sync_minimize: bool,
    pub auto_start: bool,
}

impl View for HotkeyConfig {
    /// The modifiers text and the key text.
    type V = (Seq<char>, Seq<char>);

    open spec fn view(&self) -> (Seq<char>, Seq<char>) {
        (self.modifiers@, self.key@)
    }
}

impl HotkeyConfig {
    pub fn new(modifiers: &str, key: &str) -> (r: Self)
        ensures
            r.modifiers@ == modifiers@,
            r.key@ == key@,
    {
        HotkeyConfig { modifiers: String::from_str(modifiers), key: String::from_str(key) }
    }
}

/// The hotkey configuration with these texts.
pub open spec fn is_hotkey(cfg: HotkeyConfig, modifiers: Seq<char>, key: Seq<char>) -> bool {
    cfg.modifiers@ == modifiers && cfg.key@ == key
}

/// The settings a first run writes: language "auto", Ctrl+Alt with G, D
/// and U for the three hotkeys, both syncs on, no auto-start.
pub open spec fn is_default_settings(s: Settings) -> bool {
    &&& s.lang@ == "auto"@
    &&& is_hotkey(s.hotkey_bind, "Ctrl+Alt"@, "G"@)
    &&& is_hotkey(s.hotkey_unbind_cursor, "Ctrl+Alt"@, "D"@)
    &&& is_hotkey(s.hotkey_unbind_all, "Ctrl+Alt"@, "U"@)
    &&& s.sync_move
    &&& s.sync_minimize
    &&& !s.auto_start
}

impl Default for Settings {
    fn default() -> (r: Self)
        ensures
            is_default_settings(r),
    {
        Settings {
            lang: String::from_str("auto"),
            hotkey_bind: HotkeyConfig::new("Ctrl+Alt", "G"),
            hotkey_unbind_cursor: HotkeyConfig::new("Ctrl+Alt", "D"),
            hotkey_unbind_all: HotkeyConfig::new("Ctrl+Alt", "U"),
            sync_move: true,
            sync_minimize: true,
            auto_start: false,
        }
    }
}

/// The modifiers of a hotkey.
#[derive(Clone, Copy, Debug, PartialEq, Eq, Structural)]
pub struct HotkeyModifiers {
    pub control: bool,
    pub alt: bool,
    pub shift: bool,
    pub super_key: bool,
}

/// The keys a hotkey can use.
#[derive(Clone, Copy, Debug, PartialEq, Eq, Structural)]
pub enum KeyCode {
    KeyA,
    KeyB,
    KeyC,
    KeyD,
    KeyE,
    KeyF,
    KeyG,
    KeyH,
    KeyI,
    KeyJ,
    KeyK,
    KeyL,
    KeyM,
    KeyN,
    KeyO,
    KeyP,
    KeyQ,
    KeyR,
    KeyS,
    KeyT,
    KeyU,
    KeyV,
    KeyW,
    KeyX,
    KeyY,
    KeyZ,
    Digit0,
    Digit1,
    Digit2,
    Digit3,
    Digit4,
    Digit5,
    Digit6,
    Digit7,
    Digit8,
    Digit9,
    F1,
    F2,
    F3,
    F4,
    F5,
    F6,
    F7,
    F8,
    F9,
    F10,
    F11,
    F12
}

/// A hotkey: its modifiers and its key.
#[derive(Clone, Copy, Debug, PartialEq, Eq, Structural)]
pub struct Hotkey {
    pub modifiers: HotkeyModifiers,
    pub key: KeyCode,
}

/// The modifiers that a text names, read upper-cased: "CTRL" or
/// "CONTROL", "ALT", "SHIFT", and "SUPER", "WIN" or "META", each anywhere
/// in it.
pub open spec fn spec_parse_modifiers(s: Seq<char>) -> HotkeyModifiers {
    let u = text_upper(s);
    HotkeyModifiers {
        control: contains_seq(u, "CTRL"@) || contains_seq(u, "CONTROL"@),
        alt: contains_seq(u, "ALT"@),
        shift: contains_seq(u, "SHIFT"@),
        super_key: contains_seq(u, "SUPER"@) || contains_seq(u, "WIN"@) || contains_seq(u, "META"@),
    }
}

/// Each modifier flag is set exactly when one of its names occurs in the
/// upper-cased text, wherever and in whatever case it was written: Ctrl
/// for "CTRL" or "CONTROL", Alt for "ALT", Shift for "SHIFT", and the
/// super key for "SUPER", "WIN" or "META". No other text sets a flag.
pub proof fn law_modifier_flags(s: Seq<char>)
    ensures
        spec_parse_modifiers(s).control <==> (contains_seq(text_upper(s), "CTRL"@) || contains_seq(
            text_upper(s),
            "CONTROL"@,
        )),
        spec_parse_modifiers(s).alt <==> contains_seq(text_upper(s), "ALT"@),
        spec_parse_modifiers(s).shift <==> contains_seq(text_upper(s), "SHIFT"@),
        spec_parse_modifiers(s).super_key <==> (contains_seq(text_upper(s), "SUPER"@) || contains_seq(
            text_upper(s),
            "WIN"@,
        ) || contains_seq(text_upper(s), "META"@)),
{
}

/// Parse a modifier string like "Ctrl+Alt".
pub fn parse_modifiers(s: &str) -> (r: HotkeyModifiers)
    ensures
        r == spec_parse_modifiers(s@),
{
    let upper = to_uppercase(s);
    let u = upper.as_str();
    HotkeyModifiers {
        control: str_contains(u, "CTRL") || str_contains(u, "CONTROL"),
        alt: str_contains(u, "ALT"),
        shift: str_contains(u, "SHIFT"),
        super_key: str_contains(u, "SUPER") || str_contains(u, "WIN") || str_contains(u, "META"),
    }
}

/// The key names, upper-case, with the key each names; a digit can also
/// be named by the symbol on its key.
pub open spec fn key_names() -> Seq<(Seq<char>, KeyCode)> {
    seq![
        ("A"@, KeyCode::KeyA),
        ("B"@, KeyCode::KeyB),
        ("C"@, KeyCode::KeyC),
        ("D"@, KeyCode::KeyD),
        ("E"@, KeyCode::KeyE),
        ("F"@, KeyCode::KeyF),
        ("G"@, KeyCode::KeyG),
        ("H"@, KeyCode::KeyH),
        ("I"@, KeyCode::KeyI),
        ("J"@, KeyCode::KeyJ),
        ("K"@, KeyCode::KeyK),
        ("L"@, KeyCode::KeyL),
        ("M"@, KeyCode::KeyM),
        ("N"@, KeyCode::KeyN),
        ("O"@, KeyCode::KeyO),
        ("P"@, KeyCode::KeyP),
        ("Q"@, KeyCode::KeyQ),
        ("R"@, KeyCode::KeyR),
        ("S"@, KeyCode::KeyS),
        ("T"@, KeyCode::KeyT),
        ("U"@, KeyCode::KeyU),
        ("V"@, KeyCode::KeyV),
        ("W"@, KeyCode::KeyW),
        ("X"@, KeyCode::KeyX),
        ("Y"@, KeyCode::KeyY),
        ("Z"@, KeyCode::KeyZ),
        ("0"@, KeyCode::Digit0),
        (")"@, KeyCode::Digit0),
        ("1"@, KeyCode::Digit1),
        ("!"@, KeyCode::Digit1),
        ("2"@, KeyCode::Digit2),
        ("@"@, KeyCode::Digit2),
        ("3"@, KeyCode::Digit3),
        ("#"@, KeyCode::Digit3),
        ("4"@, KeyCode::Digit4),
        ("$"@, KeyCode::Digit4),
        ("5"@, KeyCode::Digit5),
        ("%"@, KeyCode::Digit5),
        ("6"@, KeyCode::Digit6),
        ("^"@, KeyCode::Digit6),
        ("7"@, KeyCode::Digit7),
        ("&"@, KeyCode::Digit7),
        ("8"@, KeyCode::Digit8),
        ("*"@, KeyCode::Digit8),
        ("9"@, KeyCode::Digit9),
        ("("@, KeyCode::Digit9),
        ("F1"@, KeyCode::F1),
        ("F2"@, KeyCode::F2),
        ("F3"@, KeyCode::F3),
        ("F4"@, KeyCode::F4),
        ("F5"@, KeyCode::F5),
        ("F6"@, KeyCode::F6),
        ("F7"@, KeyCode::F7),
        ("F8"@, KeyCode::F8),
        ("F9"@, KeyCode::F9),
        ("F10"@, KeyCode::F10),
        ("F11"@, KeyCode::F11),
        ("F12"@, KeyCode::F12)
    ]
}

fn key_name_table() -> (r: Vec<(&'static str, KeyCode)>)
    ensures
        r@.len() == key_names().len(),
        forall|i: int| 0 <= i < r@.len() ==> (#[trigger] r@[i]).0@ == key_names()[i].0 && r@[i].1 == key_names()[i].1,
{
    let r = vec![
        ("A", KeyCode::KeyA),
        ("B", KeyCode::KeyB),
        ("C", KeyCode::KeyC),
        ("D", KeyCode::KeyD),
        ("E", KeyCode::KeyE),
        ("F", KeyCode::KeyF),
        ("G", KeyCode::KeyG),
        ("H", KeyCode::KeyH),
        ("I", KeyCode::KeyI),
        ("J", KeyCode::KeyJ),
        ("K", KeyCode::KeyK),
        ("L", KeyCode::KeyL),
        ("M", KeyCode::KeyM),
        ("N", KeyCode::KeyN),
        ("O", KeyCode::KeyO),
        ("P", KeyCode::KeyP),
        ("Q", KeyCode::KeyQ),
        ("R", KeyCode::KeyR),
        ("S", KeyCode::KeyS),
        ("T", KeyCode::KeyT),
        ("U", KeyCode::KeyU),
        ("V", KeyCode::KeyV),
        ("W", KeyCode::KeyW),
        ("X", KeyCode::KeyX),
        ("Y", KeyCode::KeyY),
        ("Z", KeyCode::KeyZ),
        ("0", KeyCode::Digit0),
        (")", KeyCode::Digit0),
        ("1", KeyCode::Digit1),
        ("!", KeyCode::Digit1),
        ("2", KeyCode::Digit2),
        ("@", KeyCode::Digit2),
        ("3", KeyCode::Digit3),
        ("#", KeyCode::Digit3),
        ("4", KeyCode::Digit4),
        ("$", KeyCode::Digit4),
        ("5", KeyCode::Digit5),
        ("%", KeyCode::Digit5),
        ("6", KeyCode::Digit6),
        ("^", KeyCode::Digit6),
        ("7", KeyCode::Digit7),
        ("&", KeyCode::Digit7),
        ("8", KeyCode::Digit8),
        ("*", KeyCode::Digit8),
        ("9", KeyCode::Digit9),
        ("(", KeyCode::Digit9),
        ("F1", KeyCode::F1),
        ("F2", KeyCode::F2),
        ("F3", KeyCode::F3),
        ("F4", KeyCode::F4),
        ("F5", KeyCode::F5),
        ("F6", KeyCode::F6),
        ("F7", KeyCode::F7),
        ("F8", KeyCode::F8),
        ("F9", KeyCode::F9),
        ("F10", KeyCode::F10),
        ("F11", KeyCode::F11),
        ("F12", KeyCode::F12)
    ];
    assert(r@.len() == key_names().len());
    r
}

/// The first entry of the key names at or after `i` with this name.
pub open spec fn key_lookup_from(names: Seq<(Seq<char>, KeyCode)>, name: Seq<char>, i: int) -> Option<KeyCode>
    decreases names.len() - i,
{
    if i < 0 || i >= names.len() {
        None
    } else if names[i].0 == name {
        Some(names[i].1)
    } else {
        key_lookup_from(names, name, i + 1)
    }
}

/// The key names, spelled out character by character.
pub(crate) proof fn lemma_key_names_spelled()
    ensures
        key_names().len() == 58,
        key_names()[0] == (seq!['A'], KeyCode::KeyA),
        key_names()[0].0.len() == 1,
        key_names()[0].0[0] == 'A',
        key_names()[1] == (seq!['B'], KeyCode::KeyB),
        key_names()[1].0.len() == 1,
        key_names()[1].0[0] == 'B',
        key_names()[2] == (seq!['C'], KeyCode::KeyC),
        key_names()[2].0.len() == 1,
        key_names()[2].0[0] == 'C',
        key_names()[3] == (seq!['D'], KeyCode::KeyD),
        key_names()[3].0.len() == 1,
        key_names()[3].0[0] == 'D',
        key_names()[4] == (seq!['E'], KeyCode::KeyE),
        key_names()[4].0.len() == 1,
        key_names()[4].0[0] == 'E',
        key_names()[5] == (seq!['F'], KeyCode::KeyF),
        key_names()[5].0.len() == 1,
        key_names()[5].0[0] == 'F',
        key_names()[6] == (seq!['G'], KeyCode::KeyG),
        key_names()[6].0.len() == 1,
        key_names()[6].0[0] == 'G',
        key_names()[7] == (seq!['H'], KeyCode::KeyH),
        key_names()[7].0.len() == 1,
        key_names()[7].0[0] == 'H',
        key_names()[8] == (seq!['I'], KeyCode::KeyI),
        key_names()[8].0.len() == 1,
        key_names()[8].0[0] == 'I',
        key_names()[9] == (seq!['J'], KeyCode::KeyJ),
        key_names()[9].0.len() == 1,
        key_names()[9].0[0] == 'J',
        key_names()[10] == (seq!['K'], KeyCode::KeyK),
        key_names()[10].0.len() == 1,
        key_names()[10].0[0] == 'K',
        key_names()[11] == (seq!['L'], KeyCode::KeyL),
        key_names()[11].0.len() == 1,
        key_names()[11].0[0] == 'L',
        key_names()[12] == (seq!['M'], KeyCode::KeyM),
        key_names()[12].0.len() == 1,
        key_names()[12].0[0] == 'M',
        key_names()[13] == (seq!['N'], KeyCode::KeyN),
        key_names()[13].0.len() == 1,
        key_names()[13].0[0] == 'N',
        key_names()[14] == (seq!['O'], KeyCode::KeyO),
        key_names()[14].0.len() == 1,
        key_names()[14].0[0] == 'O',
        key_names()[15] == (seq!['P'], KeyCode::KeyP),
        key_names()[15].0.len() == 1,
        key_names()[15].0[0] == 'P',
        key_names()[16] == (seq!['Q'], KeyCode::KeyQ),
        key_names()[16].0.len() == 1,
        key_names()[16].0[0] == 'Q',
        key_names()[17] == (seq!['R'], KeyCode::KeyR),
        key_names()[17].0.len() == 1,
        key_names()[17].0[0] == 'R',
        key_names()[18] == (seq!['S'], KeyCode::KeyS),
        key_names()[18].0.len() == 1,
        key_names()[18].0[0] == 'S',
        key_names()[19] == (seq!['T'], KeyCode::KeyT),
        key_names()[19].0.len() == 1,
        key_names()[19].0[0] == 'T',
        key_names()[20] == (seq!['U'], KeyCode::KeyU),
        key_names()[20].0.len() == 1,
        key_names()[20].0[0] == 'U',
        key_names()[21] == (seq!['V'], KeyCode::KeyV),
        key_names()[21].0.len() == 1,
        key_names()[21].0[0] == 'V',
        key_names()[22] == (seq!['W'], KeyCode::KeyW),
        key_names()[22].0.len() == 1,
        key_names()[22].0[0] == 'W',
        key_names()[23] == (seq!['X'], KeyCode::KeyX),
        key_names()[23].0.len() == 1,
        key_names()[23].0[0] == 'X',
        key_names()[24] == (seq!['Y'], KeyCode::KeyY),
        key_names()[24].0.len() == 1,
        key_names()[24].0[0] == 'Y',
        key_names()[25] == (seq!['Z'], KeyCode::KeyZ),
        key_names()[25].0.len() == 1,
        key_names()[25].0[0] == 'Z',
        key_names()[26] == (seq!['0'], KeyCode::Digit0),
        key_names()[26].0.len() == 1,
        key_names()[26].0[0] == '0',
        key_names()[27] == (seq![')'], KeyCode::Digit0),
        key_names()[27].0.len() == 1,
        key_names()[27].0[0] == ')',
        key_names()[28] == (seq!['1'], KeyCode::Digit1),
        key_names()[28].0.len() == 1,
        key_names()[28].0[0] == '1',
        key_names()[29] == (seq!['!'], KeyCode::Digit1),
        key_names()[29].0.len() == 1,
        key_names()[29].0[0] == '!',
        key_names()[30] == (seq!['2'], KeyCode::Digit2),
        key_names()[30].0.len() == 1,
        key_names()[30].0[0] == '2',
        key_names()[31] == (seq!['@'], KeyCode::Digit2),
        key_names()[31].0.len() == 1,
        key_names()[31].0[0] == '@',
        key_names()[32] == (seq!['3'], KeyCode::Digit3),
        key_names()[32].0.len() == 1,
        key_names()[32].0[0] == '3',
        key_names()[33] == (seq!['#'], KeyCode::Digit3),
        key_names()[33].0.len() == 1,
        key_names()[33].0[0] == '#',
        key_names()[34] == (seq!['4'], KeyCode::Digit4),
        key_names()[34].0.len() == 1,
        key_names()[34].0[0] == '4',
        key_names()[35] == (seq!['$'], KeyCode::Digit4),
        key_names()[35].0.len() == 1,
        key_names()[35].0[0] == '$',
        key_names()[36] == (seq!['5'], KeyCode::Digit5),
        key_names()[36].0.len() == 1,
        key_names()[36].0[0] == '5',
        key_names()[37] == (seq!['%'], KeyCode::Digit5),
        key_names()[37].0.len() == 1,
        key_names()[37].0[0] == '%',
        key_names()[38] == (seq!['6'], KeyCode::Digit6),
        key_names()[38].0.len() == 1,
        key_names()[38].0[0] == '6',
        key_names()[39] == (seq!['^'], KeyCode::Digit6),
        key_names()[39].0.len() == 1,
        key_names()[39].0[0] == '^',
        key_names()[40] == (seq!['7'], KeyCode::Digit7),
        key_names()[40].0.len() == 1,
        key_names()[40].0[0] == '7',
        key_names()[41] == (seq!['&'], KeyCode::Digit7),
        key_names()[41].0.len() == 1,
        key_names()[41].0[0] == '&',
        key_names()[42] == (seq!['8'], KeyCode::Digit8),
        key_names()[42].0.len() == 1,
        key_names()[42].0[0] == '8',
        key_names()[43] == (seq!['*'], KeyCode::Digit8),
        key_names()[43].0.len() == 1,
        key_names()[43].0[0] == '*',
        key_names()[44] == (seq!['9'], KeyCode::Digit9),
        key_names()[44].0.len() == 1,
        key_names()[44].0[0] == '9',
        key_names()[45] == (seq!['('], KeyCode::Digit9),
        key_names()[45].0.len() == 1,
        key_names()[45].0[0] == '(',
        key_names()[46] == (seq!['F', '1'], KeyCode::F1),
        key_names()[46].0.len() == 2,
        key_names()[46].0[0] == 'F',
        key_names()[46].0[1] == '1',
        key_names()[47] == (seq!['F', '2'], KeyCode::F2),
        key_names()[47].0.len() == 2,
        key_names()[47].0[0] == 'F',
        key_names()[47].0[1] == '2',
        key_names()[48] == (seq!['F', '3'], KeyCode::F3),
        key_names()[48].0.len() == 2,
        key_names()[48].0[0] == 'F',
        key_names()[48].0[1] == '3',
        key_names()[49] == (seq!['F', '4'], KeyCode::F4),
        key_names()[49].0.len() == 2,
        key_names()[49].0[0] == 'F',
        key_names()[49].0[1] == '4',
        key_names()[50] == (seq!['F', '5'], KeyCode::F5),
        key_names()[50].0.len() == 2,
        key_names()[50].0[0] == 'F',
        key_names()[50].0[1] == '5',
        key_names()[51] == (seq!['F', '6'], KeyCode::F6),
        key_names()[51].0.len() == 2,
        key_names()[51].0[0] == 'F',
        key_names()[51].0[1] == '6',
        key_names()[52] == (seq!['F', '7'], KeyCode::F7),
        key_names()[52].0.len() == 2,
        key_names()[52].0[0] == 'F',
        key_names()[52].0[1] == '7',
        key_names()[53] == (seq!['F', '8'], KeyCode::F8),
        key_names()[53].0.len() == 2,
        key_names()[53].0[0] == 'F',
        key_names()[53].0[1] == '8',
        key_names()[54] == (seq!['F', '9'], KeyCode::F9),
        key_names()[54].0.len() == 2,
        key_names()[54].0[0] == 'F',
        key_names()[54].0[1] == '9',
        key_names()[55] == (seq!['F', '1', '0'], KeyCode::F10),
        key_names()[55].0.len() == 3,
        key_names()[55].0[0] == 'F',
        key_names()[55].0[1] == '1',
        key_names()[55].0[2] == '0',
        key_names()[56] == (seq!['F', '1', '1'], KeyCode::F11),
        key_names()[56].0.len() == 3,
        key_names()[56].0[0] == 'F',
        key_names()[56].0[1] == '1',
        key_names()[56].0[2] == '1',
        key_names()[57] == (seq!['F', '1', '2'], KeyCode::F12),
        key_names()[57].0.len() == 3,
        key_names()[57].0[0] == 'F',
        key_names()[57].0[1] == '1',
        key_names()[57].0[2] == '2',
{
    reveal_strlit("A");
    assert("A"@ =~= seq!['A']);
    reveal_strlit("B");
    assert("B"@ =~= seq!['B']);
    reveal_strlit("C");
    assert("C"@ =~= seq!['C']);
    reveal_strlit("D");
    assert("D"@ =~= seq!['D']);
    reveal_strlit("E");
    assert("E"@ =~= seq!['E']);
    reveal_strlit("F");
    assert("F"@ =~= seq!['F']);
    reveal_strlit("G");
    assert("G"@ =~= seq!['G']);
    reveal_strlit("H");
    assert("H"@ =~= seq!['H']);
    reveal_strlit("I");
    assert("I"@ =~= seq!['I']);
    reveal_strlit("J");
    assert("J"@ =~= seq!['J']);
    reveal_strlit("K");
    assert("K"@ =~= seq!['K']);
    reveal_strlit("L");
    assert("L"@ =~= seq!['L']);
    reveal_strlit("M");
    assert("M"@ =~= seq!['M']);
    reveal_strlit("N");
    assert("N"@ =~= seq!['N']);
    reveal_strlit("O");
    assert("O"@ =~= seq!['O']);
    reveal_strlit("P");
    assert("P"@ =~= seq!['P']);
    reveal_strlit("Q");
    assert("Q"@ =~= seq!['Q']);
    reveal_strlit("R");
    assert("R"@ =~= seq!['R']);
    reveal_strlit("S");
    assert("S"@ =~= seq!['S']);
    reveal_strlit("T");
    assert("T"@ =~= seq!['T']);
    reveal_strlit("U");
    assert("U"@ =~= seq!['U']);
    reveal_strlit("V");
    assert("V"@ =~= seq!['V']);
    reveal_strlit("W");
    assert("W"@ =~= seq!['W']);
    reveal_strlit("X");
    assert("X"@ =~= seq!['X']);
    reveal_strlit("Y");
    assert("Y"@ =~= seq!['Y']);
    reveal_strlit("Z");
    assert("Z"@ =~= seq!['Z']);
    reveal_strlit("0");
    assert("0"@ =~= seq!['0']);
    reveal_strlit(")");
    assert(")"@ =~= seq![')']);
    reveal_strlit("1");
    assert("1"@ =~= seq!['1']);
    reveal_strlit("!");
    assert("!"@ =~= seq!['!']);
    reveal_strlit("2");
    assert("2"@ =~= seq!['2']);
    reveal_strlit("@");
    assert("@"@ =~= seq!['@']);
    reveal_strlit("3");
    assert("3"@ =~= seq!['3']);
    reveal_strlit("#");
    assert("#"@ =~= seq!['#']);
    reveal_strlit("4");
    assert("4"@ =~= seq!['4']);
    reveal_strlit("$");
    assert("$"@ =~= seq!['$']);
    reveal_strlit("5");
    assert("5"@ =~= seq!['5']);
    reveal_strlit("%");
    assert("%"@ =~= seq!['%']);
    reveal_strlit("6");
    assert("6"@ =~= seq!['6']);
    reveal_strlit("^");
    assert("^"@ =~= seq!['^']);
    reveal_strlit("7");
    assert("7"@ =~= seq!['7']);
    reveal_strlit("&");
    assert("&"@ =~= seq!['&']);
    reveal_strlit("8");
    assert("8"@ =~= seq!['8']);
    reveal_strlit("*");
    assert("*"@ =~= seq!['*']);
    reveal_strlit("9");
    assert("9"@ =~= seq!['9']);
    reveal_strlit("(");
    assert("("@ =~= seq!['(']);
    reveal_strlit("F1");
    assert("F1"@ =~= seq!['F', '1']);
    reveal_strlit("F2");
    assert("F2"@ =~= seq!['F', '2']);
    reveal_strlit("F3");
    assert("F3"@ =~= seq!['F', '3']);
    reveal_strlit("F4");
    assert("F4"@ =~= seq!['F', '4']);
    reveal_strlit("F5");
    assert("F5"@ =~= seq!['F', '5']);
    reveal_strlit("F6");
    assert("F6"@ =~= seq!['F', '6']);
    reveal_strlit("F7");
    assert("F7"@ =~= seq!['F', '7']);
    reveal_strlit("F8");
    assert("F8"@ =~= seq!['F', '8']);
    reveal_strlit("F9");
    assert("F9"@ =~= seq!['F', '9']);
    reveal_strlit("F10");
    assert("F10"@ =~= seq!['F', '1', '0']);
    reveal_strlit("F11");
    assert("F11"@ =~= seq!['F', '1', '1']);
    reveal_strlit("F12");
    assert("F12"@ =~= seq!['F', '1', '2']);
}

/// The key that a text names, read upper-cased.
pub open spec fn spec_parse_key(s: Seq<char>) -> Option<KeyCode> {
    key_lookup_from(key_names(), text_upper(s), 0)
}

/// Parse a key string like "G".
pub fn parse_key(s: &str) -> (r: Option<KeyCode>)
    ensures
        r == spec_parse_key(s@),
{
    let upper = to_uppercase(s);
    let table = key_name_table();
    let n = table.len();
    let mut i: usize = 0;
    while i < n
        invariant
            n == table@.len(),
            n == key_names().len(),
            upper@ == text_upper(s@),
            i <= n,
            forall|k: int| 0 <= k < table@.len() ==> (#[trigger] table@[k]).0@ == key_names()[k].0 && table@[k].1 == key_names()[k].1,
            spec_parse_key(s@) == key_lookup_from(key_names(), upper@, i as int),
        decreases n - i,
    {
        let (name, code) = table[i];
        if str_eq(name, upper.as_str()) {
            return Some(code);
        }
        i += 1;
    }
    None
}

/// The hotkey a configuration describes, when its key is known.
pub open spec fn spec_build_hotkey(cfg: HotkeyConfig) -> Option<Hotkey> {
    match spec_parse_key(cfg.key@) {
        Some(k) => Some(Hotkey { modifiers: spec_parse_modifiers(cfg.modifiers@), key: k }),
        None => None,
    }
}

/// Build a hotkey from config.
pub fn build_hotkey(cfg: &HotkeyConfig) -> (r: Option<Hotkey>)
    ensures
        r == spec_build_hotkey(*cfg),
{
    let mods = parse_modifiers(cfg.modifiers.as_str());
    match parse_key(cfg.key.as_str()) {
        Some(key) => Some(Hotkey { modifiers: mods, key }),
        None => None,
    }
}

/// Format hotkey for display: "Ctrl+Alt+G".
pub fn format_hotkey(cfg: &HotkeyConfig) -> (r: String)
    ensures
        r@ == cfg.modifiers@ + "+"@ + cfg.key@,
{
    let mut s = cfg.modifiers.clone();
    s.append("+");
    s.append(cfg.key.as_str());
    s
}

/// The name under which the program registers itself to start at login.
pub const APP_NAME: &'static str = "AlwaysBindWindow";

/// The registry key under which Windows starts programs at login.
pub const RUN_KEY: &'static str = r"HKCU\Software\Microsoft\Windows\CurrentVersion\Run";

/// Why auto-start could not be set.
#[derive(Clone, Copy, Debug, PartialEq, Eq, Structural)]
pub enum AutoStartError {
    /// This platform has no auto-start.
    Unsupported,
}

impl AutoStartError {
    /// The text that tells the user why auto-start could not be set.
    pub fn message(&self) -> (r: &'static str)
        ensures
            match *self {
                AutoStartError::Unsupported => r@ == "Auto-start not supported on this platform"@,
            },
    {
        match self {
            AutoStartError::Unsupported => "Auto-start not supported on this platform",
        }
    }
}

/// Set or remove auto-start on login, on a platform that has none: it
/// always fails.
pub fn set_auto_start(enable: bool) -> (r: Result<(), AutoStartError>)
    ensures
        r == Err::<(), AutoStartError>(AutoStartError::Unsupported),
{
    Err(AutoStartError::Unsupported)
}

fn strings_of(parts: &[&str]) -> (r: Vec<String>)
    ensures
        r@.len() == parts@.len(),
        forall|i: int| 0 <= i < parts@.len() ==> #[trigger] r@[i]@ == parts@[i]@,
{
    let mut out: Vec<String> = Vec::new();
    let n = parts.len();
    let mut i: usize = 0;
    while i < n
        invariant
            n == parts@.len(),
            i <= n,
            out@.len() == i,
            forall|k: int| 0 <= k < i ==> #[trigger] out@[k]@ == parts@[k]@,
        decreases n - i,
    {
        out.push(String::from_str(parts[i]));
        i += 1;
    }
    out
}

/// The arguments of the `reg` command that sets (with the program's path)
/// or removes the login entry on Windows.
pub fn auto_start_reg_args(enable: bool, exe_path: &str) -> (r: Vec<String>)
    ensures
        enable ==> r@.map_values(|a: String| a@) == seq![
            "add"@, RUN_KEY@, "/v"@, APP_NAME@, "/t"@, "REG_SZ"@, "/d"@, exe_path@, "/f"@,
        ],
        !enable ==> r@.map_values(|a: String| a@) == seq!["delete"@, RUN_KEY@, "/v"@, APP_NAME@, "/f"@],
{
    if enable {
        let r = strings_of(&["add", RUN_KEY, "/v", APP_NAME, "/t", "REG_SZ", "/d", exe_path, "/f"]);
        assert(r@.map_values(|a: String| a@) =~= seq![
            "add"@, RUN_KEY@, "/v"@, APP_NAME@, "/t"@, "REG_SZ"@, "/d"@, exe_path@, "/f"@,
        ]);
        r
    } else {
        let r = strings_of(&["delete", RUN_KEY, "/v", APP_NAME, "/f"]);
        assert(r@.map_values(|a: String| a@) =~= seq!["delete"@, RUN_KEY@, "/v"@, APP_NAME@, "/f"@]);
        r
    }
}

/// The arguments of the `reg` command that asks whether the login entry exists.
pub fn auto_start_query_args() -> (r: Vec<String>)
    ensures
        r@.map_values(|a: String| a@) == seq!["query"@, RUN_KEY@, "/v"@, APP_NAME@],
{
    let r = strings_of(&["query", RUN_KEY, "/v", APP_NAME]);
    assert(r@.map_values(|a: String| a@) =~= seq!["query"@, RUN_KEY@, "/v"@, APP_NAME@]);
    r
}

/// The launch agent file of macOS, up to the program's path.
pub const PLIST_HEAD: &'static str = r#"<?xml version="1.0" encoding="UTF-8"?>
<!DOCTYPE plist PUBLIC "-//Apple//DTD PLIST 1.0//EN" "http://www.apple.com/DTDs/PropertyList-1.0.dtd">
<plist version="1.0">
<dict>
    <key>Label</key>
    <string>com.alwaysbindwindow</string>
    <key>ProgramArguments</key>
    <array>
        <string>"#;

/// The launch agent file of macOS, after the program's path.
pub const PLIST_TAIL: &'static str = r#"</string>
    </array>
    <key>RunAtLoad</key>
    <true/>
</dict>
</plist>"#;

/// The launch agent file that starts the program at login on macOS.
pub fn launch_agent_plist(exe_path: &str) -> (r: String)
    ensures
        r@ == PLIST_HEAD@ + exe_path@ + PLIST_TAIL@,
{
    let mut s = String::from_str(PLIST_HEAD);
    s.append(exe_path);
    s.append(PLIST_TAIL);
    s
}

} // verus!
