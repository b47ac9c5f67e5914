//! The hotkey settings dialog: which key a virtual-key code names, how a
//! recorded combination is shown, what a key press does while a field
//! records, and which button a point is on.

use vstd::prelude::*;
use crate::overlay::Rect;
use crate::settings::{
    is_default_settings, key_lookup_from, lemma_key_names_spelled, spec_build_hotkey, spec_parse_key,
    spec_parse_modifiers, HotkeyConfig, HotkeyModifiers, KeyCode, Settings,
};
use crate::text::{
    ascii_upper, ascii_upper_char, contains_seq, is_ascii_text, lemma_join_chars, lemma_join_has_part,
    lemma_missing_char, lemma_upper_keeps_occurrence, text_upper,
};
use crate::text::{join_strings, join_with};

verus! {

/// The three hotkeys the dialog edits.
#[derive(Debug, Clone)]
pub struct HotkeyDialogResult {
    pub bind: HotkeyConfig,
    pub unbind_cursor: HotkeyConfig,
    pub unbind_all: HotkeyConfig,
}

/// The virtual-key codes the dialog records, with the name of each key.
pub open spec fn vk_names() -> Seq<(u16, Seq<char>)> {
    seq![
        (0x41u16, "A"@),
        (0x42u16, "B"@),
        (0x43u16, "C"@),
        (0x44u16, "D"@),
        (0x45u16, "E"@),
        (0x46u16, "F"@),
        (0x47u16, "G"@),
        (0x48u16, "H"@),
        (0x49u16, "I"@),
        (0x4Au16, "J"@),
        (0x4Bu16, "K"@),
        (0x4Cu16, "L"@),
        (0x4Du16, "M"@),
        (0x4Eu16, "N"@),
        (0x4Fu16, "O"@),
        (0x50u16, "P"@),
        (0x51u16, "Q"@),
        (0x52u16, "R"@),
        (0x53u16, "S"@),
        (0x54u16, "T"@),
        (0x55u16, "U"@),
        (0x56u16, "V"@),
        (0x57u16, "W"@),
        (0x58u16, "X"@),
        (0x59u16, "Y"@),
        (0x5Au16, "Z"@),
        (0x30u16, "0"@),
        (0x31u16, "1"@),
        (0x32u16, "2"@),
        (0x33u16, "3"@),
        (0x34u16, "4"@),
        (0x35u16, "5"@),
        (0x36u16, "6"@),
        (0x37u16, "7"@),
        (0x38u16, "8"@),
        (0x39u16, "9"@),
        (0x70u16, "F1"@),
        (0x71u16, "F2"@),
        (0x72u16, "F3"@),
        (0x73u16, "F4"@),
        (0x74u16, "F5"@),
        (0x75u16, "F6"@),
        (0x76u16, "F7"@),
        (0x77u16, "F8"@),
        (0x78u16, "F9"@),
        (0x79u16, "F10"@),
        (0x7Au16, "F11"@),
        (0x7Bu16, "F12"@),
        (0x20u16, "Space"@),
        (0x0Du16, "Enter"@),
        (0x09u16, "Tab"@),
        (0x1Bu16, "Escape"@),
        (0x08u16, "Backspace"@),
        (0x2Eu16, "Delete"@),
        (0x2Du16, "Insert"@),
        (0x24u16, "Home"@),
        (0x23u16, "End"@),
        (0x21u16, "PageUp"@),
        (0x22u16, "PageDown"@),
        (0x26u16, "Up"@),
        (0x28u16, "Down"@),
        (0x25u16, "Left"@),
        (0x27u16, "Right"@),
        (0xBAu16, ";"@),
        (0xBBu16, "="@),
        (0xBCu16, ","@),
        (0xBDu16, "-"@),
        (0xBEu16, "."@),
        (0xBFu16, "/"@),
        (0xC0u16, "`"@),
        (0xDBu16, "["@),
        (0xDCu16, "\\"@),
        (0xDDu16, "]"@),
        (0xDEu16, "'"@)
    ]
}

fn vk_name_table() -> (r: Vec<(u16, &'static str)>)
    ensures
        r@.len() == vk_names().len(),
        forall|i: int| 0 <= i < r@.len() ==> (#[trigger] r@[i]).0 == vk_names()[i].0 && r@[i].1@ == vk_names()[i].1,
{
    let r = vec![
        (0x41u16, "A"),
        (0x42u16, "B"),
        (0x43u16, "C"),
        (0x44u16, "D"),
        (0x45u16, "E"),
        (0x46u16, "F"),
        (0x47u16, "G"),
        (0x48u16, "H"),
        (0x49u16, "I"),
        (0x4Au16, "J"),
        (0x4Bu16, "K"),
        (0x4Cu16, "L"),
        (0x4Du16, "M"),
        (0x4Eu16, "N"),
        (0x4Fu16, "O"),
        (0x50u16, "P"),
        (0x51u16, "Q"),
        (0x52u16, "R"),
        (0x53u16, "S"),
        (0x54u16, "T"),
        (0x55u16, "U"),
        (0x56u16, "V"),
        (0x57u16, "W"),
        (0x58u16, "X"),
        (0x59u16, "Y"),
        (0x5Au16, "Z"),
        (0x30u16, "0"),
        (0x31u16, "1"),
        (0x32u16, "2"),
        (0x33u16, "3"),
        (0x34u16, "4"),
        (0x35u16, "5"),
        (0x36u16, "6"),
        (0x37u16, "7"),
        (0x38u16, "8"),
        (0x39u16, "9"),
        (0x70u16, "F1"),
        (0x71u16, "F2"),
        (0x72u16, "F3"),
        (0x73u16, "F4"),
        (0x74u16, "F5"),
        (0x75u16, "F6"),
        (0x76u16, "F7"),
        (0x77u16, "F8"),
        (0x78u16, "F9"),
        (0x79u16, "F10"),
        (0x7Au16, "F11"),
        (0x7Bu16, "F12"),
        (0x20u16, "Space"),
        (0x0Du16, "Enter"),
        (0x09u16, "Tab"),
        (0x1Bu16, "Escape"),
        (0x08u16, "Backspace"),
        (0x2Eu16, "Delete"),
        (0x2Du16, "Insert"),
        (0x24u16, "Home"),
        (0x23u16, "End"),
        (0x21u16, "PageUp"),
        (0x22u16, "PageDown"),
        (0x26u16, "Up"),
        (0x28u16, "Down"),
        (0x25u16, "Left"),
        (0x27u16, "Right"),
        (0xBAu16, ";"),
        (0xBBu16, "="),
        (0xBCu16, ","),
        (0xBDu16, "-"),
        (0xBEu16, "."),
        (0xBFu16, "/"),
        (0xC0u16, "`"),
        (0xDBu16, "["),
        (0xDCu16, "\\"),
        (0xDDu16, "]"),
        (0xDEu16, "'")
    ];
    assert(r@.len() == vk_names().len());
    r
}

/// The first name at or after `i` given to a virtual-key code.
pub open spec fn vk_lookup_from(names: Seq<(u16, Seq<char>)>, vk: u16, i: int) -> Option<Seq<char>>
    decreases names.len() - i,
{
    if i < 0 || i >= names.len() {
        None
    } else if names[i].0 == vk {
        Some(names[i].1)
    } else {
        vk_lookup_from(names, vk, i + 1)
    }
}

pub open spec fn spec_vk_to_key_name(vk: u16) -> Option<Seq<char>> {
    vk_lookup_from(vk_names(), vk, 0)
}

/// The name of the key with this virtual-key code, if the dialog records it.
pub fn vk_to_key_name(vk: u16) -> (r: Option<&'static str>)
    ensures
        match r {
            Some(n) => spec_vk_to_key_name(vk) == Some(n@),
            None => spec_vk_to_key_name(vk) is None,
        },
{
    let table = vk_name_table();
    let n = table.len();
    let mut i: usize = 0;
    while i < n
        invariant
            n == table@.len(),
            n == vk_names().len(),
            i <= n,
            forall|k: int| 0 <= k < table@.len() ==> (#[trigger] table@[k]).0 == vk_names()[k].0 && table@[k].1@ == vk_names()[k].1,
            spec_vk_to_key_name(vk) == vk_lookup_from(vk_names(), vk, i as int),
        decreases n - i,
    {
        let (code, name) = table[i];
        if code == vk {
            return Some(name);
        }
        i += 1;
    }
    None
}

/// The key of a hotkey that a virtual-key code stands for: the letters,
/// the digits and F1 to F12; no other key can be part of a hotkey.
pub open spec fn vk_key(vk: u16) -> Option<KeyCode> {
    match vk {
        0x41u16 => Some(KeyCode::KeyA),
        0x42u16 => Some(KeyCode::KeyB),
        0x43u16 => Some(KeyCode::KeyC),
        0x44u16 => Some(KeyCode::KeyD),
        0x45u16 => Some(KeyCode::KeyE),
        0x46u16 => Some(KeyCode::KeyF),
        0x47u16 => Some(KeyCode::KeyG),
        0x48u16 => Some(KeyCode::KeyH),
        0x49u16 => Some(KeyCode::KeyI),
        0x4Au16 => Some(KeyCode::KeyJ),
        0x4Bu16 => Some(KeyCode::KeyK),
        0x4Cu16 => Some(KeyCode::KeyL),
        0x4Du16 => Some(KeyCode::KeyM),
        0x4Eu16 => Some(KeyCode::KeyN),
        0x4Fu16 => Some(KeyCode::KeyO),
        0x50u16 => Some(KeyCode::KeyP),
        0x51u16 => Some(KeyCode::KeyQ),
        0x52u16 => Some(KeyCode::KeyR),
        0x53u16 => Some(KeyCode::KeyS),
        0x54u16 => Some(KeyCode::KeyT),
        0x55u16 => Some(KeyCode::KeyU),
        0x56u16 => Some(KeyCode::KeyV),
        0x57u16 => Some(KeyCode::KeyW),
        0x58u16 => Some(KeyCode::KeyX),
        0x59u16 => Some(KeyCode::KeyY),
        0x5Au16 => Some(KeyCode::KeyZ),
        0x30u16 => Some(KeyCode::Digit0),
        0x31u16 => Some(KeyCode::Digit1),
        0x32u16 => Some(KeyCode::Digit2),
        0x33u16 => Some(KeyCode::Digit3),
        0x34u16 => Some(KeyCode::Digit4),
        0x35u16 => Some(KeyCode::Digit5),
        0x36u16 => Some(KeyCode::Digit6),
        0x37u16 => Some(KeyCode::Digit7),
        0x38u16 => Some(KeyCode::Digit8),
        0x39u16 => Some(KeyCode::Digit9),
        0x70u16 => Some(KeyCode::F1),
        0x71u16 => Some(KeyCode::F2),
        0x72u16 => Some(KeyCode::F3),
        0x73u16 => Some(KeyCode::F4),
        0x74u16 => Some(KeyCode::F5),
        0x75u16 => Some(KeyCode::F6),
        0x76u16 => Some(KeyCode::F7),
        0x77u16 => Some(KeyCode::F8),
        0x78u16 => Some(KeyCode::F9),
        0x79u16 => Some(KeyCode::F10),
        0x7Au16 => Some(KeyCode::F11),
        0x7Bu16 => Some(KeyCode::F12),
        _ => None,
    }
}

/// Each name the dialog records for the letters reads back as the key its
/// virtual-key code stands for.
#[verifier::spinoff_prover]
proof fn lemma_recorded_letters(i: int)
    requires
        0 <= i < 26,
    ensures
        spec_parse_key(vk_names()[i].1) == vk_key(vk_names()[i].0),
{
    lemma_key_names_spelled();
    if i == 0 {
        assert(spec_parse_key("A"@) == Some(KeyCode::KeyA)) by {
            reveal_strlit("A");
            assert("A"@ =~= seq!['A']);
            assert(is_ascii_text("A"@));
            assert(ascii_upper("A"@) =~= seq!['A']);
            assert(text_upper("A"@).len() == 1);
            assert(text_upper("A"@)[0] == 'A');
            reveal_with_fuel(key_lookup_from, 2);
        }
    } else if i == 1 {
        assert(spec_parse_key("B"@) == Some(KeyCode::KeyB)) by {
            reveal_strlit("B");
            assert("B"@ =~= seq!['B']);
            assert(is_ascii_text("B"@));
            assert(ascii_upper("B"@) =~= seq!['B']);
            assert(text_upper("B"@).len() == 1);
            assert(text_upper("B"@)[0] == 'B');
            reveal_with_fuel(key_lookup_from, 3);
        }
    } else if i == 2 {
        assert(spec_parse_key("C"@) == Some(KeyCode::KeyC)) by {
            reveal_strlit("C");
            assert("C"@ =~= seq!['C']);
            assert(is_ascii_text("C"@));
            assert(ascii_upper("C"@) =~= seq!['C']);
            assert(text_upper("C"@).len() == 1);
            assert(text_upper("C"@)[0] == 'C');
            reveal_with_fuel(key_lookup_from, 4);
        }
    } else if i == 3 {
        assert(spec_parse_key("D"@) == Some(KeyCode::KeyD)) by {
            reveal_strlit("D");
            assert("D"@ =~= seq!['D']);
            assert(is_ascii_text("D"@));
            assert(ascii_upper("D"@) =~= seq!['D']);
            assert(text_upper("D"@).len() == 1);
            assert(text_upper("D"@)[0] == 'D');
            reveal_with_fuel(key_lookup_from, 5);
        }
    } else if i == 4 {
        assert(spec_parse_key("E"@) == Some(KeyCode::KeyE)) by {
            reveal_strlit("E");
            assert("E"@ =~= seq!['E']);
            assert(is_ascii_text("E"@));
            assert(ascii_upper("E"@) =~= seq!['E']);
            assert(text_upper("E"@).len() == 1);
            assert(text_upper("E"@)[0] == 'E');
            reveal_with_fuel(key_lookup_from, 6);
        }
    } else if i == 5 {
        assert(spec_parse_key("F"@) == Some(KeyCode::KeyF)) by {
            reveal_strlit("F");
            assert("F"@ =~= seq!['F']);
            assert(is_ascii_text("F"@));
            assert(ascii_upper("F"@) =~= seq!['F']);
            assert(text_upper("F"@).len() == 1);
            assert(text_upper("F"@)[0] == 'F');
            reveal_with_fuel(key_lookup_from, 7);
        }
    } else if i == 6 {
        assert(spec_parse_key("G"@) == Some(KeyCode::KeyG)) by {
            reveal_strlit("G");
            assert("G"@ =~= seq!['G']);
            assert(is_ascii_text("G"@));
            assert(ascii_upper("G"@) =~= seq!['G']);
            assert(text_upper("G"@).len() == 1);
            assert(text_upper("G"@)[0] == 'G');
            reveal_with_fuel(key_lookup_from, 8);
        }
    } else if i == 7 {
        assert(spec_parse_key("H"@) == Some(KeyCode::KeyH)) by {
            reveal_strlit("H");
            assert("H"@ =~= seq!['H']);
            assert(is_ascii_text("H"@));
            assert(ascii_upper("H"@) =~= seq!['H']);
            assert(text_upper("H"@).len() == 1);
            assert(text_upper("H"@)[0] == 'H');
            reveal_with_fuel(key_lookup_from, 9);
        }
    } else if i == 8 {
        assert(spec_parse_key("I"@) == Some(KeyCode::KeyI)) by {
            reveal_strlit("I");
            assert("I"@ =~= seq!['I']);
            assert(is_ascii_text("I"@));
            assert(ascii_upper("I"@) =~= seq!['I']);
            assert(text_upper("I"@).len() == 1);
            assert(text_upper("I"@)[0] == 'I');
            reveal_with_fuel(key_lookup_from, 10);
        }
    } else if i == 9 {
        assert(spec_parse_key("J"@) == Some(KeyCode::KeyJ)) by {
            reveal_strlit("J");
            assert("J"@ =~= seq!['J']);
            assert(is_ascii_text("J"@));
            assert(ascii_upper("J"@) =~= seq!['J']);
            assert(text_upper("J"@).len() == 1);
            assert(text_upper("J"@)[0] == 'J');
            reveal_with_fuel(key_lookup_from, 11);
        }
    } else if i == 10 {
        assert(spec_parse_key("K"@) == Some(KeyCode::KeyK)) by {
            reveal_strlit("K");
            assert("K"@ =~= seq!['K']);
            assert(is_ascii_text("K"@));
            assert(ascii_upper("K"@) =~= seq!['K']);
            assert(text_upper("K"@).len() == 1);
            assert(text_upper("K"@)[0] == 'K');
            reveal_with_fuel(key_lookup_from, 12);
        }
    } else if i == 11 {
        assert(spec_parse_key("L"@) == Some(KeyCode::KeyL)) by {
            reveal_strlit("L");
            assert("L"@ =~= seq!['L']);
            assert(is_ascii_text("L"@));
            assert(ascii_upper("L"@) =~= seq!['L']);
            assert(text_upper("L"@).len() == 1);
            assert(text_upper("L"@)[0] == 'L');
            reveal_with_fuel(key_lookup_from, 13);
        }
    } else if i == 12 {
        assert(spec_parse_key("M"@) == Some(KeyCode::KeyM)) by {
            reveal_strlit("M");
            assert("M"@ =~= seq!['M']);
            assert(is_ascii_text("M"@));
            assert(ascii_upper("M"@) =~= seq!['M']);
            assert(text_upper("M"@).len() == 1);
            assert(text_upper("M"@)[0] == 'M');
            reveal_with_fuel(key_lookup_from, 14);
        }
    } else if i == 13 {
        assert(spec_parse_key("N"@) == Some(KeyCode::KeyN)) by {
            reveal_strlit("N");
            assert("N"@ =~= seq!['N']);
            assert(is_ascii_text("N"@));
            assert(ascii_upper("N"@) =~= seq!['N']);
            assert(text_upper("N"@).len() == 1);
            assert(text_upper("N"@)[0] == 'N');
            reveal_with_fuel(key_lookup_from, 15);
        }
    } else if i == 14 {
        assert(spec_parse_key("O"@) == Some(KeyCode::KeyO)) by {
            reveal_strlit("O");
            assert("O"@ =~= seq!['O']);
            assert(is_ascii_text("O"@));
            assert(ascii_upper("O"@) =~= seq!['O']);
            assert(text_upper("O"@).len() == 1);
            assert(text_upper("O"@)[0] == 'O');
            reveal_with_fuel(key_lookup_from, 16);
        }
    } else if i == 15 {
        assert(spec_parse_key("P"@) == Some(KeyCode::KeyP)) by {
            reveal_strlit("P");
            assert("P"@ =~= seq!['P']);
            assert(is_ascii_text("P"@));
            assert(ascii_upper("P"@) =~= seq!['P']);
            assert(text_upper("P"@).len() == 1);
            assert(text_upper("P"@)[0] == 'P');
            reveal_with_fuel(key_lookup_from, 17);
        }
    } else if i == 16 {
        assert(spec_parse_key("Q"@) == Some(KeyCode::KeyQ)) by {
            reveal_strlit("Q");
            assert("Q"@ =~= seq!['Q']);
            assert(is_ascii_text("Q"@));
            assert(ascii_upper("Q"@) =~= seq!['Q']);
            assert(text_upper("Q"@).len() == 1);
            assert(text_upper("Q"@)[0] == 'Q');
            reveal_with_fuel(key_lookup_from, 18);
        }
    } else if i == 17 {
        assert(spec_parse_key("R"@) == Some(KeyCode::KeyR)) by {
            reveal_strlit("R");
            assert("R"@ =~= seq!['R']);
            assert(is_ascii_text("R"@));
            assert(ascii_upper("R"@) =~= seq!['R']);
            assert(text_upper("R"@).len() == 1);
            assert(text_upper("R"@)[0] == 'R');
            reveal_with_fuel(key_lookup_from, 19);
        }
    } else if i == 18 {
        assert(spec_parse_key("S"@) == Some(KeyCode::KeyS)) by {
            reveal_strlit("S");
            assert("S"@ =~= seq!['S']);
            assert(is_ascii_text("S"@));
            assert(ascii_upper("S"@) =~= seq!['S']);
            assert(text_upper("S"@).len() == 1);
            assert(text_upper("S"@)[0] == 'S');
            reveal_with_fuel(key_lookup_from, 20);
        }
    } else if i == 19 {
        assert(spec_parse_key("T"@) == Some(KeyCode::KeyT)) by {
            reveal_strlit("T");
            assert("T"@ =~= seq!['T']);
            assert(is_ascii_text("T"@));
            assert(ascii_upper("T"@) =~= seq!['T']);
            assert(text_upper("T"@).len() == 1);
            assert(text_upper("T"@)[0] == 'T');
            reveal_with_fuel(key_lookup_from, 21);
        }
    } else if i == 20 {
        assert(spec_parse_key("U"@) == Some(KeyCode::KeyU)) by {
            reveal_strlit("U");
            assert("U"@ =~= seq!['U']);
            assert(is_ascii_text("U"@));
            assert(ascii_upper("U"@) =~= seq!['U']);
            assert(text_upper("U"@).len() == 1);
            assert(text_upper("U"@)[0] == 'U');
            reveal_with_fuel(key_lookup_from, 22);
        }
    } else if i == 21 {
        assert(spec_parse_key("V"@) == Some(KeyCode::KeyV)) by {
            reveal_strlit("V");
            assert("V"@ =~= seq!['V']);
            assert(is_ascii_text("V"@));
            assert(ascii_upper("V"@) =~= seq!['V']);
            assert(text_upper("V"@).len() == 1);
            assert(text_upper("V"@)[0] == 'V');
            reveal_with_fuel(key_lookup_from, 23);
        }
    } else if i == 22 {
        assert(spec_parse_key("W"@) == Some(KeyCode::KeyW)) by {
            reveal_strlit("W");
            assert("W"@ =~= seq!['W']);
            assert(is_ascii_text("W"@));
            assert(ascii_upper("W"@) =~= seq!['W']);
            assert(text_upper("W"@).len() == 1);
            assert(text_upper("W"@)[0] == 'W');
            reveal_with_fuel(key_lookup_from, 24);
        }
    } else if i == 23 {
        assert(spec_parse_key("X"@) == Some(KeyCode::KeyX)) by {
            reveal_strlit("X");
            assert("X"@ =~= seq!['X']);
            assert(is_ascii_text("X"@));
            assert(ascii_upper("X"@) =~= seq!['X']);
            assert(text_upper("X"@).len() == 1);
            assert(text_upper("X"@)[0] == 'X');
            reveal_with_fuel(key_lookup_from, 25);
        }
    } else if i == 24 {
        assert(spec_parse_key("Y"@) == Some(KeyCode::KeyY)) by {
            reveal_strlit("Y");
            assert("Y"@ =~= seq!['Y']);
            assert(is_ascii_text("Y"@));
            assert(ascii_upper("Y"@) =~= seq!['Y']);
            assert(text_upper("Y"@).len() == 1);
            assert(text_upper("Y"@)[0] == 'Y');
            reveal_with_fuel(key_lookup_from, 26);
        }
    } else if i == 25 {
        assert(spec_parse_key("Z"@) == Some(KeyCode::KeyZ)) by {
            reveal_strlit("Z");
            assert("Z"@ =~= seq!['Z']);
            assert(is_ascii_text("Z"@));
            assert(ascii_upper("Z"@) =~= seq!['Z']);
            assert(text_upper("Z"@).len() == 1);
            assert(text_upper("Z"@)[0] == 'Z');
            reveal_with_fuel(key_lookup_from, 27);
        }
    }
}

/// Each name the dialog records for the digits reads back as the key its
/// virtual-key code stands for.
#[verifier::spinoff_prover]
proof fn lemma_recorded_digits(i: int)
    requires
        26 <= i < 36,
    ensures
        spec_parse_key(vk_names()[i].1) == vk_key(vk_names()[i].0),
{
    lemma_key_names_spelled();
    if i == 26 {
        assert(spec_parse_key("0"@) == Some(KeyCode::Digit0)) by {
            reveal_strlit("0");
            assert("0"@ =~= seq!['0']);
            assert(is_ascii_text("0"@));
            assert(ascii_upper("0"@) =~= seq!['0']);
            assert(text_upper("0"@).len() == 1);
            assert(text_upper("0"@)[0] == '0');
            reveal_with_fuel(key_lookup_from, 28);
        }
    } else if i == 27 {
        assert(spec_parse_key("1"@) == Some(KeyCode::Digit1)) by {
            reveal_strlit("1");
            assert("1"@ =~= seq!['1']);
            assert(is_ascii_text("1"@));
            assert(ascii_upper("1"@) =~= seq!['1']);
            assert(text_upper("1"@).len() == 1);
            assert(text_upper("1"@)[0] == '1');
            reveal_with_fuel(key_lookup_from, 30);
        }
    } else if i == 28 {
        assert(spec_parse_key("2"@) == Some(KeyCode::Digit2)) by {
            reveal_strlit("2");
            assert("2"@ =~= seq!['2']);
            assert(is_ascii_text("2"@));
            assert(ascii_upper("2"@) =~= seq!['2']);
            assert(text_upper("2"@).len() == 1);
            assert(text_upper("2"@)[0] == '2');
            reveal_with_fuel(key_lookup_from, 32);
        }
    } else if i == 29 {
        assert(spec_parse_key("3"@) == Some(KeyCode::Digit3)) by {
            reveal_strlit("3");
            assert("3"@ =~= seq!['3']);
            assert(is_ascii_text("3"@));
            assert(ascii_upper("3"@) =~= seq!['3']);
            assert(text_upper("3"@).len() == 1);
            assert(text_upper("3"@)[0] == '3');
            reveal_with_fuel(key_lookup_from, 34);
        }
    } else if i == 30 {
        assert(spec_parse_key("4"@) == Some(KeyCode::Digit4)) by {
            reveal_strlit("4");
            assert("4"@ =~= seq!['4']);
            assert(is_ascii_text("4"@));
            assert(ascii_upper("4"@) =~= seq!['4']);
            assert(text_upper("4"@).len() == 1);
            assert(text_upper("4"@)[0] == '4');
            reveal_with_fuel(key_lookup_from, 36);
        }
    } else if i == 31 {
        assert(spec_parse_key("5"@) == Some(KeyCode::Digit5)) by {
            reveal_strlit("5");
            assert("5"@ =~= seq!['5']);
            assert(is_ascii_text("5"@));
            assert(ascii_upper("5"@) =~= seq!['5']);
            assert(text_upper("5"@).len() == 1);
            assert(text_upper("5"@)[0] == '5');
            reveal_with_fuel(key_lookup_from, 38);
        }
    } else if i == 32 {
        assert(spec_parse_key("6"@) == Some(KeyCode::Digit6)) by {
            reveal_strlit("6");
            assert("6"@ =~= seq!['6']);
            assert(is_ascii_text("6"@));
            assert(ascii_upper("6"@) =~= seq!['6']);
            assert(text_upper("6"@).len() == 1);
            assert(text_upper("6"@)[0] == '6');
            reveal_with_fuel(key_lookup_from, 40);
        }
    } else if i == 33 {
        assert(spec_parse_key("7"@) == Some(KeyCode::Digit7)) by {
            reveal_strlit("7");
            assert("7"@ =~= seq!['7']);
            assert(is_ascii_text("7"@));
            assert(ascii_upper("7"@) =~= seq!['7']);
            assert(text_upper("7"@).len() == 1);
            assert(text_upper("7"@)[0] == '7');
            reveal_with_fuel(key_lookup_from, 42);
        }
    } else if i == 34 {
        assert(spec_parse_key("8"@) == Some(KeyCode::Digit8)) by {
            reveal_strlit("8");
            assert("8"@ =~= seq!['8']);
            assert(is_ascii_text("8"@));
            assert(ascii_upper("8"@) =~= seq!['8']);
            assert(text_upper("8"@).len() == 1);
            assert(text_upper("8"@)[0] == '8');
            reveal_with_fuel(key_lookup_from, 44);
        }
    } else if i == 35 {
        assert(spec_parse_key("9"@) == Some(KeyCode::Digit9)) by {
            reveal_strlit("9");
            assert("9"@ =~= seq!['9']);
            assert(is_ascii_text("9"@));
            assert(ascii_upper("9"@) =~= seq!['9']);
            assert(text_upper("9"@).len() == 1);
            assert(text_upper("9"@)[0] == '9');
            reveal_with_fuel(key_lookup_from, 46);
        }
    }
}

/// Each name the dialog records for F1 to F12 reads back as the key its
/// virtual-key code stands for.
#[verifier::spinoff_prover]
proof fn lemma_recorded_function_keys(i: int)
    requires
        36 <= i < 48,
    ensures
        spec_parse_key(vk_names()[i].1) == vk_key(vk_names()[i].0),
{
    lemma_key_names_spelled();
    if i == 36 {
        assert(spec_parse_key("F1"@) == Some(KeyCode::F1)) by {
            reveal_strlit("F1");
            assert("F1"@ =~= seq!['F', '1']);
            assert(is_ascii_text("F1"@));
            assert(ascii_upper("F1"@) =~= seq!['F', '1']);
            assert(text_upper("F1"@).len() == 2);
            assert(text_upper("F1"@)[0] == 'F');
            assert(text_upper("F1"@)[1] == '1');
            reveal_with_fuel(key_lookup_from, 48);
        }
    } else if i == 37 {
        assert(spec_parse_key("F2"@) == Some(KeyCode::F2)) by {
            reveal_strlit("F2");
            assert("F2"@ =~= seq!['F', '2']);
            assert(is_ascii_text("F2"@));
            assert(ascii_upper("F2"@) =~= seq!['F', '2']);
            assert(text_upper("F2"@).len() == 2);
            assert(text_upper("F2"@)[0] == 'F');
            assert(text_upper("F2"@)[1] == '2');
            reveal_with_fuel(key_lookup_from, 49);
        }
    } else if i == 38 {
        assert(spec_parse_key("F3"@) == Some(KeyCode::F3)) by {
            reveal_strlit("F3");
            assert("F3"@ =~= seq!['F', '3']);
            assert(is_ascii_text("F3"@));
            assert(ascii_upper("F3"@) =~= seq!['F', '3']);
            assert(text_upper("F3"@).len() == 2);
            assert(text_upper("F3"@)[0] == 'F');
            assert(text_upper("F3"@)[1] == '3');
            reveal_with_fuel(key_lookup_from, 50);
        }
    } else if i == 39 {
        assert(spec_parse_key("F4"@) == Some(KeyCode::F4)) by {
            reveal_strlit("F4");
            assert("F4"@ =~= seq!['F', '4']);
            assert(is_ascii_text("F4"@));
            assert(ascii_upper("F4"@) =~= seq!['F', '4']);
            assert(text_upper("F4"@).len() == 2);
            assert(text_upper("F4"@)[0] == 'F');
            assert(text_upper("F4"@)[1] == '4');
            reveal_with_fuel(key_lookup_from, 51);
        }
    } else if i == 40 {
        assert(spec_parse_key("F5"@) == Some(KeyCode::F5)) by {
            reveal_strlit("F5");
            assert("F5"@ =~= seq!['F', '5']);
            assert(is_ascii_text("F5"@));
            assert(ascii_upper("F5"@) =~= seq!['F', '5']);
            assert(text_upper("F5"@).len() == 2);
            assert(text_upper("F5"@)[0] == 'F');
            assert(text_upper("F5"@)[1] == '5');
            reveal_with_fuel(key_lookup_from, 52);
        }
    } else if i == 41 {
        assert(spec_parse_key("F6"@) == Some(KeyCode::F6)) by {
            reveal_strlit("F6");
            assert("F6"@ =~= seq!['F', '6']);
            assert(is_ascii_text("F6"@));
            assert(ascii_upper("F6"@) =~= seq!['F', '6']);
            assert(text_upper("F6"@).len() == 2);
            assert(text_upper("F6"@)[0] == 'F');
            assert(text_upper("F6"@)[1] == '6');
            reveal_with_fuel(key_lookup_from, 53);
        }
    } else if i == 42 {
        assert(spec_parse_key("F7"@) == Some(KeyCode::F7)) by {
            reveal_strlit("F7");
            assert("F7"@ =~= seq!['F', '7']);
            assert(is_ascii_text("F7"@));
            assert(ascii_upper("F7"@) =~= seq!['F', '7']);
            assert(text_upper("F7"@).len() == 2);
            assert(text_upper("F7"@)[0] == 'F');
            assert(text_upper("F7"@)[1] == '7');
            reveal_with_fuel(key_lookup_from, 54);
        }
    } else if i == 43 {
        assert(spec_parse_key("F8"@) == Some(KeyCode::F8)) by {
            reveal_strlit("F8");
            assert("F8"@ =~= seq!['F', '8']);
            assert(is_ascii_text("F8"@));
            assert(ascii_upper("F8"@) =~= seq!['F', '8']);
            assert(text_upper("F8"@).len() == 2);
            assert(text_upper("F8"@)[0] == 'F');
            assert(text_upper("F8"@)[1] == '8');
            reveal_with_fuel(key_lookup_from, 55);
        }
    } else if i == 44 {
        assert(spec_parse_key("F9"@) == Some(KeyCode::F9)) by {
            reveal_strlit("F9");
            assert("F9"@ =~= seq!['F', '9']);
            assert(is_ascii_text("F9"@));
            assert(ascii_upper("F9"@) =~= seq!['F', '9']);
            assert(text_upper("F9"@).len() == 2);
            assert(text_upper("F9"@)[0] == 'F');
            assert(text_upper("F9"@)[1] == '9');
            reveal_with_fuel(key_lookup_from, 56);
        }
    } else if i == 45 {
        assert(spec_parse_key("F10"@) == Some(KeyCode::F10)) by {
            reveal_strlit("F10");
            assert("F10"@ =~= seq!['F', '1', '0']);
            assert(is_ascii_text("F10"@));
            assert(ascii_upper("F10"@) =~= seq!['F', '1', '0']);
            assert(text_upper("F10"@).len() == 3);
            assert(text_upper("F10"@)[0] == 'F');
            assert(text_upper("F10"@)[1] == '1');
            assert(text_upper("F10"@)[2] == '0');
            reveal_with_fuel(key_lookup_from, 57);
        }
    } else if i == 46 {
        assert(spec_parse_key("F11"@) == Some(KeyCode::F11)) by {
            reveal_strlit("F11");
            assert("F11"@ =~= seq!['F', '1', '1']);
            assert(is_ascii_text("F11"@));
            assert(ascii_upper("F11"@) =~= seq!['F', '1', '1']);
            assert(text_upper("F11"@).len() == 3);
            assert(text_upper("F11"@)[0] == 'F');
            assert(text_upper("F11"@)[1] == '1');
            assert(text_upper("F11"@)[2] == '1');
            reveal_with_fuel(key_lookup_from, 58);
        }
    } else if i == 47 {
        assert(spec_parse_key("F12"@) == Some(KeyCode::F12)) by {
            reveal_strlit("F12");
            assert("F12"@ =~= seq!['F', '1', '2']);
            assert(is_ascii_text("F12"@));
            assert(ascii_upper("F12"@) =~= seq!['F', '1', '2']);
            assert(text_upper("F12"@).len() == 3);
            assert(text_upper("F12"@)[0] == 'F');
            assert(text_upper("F12"@)[1] == '1');
            assert(text_upper("F12"@)[2] == '2');
            reveal_with_fuel(key_lookup_from, 59);
        }
    }
}

/// Each name the dialog records for the named keys (Space, Enter, the arrows, ...) reads back as the key its
/// virtual-key code stands for.
#[verifier::spinoff_prover]
proof fn lemma_recorded_named_keys(i: int)
    requires
        48 <= i < 63,
    ensures
        spec_parse_key(vk_names()[i].1) == vk_key(vk_names()[i].0),
{
    lemma_key_names_spelled();
    if i == 48 {
        assert(spec_parse_key("Space"@) is None) by {
            reveal_strlit("Space");
            assert("Space"@ =~= seq!['S', 'p', 'a', 'c', 'e']);
            assert(is_ascii_text("Space"@));
            assert(ascii_upper("Space"@) =~= seq!['S', 'P', 'A', 'C', 'E']);
            assert(text_upper("Space"@).len() == 5);
            assert(text_upper("Space"@)[0] == 'S');
            assert(text_upper("Space"@)[1] == 'P');
            assert(text_upper("Space"@)[2] == 'A');
            assert(text_upper("Space"@)[3] == 'C');
            assert(text_upper("Space"@)[4] == 'E');
            reveal_with_fuel(key_lookup_from, 60);
        }
    } else if i == 49 {
        assert(spec_parse_key("Enter"@) is None) by {
            reveal_strlit("Enter");
            assert("Enter"@ =~= seq!['E', 'n', 't', 'e', 'r']);
            assert(is_ascii_text("Enter"@));
            assert(ascii_upper("Enter"@) =~= seq!['E', 'N', 'T', 'E', 'R']);
            assert(text_upper("Enter"@).len() == 5);
            assert(text_upper("Enter"@)[0] == 'E');
            assert(text_upper("Enter"@)[1] == 'N');
            assert(text_upper("Enter"@)[2] == 'T');
            assert(text_upper("Enter"@)[3] == 'E');
            assert(text_upper("Enter"@)[4] == 'R');
            reveal_with_fuel(key_lookup_from, 60);
        }
    } else if i == 50 {
        assert(spec_parse_key("Tab"@) is None) by {
            reveal_strlit("Tab");
            assert("Tab"@ =~= seq!['T', 'a', 'b']);
            assert(is_ascii_text("Tab"@));
            assert(ascii_upper("Tab"@) =~= seq!['T', 'A', 'B']);
            assert(text_upper("Tab"@).len() == 3);
            assert(text_upper("Tab"@)[0] == 'T');
            assert(text_upper("Tab"@)[1] == 'A');
            assert(text_upper("Tab"@)[2] == 'B');
            reveal_with_fuel(key_lookup_from, 60);
        }
    } else if i == 51 {
        assert(spec_parse_key("Escape"@) is None) by {
            reveal_strlit("Escape");
            assert("Escape"@ =~= seq!['E', 's', 'c', 'a', 'p', 'e']);
            assert(is_ascii_text("Escape"@));
            assert(ascii_upper("Escape"@) =~= seq!['E', 'S', 'C', 'A', 'P', 'E']);
            assert(text_upper("Escape"@).len() == 6);
            assert(text_upper("Escape"@)[0] == 'E');
            assert(text_upper("Escape"@)[1] == 'S');
            assert(text_upper("Escape"@)[2] == 'C');
            assert(text_upper("Escape"@)[3] == 'A');
            assert(text_upper("Escape"@)[4] == 'P');
            assert(text_upper("Escape"@)[5] == 'E');
            reveal_with_fuel(key_lookup_from, 60);
        }
    } else if i == 52 {
        assert(spec_parse_key("Backspace"@) is None) by {
            reveal_strlit("Backspace");
            assert("Backspace"@ =~= seq!['B', 'a', 'c', 'k', 's', 'p', 'a', 'c', 'e']);
            assert(is_ascii_text("Backspace"@));
            assert(ascii_upper("Backspace"@) =~= seq!['B', 'A', 'C', 'K', 'S', 'P', 'A', 'C', 'E']);
            assert(text_upper("Backspace"@).len() == 9);
            assert(text_upper("Backspace"@)[0] == 'B');
            assert(text_upper("Backspace"@)[1] == 'A');
            assert(text_upper("Backspace"@)[2] == 'C');
            assert(text_upper("Backspace"@)[3] == 'K');
            assert(text_upper("Backspace"@)[4] == 'S');
            assert(text_upper("Backspace"@)[5] == 'P');
            assert(text_upper("Backspace"@)[6] == 'A');
            assert(text_upper("Backspace"@)[7] == 'C');
            assert(text_upper("Backspace"@)[8] == 'E');
            reveal_with_fuel(key_lookup_from, 60);
        }
    } else if i == 53 {
        assert(spec_parse_key("Delete"@) is None) by {
            reveal_strlit("Delete");
            assert("Delete"@ =~= seq!['D', 'e', 'l', 'e', 't', 'e']);
            assert(is_ascii_text("Delete"@));
            assert(ascii_upper("Delete"@) =~= seq!['D', 'E', 'L', 'E', 'T', 'E']);
            assert(text_upper("Delete"@).len() == 6);
            assert(text_upper("Delete"@)[0] == 'D');
            assert(text_upper("Delete"@)[1] == 'E');
            assert(text_upper("Delete"@)[2] == 'L');
            assert(text_upper("Delete"@)[3] == 'E');
            assert(text_upper("Delete"@)[4] == 'T');
            assert(text_upper("Delete"@)[5] == 'E');
            reveal_with_fuel(key_lookup_from, 60);
        }
    } else if i == 54 {
        assert(spec_parse_key("Insert"@) is None) by {
            reveal_strlit("Insert");
            assert("Insert"@ =~= seq!['I', 'n', 's', 'e', 'r', 't']);
            assert(is_ascii_text("Insert"@));
            assert(ascii_upper("Insert"@) =~= seq!['I', 'N', 'S', 'E', 'R', 'T']);
            assert(text_upper("Insert"@).len() == 6);
            assert(text_upper("Insert"@)[0] == 'I');
            assert(text_upper("Insert"@)[1] == 'N');
            assert(text_upper("Insert"@)[2] == 'S');
            assert(text_upper("Insert"@)[3] == 'E');
            assert(text_upper("Insert"@)[4] == 'R');
            assert(text_upper("Insert"@)[5] == 'T');
            reveal_with_fuel(key_lookup_from, 60);
        }
    } else if i == 55 {
        assert(spec_parse_key("Home"@) is None) by {
            reveal_strlit("Home");
            assert("Home"@ =~= seq!['H', 'o', 'm', 'e']);
            assert(is_ascii_text("Home"@));
            assert(ascii_upper("Home"@) =~= seq!['H', 'O', 'M', 'E']);
            assert(text_upper("Home"@).len() == 4);
            assert(text_upper("Home"@)[0] == 'H');
            assert(text_upper("Home"@)[1] == 'O');
            assert(text_upper("Home"@)[2] == 'M');
            assert(text_upper("Home"@)[3] == 'E');
            reveal_with_fuel(key_lookup_from, 60);
        }
    } else if i == 56 {
        assert(spec_parse_key("End"@) is None) by {
            reveal_strlit("End");
            assert("End"@ =~= seq!['E', 'n', 'd']);
            assert(is_ascii_text("End"@));
            assert(ascii_upper("End"@) =~= seq!['E', 'N', 'D']);
            assert(text_upper("End"@).len() == 3);
            assert(text_upper("End"@)[0] == 'E');
            assert(text_upper("End"@)[1] == 'N');
            assert(text_upper("End"@)[2] == 'D');
            reveal_with_fuel(key_lookup_from, 60);
        }
    } else if i == 57 {
        assert(spec_parse_key("PageUp"@) is None) by {
            reveal_strlit("PageUp");
            assert("PageUp"@ =~= seq!['P', 'a', 'g', 'e', 'U', 'p']);
            assert(is_ascii_text("PageUp"@));
            assert(ascii_upper("PageUp"@) =~= seq!['P', 'A', 'G', 'E', 'U', 'P']);
            assert(text_upper("PageUp"@).len() == 6);
            assert(text_upper("PageUp"@)[0] == 'P');
            assert(text_upper("PageUp"@)[1] == 'A');
            assert(text_upper("PageUp"@)[2] == 'G');
            assert(text_upper("PageUp"@)[3] == 'E');
            assert(text_upper("PageUp"@)[4] == 'U');
            assert(text_upper("PageUp"@)[5] == 'P');
            reveal_with_fuel(key_lookup_from, 60);
        }
    } else if i == 58 {
        assert(spec_parse_key("PageDown"@) is None) by {
            reveal_strlit("PageDown");
            assert("PageDown"@ =~= seq!['P', 'a', 'g', 'e', 'D', 'o', 'w', 'n']);
            assert(is_ascii_text("PageDown"@));
            assert(ascii_upper("PageDown"@) =~= seq!['P', 'A', 'G', 'E', 'D', 'O', 'W', 'N']);
            assert(text_upper("PageDown"@).len() == 8);
            assert(text_upper("PageDown"@)[0] == 'P');
            assert(text_upper("PageDown"@)[1] == 'A');
            assert(text_upper("PageDown"@)[2] == 'G');
            assert(text_upper("PageDown"@)[3] == 'E');
            assert(text_upper("PageDown"@)[4] == 'D');
            assert(text_upper("PageDown"@)[5] == 'O');
            assert(text_upper("PageDown"@)[6] == 'W');
            assert(text_upper("PageDown"@)[7] == 'N');
            reveal_with_fuel(key_lookup_from, 60);
        }
    } else if i == 59 {
        assert(spec_parse_key("Up"@) is None) by {
            reveal_strlit("Up");
            assert("Up"@ =~= seq!['U', 'p']);
            assert(is_ascii_text("Up"@));
            assert(ascii_upper("Up"@) =~= seq!['U', 'P']);
            assert(text_upper("Up"@).len() == 2);
            assert(text_upper("Up"@)[0] == 'U');
            assert(text_upper("Up"@)[1] == 'P');
            reveal_with_fuel(key_lookup_from, 60);
        }
    } else if i == 60 {
        assert(spec_parse_key("Down"@) is None) by {
            reveal_strlit("Down");
            assert("Down"@ =~= seq!['D', 'o', 'w', 'n']);
            assert(is_ascii_text("Down"@));
            assert(ascii_upper("Down"@) =~= seq!['D', 'O', 'W', 'N']);
            assert(text_upper("Down"@).len() == 4);
            assert(text_upper("Down"@)[0] == 'D');
            assert(text_upper("Down"@)[1] == 'O');
            assert(text_upper("Down"@)[2] == 'W');
            assert(text_upper("Down"@)[3] == 'N');
            reveal_with_fuel(key_lookup_from, 60);
        }
    } else if i == 61 {
        assert(spec_parse_key("Left"@) is None) by {
            reveal_strlit("Left");
            assert("Left"@ =~= seq!['L', 'e', 'f', 't']);
            assert(is_ascii_text("Left"@));
            assert(ascii_upper("Left"@) =~= seq!['L', 'E', 'F', 'T']);
            assert(text_upper("Left"@).len() == 4);
            assert(text_upper("Left"@)[0] == 'L');
            assert(text_upper("Left"@)[1] == 'E');
            assert(text_upper("Left"@)[2] == 'F');
            assert(text_upper("Left"@)[3] == 'T');
            reveal_with_fuel(key_lookup_from, 60);
        }
    } else if i == 62 {
        assert(spec_parse_key("Right"@) is None) by {
            reveal_strlit("Right");
            assert("Right"@ =~= seq!['R', 'i', 'g', 'h', 't']);
            assert(is_ascii_text("Right"@));
            assert(ascii_upper("Right"@) =~= seq!['R', 'I', 'G', 'H', 'T']);
            assert(text_upper("Right"@).len() == 5);
            assert(text_upper("Right"@)[0] == 'R');
            assert(text_upper("Right"@)[1] == 'I');
            assert(text_upper("Right"@)[2] == 'G');
            assert(text_upper("Right"@)[3] == 'H');
            assert(text_upper("Right"@)[4] == 'T');
            reveal_with_fuel(key_lookup_from, 60);
        }
    }
}

/// Each name the dialog records for the punctuation keys reads back as the key its
/// virtual-key code stands for.
#[verifier::spinoff_prover]
proof fn lemma_recorded_symbol_keys(i: int)
    requires
        63 <= i < 74,
    ensures
        spec_parse_key(vk_names()[i].1) == vk_key(vk_names()[i].0),
{
    lemma_key_names_spelled();
    if i == 63 {
        assert(spec_parse_key(";"@) is None) by {
            reveal_strlit(";");
            assert(";"@ =~= seq![';']);
            assert(is_ascii_text(";"@));
            assert(ascii_upper(";"@) =~= seq![';']);
            assert(text_upper(";"@).len() == 1);
            assert(text_upper(";"@)[0] == ';');
            reveal_with_fuel(key_lookup_from, 60);
        }
    } else if i == 64 {
        assert(spec_parse_key("="@) is None) by {
            reveal_strlit("=");
            assert("="@ =~= seq!['=']);
            assert(is_ascii_text("="@));
            assert(ascii_upper("="@) =~= seq!['=']);
            assert(text_upper("="@).len() == 1);
            assert(text_upper("="@)[0] == '=');
            reveal_with_fuel(key_lookup_from, 60);
        }
    } else if i == 65 {
        assert(spec_parse_key(","@) is None) by {
            reveal_strlit(",");
            assert(","@ =~= seq![',']);
            assert(is_ascii_text(","@));
            assert(ascii_upper(","@) =~= seq![',']);
            assert(text_upper(","@).len() == 1);
            assert(text_upper(","@)[0] == ',');
            reveal_with_fuel(key_lookup_from, 60);
        }
    } else if i == 66 {
        assert(spec_parse_key("-"@) is None) by {
            reveal_strlit("-");
            assert("-"@ =~= seq!['-']);
            assert(is_ascii_text("-"@));
            assert(ascii_upper("-"@) =~= seq!['-']);
            assert(text_upper("-"@).len() == 1);
            assert(text_upper("-"@)[0] == '-');
            reveal_with_fuel(key_lookup_from, 60);
        }
    } else if i == 67 {
        assert(spec_parse_key("."@) is None) by {
            reveal_strlit(".");
            assert("."@ =~= seq!['.']);
            assert(is_ascii_text("."@));
            assert(ascii_upper("."@) =~= seq!['.']);
            assert(text_upper("."@).len() == 1);
            assert(text_upper("."@)[0] == '.');
            reveal_with_fuel(key_lookup_from, 60);
        }
    } else if i == 68 {
        assert(spec_parse_key("/"@) is None) by {
            reveal_strlit("/");
            assert("/"@ =~= seq!['/']);
            assert(is_ascii_text("/"@));
            assert(ascii_upper("/"@) =~= seq!['/']);
            assert(text_upper("/"@).len() == 1);
            assert(text_upper("/"@)[0] == '/');
            reveal_with_fuel(key_lookup_from, 60);
        }
    } else if i == 69 {
        assert(spec_parse_key("`"@) is None) by {
            reveal_strlit("`");
            assert("`"@ =~= seq!['`']);
            assert(is_ascii_text("`"@));
            assert(ascii_upper("`"@) =~= seq!['`']);
            assert(text_upper("`"@).len() == 1);
            assert(text_upper("`"@)[0] == '`');
            reveal_with_fuel(key_lookup_from, 60);
        }
    } else if i == 70 {
        assert(spec_parse_key("["@) is None) by {
            reveal_strlit("[");
            assert("["@ =~= seq!['[']);
            assert(is_ascii_text("["@));
            assert(ascii_upper("["@) =~= seq!['[']);
            assert(text_upper("["@).len() == 1);
            assert(text_upper("["@)[0] == '[');
            reveal_with_fuel(key_lookup_from, 60);
        }
    } else if i == 71 {
        assert(spec_parse_key("\\"@) is None) by {
            reveal_strlit("\\");
            assert("\\"@ =~= seq!['\\']);
            assert(is_ascii_text("\\"@));
            assert(ascii_upper("\\"@) =~= seq!['\\']);
            assert(text_upper("\\"@).len() == 1);
            assert(text_upper("\\"@)[0] == '\\');
            reveal_with_fuel(key_lookup_from, 60);
        }
    } else if i == 72 {
        assert(spec_parse_key("]"@) is None) by {
            reveal_strlit("]");
            assert("]"@ =~= seq![']']);
            assert(is_ascii_text("]"@));
            assert(ascii_upper("]"@) =~= seq![']']);
            assert(text_upper("]"@).len() == 1);
            assert(text_upper("]"@)[0] == ']');
            reveal_with_fuel(key_lookup_from, 60);
        }
    } else if i == 73 {
        assert(spec_parse_key("'"@) is None) by {
            reveal_strlit("'");
            assert("'"@ =~= seq!['\'']);
            assert(is_ascii_text("'"@));
            assert(ascii_upper("'"@) =~= seq!['\'']);
            assert(text_upper("'"@).len() == 1);
            assert(text_upper("'"@)[0] == '\'');
            reveal_with_fuel(key_lookup_from, 60);
        }
    }
}

proof fn lemma_recorded_entry(i: int)
    requires
        0 <= i < vk_names().len(),
    ensures
        spec_parse_key(vk_names()[i].1) == vk_key(vk_names()[i].0),
{
    if i < 26 {
        lemma_recorded_letters(i);
    } else if i < 36 {
        lemma_recorded_digits(i);
    } else if i < 48 {
        lemma_recorded_function_keys(i);
    } else if i < 63 {
        lemma_recorded_named_keys(i);
    } else if i < 74 {
        lemma_recorded_symbol_keys(i);
    }
}

/// The virtual-key codes of the table, one by one.
proof fn lemma_vk_codes_listed()
    ensures
        vk_names().len() == 74,
        vk_names()[0].0 == 0x41u16,
        vk_names()[1].0 == 0x42u16,
        vk_names()[2].0 == 0x43u16,
        vk_names()[3].0 == 0x44u16,
        vk_names()[4].0 == 0x45u16,
        vk_names()[5].0 == 0x46u16,
        vk_names()[6].0 == 0x47u16,
        vk_names()[7].0 == 0x48u16,
        vk_names()[8].0 == 0x49u16,
        vk_names()[9].0 == 0x4Au16,
        vk_names()[10].0 == 0x4Bu16,
        vk_names()[11].0 == 0x4Cu16,
        vk_names()[12].0 == 0x4Du16,
        vk_names()[13].0 == 0x4Eu16,
        vk_names()[14].0 == 0x4Fu16,
        vk_names()[15].0 == 0x50u16,
        vk_names()[16].0 == 0x51u16,
        vk_names()[17].0 == 0x52u16,
        vk_names()[18].0 == 0x53u16,
        vk_names()[19].0 == 0x54u16,
        vk_names()[20].0 == 0x55u16,
        vk_names()[21].0 == 0x56u16,
        vk_names()[22].0 == 0x57u16,
        vk_names()[23].0 == 0x58u16,
        vk_names()[24].0 == 0x59u16,
        vk_names()[25].0 == 0x5Au16,
        vk_names()[26].0 == 0x30u16,
        vk_names()[27].0 == 0x31u16,
        vk_names()[28].0 == 0x32u16,
        vk_names()[29].0 == 0x33u16,
        vk_names()[30].0 == 0x34u16,
        vk_names()[31].0 == 0x35u16,
        vk_names()[32].0 == 0x36u16,
        vk_names()[33].0 == 0x37u16,
        vk_names()[34].0 == 0x38u16,
        vk_names()[35].0 == 0x39u16,
        vk_names()[36].0 == 0x70u16,
        vk_names()[37].0 == 0x71u16,
        vk_names()[38].0 == 0x72u16,
        vk_names()[39].0 == 0x73u16,
        vk_names()[40].0 == 0x74u16,
        vk_names()[41].0 == 0x75u16,
        vk_names()[42].0 == 0x76u16,
        vk_names()[43].0 == 0x77u16,
        vk_names()[44].0 == 0x78u16,
        vk_names()[45].0 == 0x79u16,
        vk_names()[46].0 == 0x7Au16,
        vk_names()[47].0 == 0x7Bu16,
        vk_names()[48].0 == 0x20u16,
        vk_names()[49].0 == 0x0Du16,
        vk_names()[50].0 == 0x09u16,
        vk_names()[51].0 == 0x1Bu16,
        vk_names()[52].0 == 0x08u16,
        vk_names()[53].0 == 0x2Eu16,
        vk_names()[54].0 == 0x2Du16,
        vk_names()[55].0 == 0x24u16,
        vk_names()[56].0 == 0x23u16,
        vk_names()[57].0 == 0x21u16,
        vk_names()[58].0 == 0x22u16,
        vk_names()[59].0 == 0x26u16,
        vk_names()[60].0 == 0x28u16,
        vk_names()[61].0 == 0x25u16,
        vk_names()[62].0 == 0x27u16,
        vk_names()[63].0 == 0xBAu16,
        vk_names()[64].0 == 0xBBu16,
        vk_names()[65].0 == 0xBCu16,
        vk_names()[66].0 == 0xBDu16,
        vk_names()[67].0 == 0xBEu16,
        vk_names()[68].0 == 0xBFu16,
        vk_names()[69].0 == 0xC0u16,
        vk_names()[70].0 == 0xDBu16,
        vk_names()[71].0 == 0xDCu16,
        vk_names()[72].0 == 0xDDu16,
        vk_names()[73].0 == 0xDEu16,
{
}

/// Where a lookup finds a name, the table lists the code with that name.
proof fn lemma_vk_lookup_entry(names: Seq<(u16, Seq<char>)>, vk: u16, i: int) -> (j: int)
    requires
        vk_lookup_from(names, vk, i) is Some,
    ensures
        0 <= i <= j < names.len(),
        names[j].0 == vk,
        vk_lookup_from(names, vk, i) == Some(names[j].1),
    decreases names.len() - i,
{
    if names[i].0 == vk {
        i
    } else {
        lemma_vk_lookup_entry(names, vk, i + 1)
    }
}

/// A code that the table lists at or after `i` is found.
proof fn lemma_vk_lookup_listed(names: Seq<(u16, Seq<char>)>, vk: u16, i: int, j: int)
    requires
        0 <= i <= j < names.len(),
        names[j].0 == vk,
    ensures
        vk_lookup_from(names, vk, i) is Some,
    decreases j - i,
{
    if names[i].0 != vk {
        lemma_vk_lookup_listed(names, vk, i + 1, j);
    }
}

/// Every name the dialog records for a key is read back by `parse_key` as
/// the key its virtual-key code stands for: a letter, a digit or F1 to F12
/// as that key, and any other recorded key (Space, Enter, the arrows, the
/// punctuation keys) as no key, so that a hotkey recorded with such a key
/// builds no hotkey. Only the keys the dialog records have a key of a
/// hotkey.
pub proof fn law_recorded_keys_parse(vk: u16)
    ensures
        match spec_vk_to_key_name(vk) {
            Some(name) => {
                &&& spec_parse_key(name) == vk_key(vk)
                &&& forall|cfg: HotkeyConfig|
                    cfg.key@ == name ==> ((#[trigger] spec_build_hotkey(cfg)) is Some <==> vk_key(vk) is Some)
            },
            None => vk_key(vk) is None,
        },
{
    match spec_vk_to_key_name(vk) {
        Some(name) => {
            let j = lemma_vk_lookup_entry(vk_names(), vk, 0);
            lemma_recorded_entry(j);
        },
        None => {
            lemma_vk_codes_listed();
            if vk_key(vk) is Some {

                if vk == 0x41u16 {
                    lemma_vk_lookup_listed(vk_names(), vk, 0, 0);
                } else if vk == 0x42u16 {
                    lemma_vk_lookup_listed(vk_names(), vk, 0, 1);
                } else if vk == 0x43u16 {
                    lemma_vk_lookup_listed(vk_names(), vk, 0, 2);
                } else if vk == 0x44u16 {
                    lemma_vk_lookup_listed(vk_names(), vk, 0, 3);
                } else if vk == 0x45u16 {
                    lemma_vk_lookup_listed(vk_names(), vk, 0, 4);
                } else if vk == 0x46u16 {
                    lemma_vk_lookup_listed(vk_names(), vk, 0, 5);
                } else if vk == 0x47u16 {
                    lemma_vk_lookup_listed(vk_names(), vk, 0, 6);
                } else if vk == 0x48u16 {
                    lemma_vk_lookup_listed(vk_names(), vk, 0, 7);
                } else if vk == 0x49u16 {
                    lemma_vk_lookup_listed(vk_names(), vk, 0, 8);
                } else if vk == 0x4Au16 {
                    lemma_vk_lookup_listed(vk_names(), vk, 0, 9);
                } else if vk == 0x4Bu16 {
                    lemma_vk_lookup_listed(vk_names(), vk, 0, 10);
                } else if vk == 0x4Cu16 {
                    lemma_vk_lookup_listed(vk_names(), vk, 0, 11);
                } else if vk == 0x4Du16 {
                    lemma_vk_lookup_listed(vk_names(), vk, 0, 12);
                } else if vk == 0x4Eu16 {
                    lemma_vk_lookup_listed(vk_names(), vk, 0, 13);
                } else if vk == 0x4Fu16 {
                    lemma_vk_lookup_listed(vk_names(), vk, 0, 14);
                } else if vk == 0x50u16 {
                    lemma_vk_lookup_listed(vk_names(), vk, 0, 15);
                } else if vk == 0x51u16 {
                    lemma_vk_lookup_listed(vk_names(), vk, 0, 16);
                } else if vk == 0x52u16 {
                    lemma_vk_lookup_listed(vk_names(), vk, 0, 17);
                } else if vk == 0x53u16 {
                    lemma_vk_lookup_listed(vk_names(), vk, 0, 18);
                } else if vk == 0x54u16 {
                    lemma_vk_lookup_listed(vk_names(), vk, 0, 19);
                } else if vk == 0x55u16 {
                    lemma_vk_lookup_listed(vk_names(), vk, 0, 20);
                } else if vk == 0x56u16 {
                    lemma_vk_lookup_listed(vk_names(), vk, 0, 21);
                } else if vk == 0x57u16 {
                    lemma_vk_lookup_listed(vk_names(), vk, 0, 22);
                } else if vk == 0x58u16 {
                    lemma_vk_lookup_listed(vk_names(), vk, 0, 23);
                } else if vk == 0x59u16 {
                    lemma_vk_lookup_listed(vk_names(), vk, 0, 24);
                } else if vk == 0x5Au16 {
                    lemma_vk_lookup_listed(vk_names(), vk, 0, 25);
                } else if vk == 0x30u16 {
                    lemma_vk_lookup_listed(vk_names(), vk, 0, 26);
                } else if vk == 0x31u16 {
                    lemma_vk_lookup_listed(vk_names(), vk, 0, 27);
                } else if vk == 0x32u16 {
                    lemma_vk_lookup_listed(vk_names(), vk, 0, 28);
                } else if vk == 0x33u16 {
                    lemma_vk_lookup_listed(vk_names(), vk, 0, 29);
                } else if vk == 0x34u16 {
                    lemma_vk_lookup_listed(vk_names(), vk, 0, 30);
                } else if vk == 0x35u16 {
                    lemma_vk_lookup_listed(vk_names(), vk, 0, 31);
                } else if vk == 0x36u16 {
                    lemma_vk_lookup_listed(vk_names(), vk, 0, 32);
                } else if vk == 0x37u16 {
                    lemma_vk_lookup_listed(vk_names(), vk, 0, 33);
                } else if vk == 0x38u16 {
                    lemma_vk_lookup_listed(vk_names(), vk, 0, 34);
                } else if vk == 0x39u16 {
                    lemma_vk_lookup_listed(vk_names(), vk, 0, 35);
                } else if vk == 0x70u16 {
                    lemma_vk_lookup_listed(vk_names(), vk, 0, 36);
                } else if vk == 0x71u16 {
                    lemma_vk_lookup_listed(vk_names(), vk, 0, 37);
                } else if vk == 0x72u16 {
                    lemma_vk_lookup_listed(vk_names(), vk, 0, 38);
                } else if vk == 0x73u16 {
                    lemma_vk_lookup_listed(vk_names(), vk, 0, 39);
                } else if vk == 0x74u16 {
                    lemma_vk_lookup_listed(vk_names(), vk, 0, 40);
                } else if vk == 0x75u16 {
                    lemma_vk_lookup_listed(vk_names(), vk, 0, 41);
                } else if vk == 0x76u16 {
                    lemma_vk_lookup_listed(vk_names(), vk, 0, 42);
                } else if vk == 0x77u16 {
                    lemma_vk_lookup_listed(vk_names(), vk, 0, 43);
                } else if vk == 0x78u16 {
                    lemma_vk_lookup_listed(vk_names(), vk, 0, 44);
                } else if vk == 0x79u16 {
                    lemma_vk_lookup_listed(vk_names(), vk, 0, 45);
                } else if vk == 0x7Au16 {
                    lemma_vk_lookup_listed(vk_names(), vk, 0, 46);
                } else if vk == 0x7Bu16 {
                    lemma_vk_lookup_listed(vk_names(), vk, 0, 47);
                }
            }
        },
    }
}

/// The modifiers that are held, joined by "+": "Ctrl", "Alt", "Shift",
/// "Win", in that order.
pub open spec fn spec_modifiers_text(ctrl: bool, alt: bool, shift: bool, win: bool) -> Seq<char> {
    join_with(held_modifiers(ctrl, alt, shift, win), "+"@)
}

/// The names of the modifiers held, in order.
pub open spec fn held_modifiers(ctrl: bool, alt: bool, shift: bool, win: bool) -> Seq<Seq<char>> {
    (if ctrl { seq!["Ctrl"@] } else { Seq::empty() }) + (if alt { seq!["Alt"@] } else { Seq::empty() }) + (if shift {
        seq!["Shift"@]
    } else {
        Seq::empty()
    }) + (if win { seq!["Win"@] } else { Seq::empty() })
}

/// The text of the modifiers held: which keys are held comes from the keyboard state.
pub fn modifiers_text(ctrl: bool, alt: bool, shift: bool, win: bool) -> (r: String)
    ensures
        r@ == spec_modifiers_text(ctrl, alt, shift, win),
{
    let mut parts: Vec<String> = Vec::new();
    if ctrl {
        parts.push(String::from_str("Ctrl"));
    }
    if alt {
        parts.push(String::from_str("Alt"));
    }
    if shift {
        parts.push(String::from_str("Shift"));
    }
    if win {
        parts.push(String::from_str("Win"));
    }
    assert(parts@.map_values(|p: String| p@) =~= held_modifiers(ctrl, alt, shift, win));
    join_strings(&parts, "+")
}

/// How a recorded combination is shown: the key alone when there are no
/// modifiers, else modifiers, "+", key.
pub open spec fn spec_format_config(cfg: HotkeyConfig) -> Seq<char> {
    if cfg.modifiers@.len() == 0 {
        cfg.key@
    } else {
        cfg.modifiers@ + "+"@ + cfg.key@
    }
}

pub fn format_config(cfg: &HotkeyConfig) -> (r: String)
    ensures
        r@ == spec_format_config(*cfg),
{
    if cfg.modifiers.as_str().unicode_len() == 0 {
        cfg.key.clone()
    } else {
        let mut s = cfg.modifiers.clone();
        s.append("+");
        s.append(cfg.key.as_str());
        s
    }
}

pub fn point_in_rect(x: i32, y: i32, rc: &Rect) -> (r: bool)
    ensures
        r == (x >= rc.left && x < rc.right && y >= rc.top && y < rc.bottom),
{
    x >= rc.left && x < rc.right && y >= rc.top && y < rc.bottom
}

/// The UTF-16 code units of one character.
pub open spec fn utf16_of_char(c: char) -> Seq<u16> {
    if (c as u32) < 0x10000 {
        seq![(c as u32) as u16]
    } else {
        let v = (c as u32 - 0x10000) as u32;
        seq![(0xD800 + (v >> 10u32)) as u16, (0xDC00 + (v & 0x3FFu32)) as u16]
    }
}

/// The UTF-16 encoding of a text.
pub open spec fn utf16_of(s: Seq<char>) -> Seq<u16>
    decreases s.len(),
{
    if s.len() == 0 {
        Seq::empty()
    } else {
        utf16_of(s.drop_last()) + utf16_of_char(s.last())
    }
}

/// The text as UTF-16 code units followed by a terminating zero.
pub fn to_wide(s: &str) -> (r: Vec<u16>)
    ensures
        r@ == utf16_of(s@).push(0u16),
{
    let chars = crate::text::chars_of(s);
    let mut out: Vec<u16> = Vec::new();
    let n = chars.len();
    let mut i: usize = 0;
    while i < n
        invariant
            n == chars@.len(),
            chars@ == s@,
            i <= n,
            out@ == utf16_of(s@.take(i as int)),
        decreases n - i,
    {
        let c = chars[i];
        let code = c as u32;
        proof {
            assert(s@.take(i + 1).drop_last() =~= s@.take(i as int));
        }
        let ghost before = out@;
        assert(s@.take(i + 1).last() == c);
        if code < 0x10000 {
            out.push(code as u16);
            assert(out@ =~= before + utf16_of_char(c));
        } else {
            let v: u32 = code - 0x10000;
            assert(v >> 10u32 <= 0x3FFFFF) by (bit_vector);
            assert(v & 0x3FFu32 <= 0x3FF) by (bit_vector);
            let hi: u16 = (0xD800 + (v >> 10)) as u16;
            let lo: u16 = (0xDC00 + (v & 0x3FF)) as u16;
            out.push(hi);
            out.push(lo);
            assert(out@ =~= before + utf16_of_char(c));
        }
        i += 1;
    }
    assert(s@.take(n as int) =~= s@);
    out.push(0);
    out
}

/// The virtual-key codes of the modifier keys: Shift, Ctrl, Alt, the left
/// and right ones of each, and the two Windows keys.
pub open spec fn is_modifier_vk(vk: u16) -> bool {
    vk == 0x10 || vk == 0x11 || vk == 0x12 || vk == 0xA0 || vk == 0xA1 || vk == 0xA2 || vk == 0xA3
        || vk == 0xA4 || vk == 0xA5 || vk == 0x5B || vk == 0x5C
}

/// What a key press does to a field that records a hotkey.
#[derive(Debug)]
pub enum KeyPress {
    /// A modifier went down: show the modifiers held, then "+...".
    ShowPending(String),
    /// A modifier went down but none is held: nothing changes.
    Ignore,
    /// Escape: stop recording and show the field's hotkey again.
    Cancel,
    /// A key with a name: record it with the modifiers held.
    Record(HotkeyConfig),
    /// A key without a name: keep recording.
    KeepRecording,
}

/// What a key press does while a field records; `modifiers` is the text of
/// the modifiers held when the key went down.
pub fn on_record_key(vk: u16, modifiers: &str) -> (r: KeyPress)
    ensures
        if is_modifier_vk(vk) {
            if modifiers@.len() > 0 {
                r matches KeyPress::ShowPending(t) && t@ == modifiers@ + "+..."@
            } else {
                r is Ignore
            }
        } else if vk == 0x1B {
            r is Cancel
        } else {
            match spec_vk_to_key_name(vk) {
                Some(name) => r matches KeyPress::Record(cfg) && cfg.modifiers@ == modifiers@ && cfg.key@ == name,
                None => r is KeepRecording,
            }
        },
{
    if vk == 0x10 || vk == 0x11 || vk == 0x12 || vk == 0xA0 || vk == 0xA1 || vk == 0xA2 || vk == 0xA3
        || vk == 0xA4 || vk == 0xA5 || vk == 0x5B || vk == 0x5C {
        if modifiers.unicode_len() > 0 {
            let mut t = String::from_str(modifiers);
            t.append("+...");
            return KeyPress::ShowPending(t);
        }
        return KeyPress::Ignore;
    }
    if vk == 0x1B {
        return KeyPress::Cancel;
    }
    match vk_to_key_name(vk) {
        Some(name) => KeyPress::Record(HotkeyConfig::new(modifiers, name)),
        None => KeyPress::KeepRecording,
    }
}

/// A field of the dialog.
#[derive(Clone, Copy, Debug, PartialEq, Eq, Structural)]
pub enum HotkeyField {
    Bind,
    UnbindCursor,
    UnbindAll,
}

impl HotkeyDialogResult {
    /// The dialog's fields at opening: the current hotkeys.
    pub fn from_configs(bind: &HotkeyConfig, unbind_cursor: &HotkeyConfig, unbind_all: &HotkeyConfig) -> (r: Self)
        ensures
            r.bind@ == bind@,
            r.unbind_cursor@ == unbind_cursor@,
            r.unbind_all@ == unbind_all@,
    {
        HotkeyDialogResult {
            bind: HotkeyConfig { modifiers: bind.modifiers.clone(), key: bind.key.clone() },
            unbind_cursor: HotkeyConfig {
                modifiers: unbind_cursor.modifiers.clone(),
                key: unbind_cursor.key.clone(),
            },
            unbind_all: HotkeyConfig { modifiers: unbind_all.modifiers.clone(), key: unbind_all.key.clone() },
        }
    }

    /// Record a hotkey in a field; the others stay.
    pub fn set_field(&mut self, field: HotkeyField, cfg: HotkeyConfig)
        ensures
            match field {
                HotkeyField::Bind => final(self).bind == cfg && final(self).unbind_cursor == old(self).unbind_cursor
                    && final(self).unbind_all == old(self).unbind_all,
                HotkeyField::UnbindCursor => final(self).unbind_cursor == cfg && final(self).bind == old(self).bind
                    && final(self).unbind_all == old(self).unbind_all,
                HotkeyField::UnbindAll => final(self).unbind_all == cfg && final(self).bind == old(self).bind
                    && final(self).unbind_cursor == old(self).unbind_cursor,
            },
    {
        match field {
            HotkeyField::Bind => self.bind = cfg,
            HotkeyField::UnbindCursor => self.unbind_cursor = cfg,
            HotkeyField::UnbindAll => self.unbind_all = cfg,
        }
    }

    /// The hotkey a field holds.
    pub fn field(&self, field: HotkeyField) -> (r: &HotkeyConfig)
        ensures
            *r == match field {
                HotkeyField::Bind => self.bind,
                HotkeyField::UnbindCursor => self.unbind_cursor,
                HotkeyField::UnbindAll => self.unbind_all,
            },
    {
        match field {
            HotkeyField::Bind => &self.bind,
            HotkeyField::UnbindCursor => &self.unbind_cursor,
            HotkeyField::UnbindAll => &self.unbind_all,
        }
    }

    /// Put the default hotkeys back in all three fields.
    pub fn reset_to_defaults(&mut self)
        ensures
            exists|d: Settings|
                is_default_settings(d) && final(self).bind == d.hotkey_bind && final(self).unbind_cursor
                    == d.hotkey_unbind_cursor && final(self).unbind_all == d.hotkey_unbind_all,
    {
        let d = Settings::default();
        self.bind = d.hotkey_bind;
        self.unbind_cursor = d.hotkey_unbind_cursor;
        self.unbind_all = d.hotkey_unbind_all;
    }
}

/// The Save button.
pub const IDC_BTN_SAVE: i32 = 2001;

/// The Cancel button.
pub const IDC_BTN_CANCEL: i32 = 2002;

/// The Reset Defaults button.
pub const IDC_BTN_RESET: i32 = 2003;

/// What the dialog window does after a click.
#[derive(Clone, Copy, Debug, PartialEq, Eq, Structural)]
pub enum DialogCommand {
    Close,
    Repaint,
    Nothing,
}

impl HotkeyDialogResult {
    /// A click on a button: Save marks the hotkeys saved and closes, Cancel
    /// closes, Reset puts the defaults back and repaints; elsewhere nothing.
    pub fn on_button(&mut self, id: i32, saved: &mut bool) -> (r: DialogCommand)
        ensures
            id == IDC_BTN_SAVE ==> r == DialogCommand::Close && *final(saved) && *final(self) == *old(self),
            id == IDC_BTN_CANCEL ==> r == DialogCommand::Close && *final(saved) == *old(saved) && *final(self)
                == *old(self),
            id == IDC_BTN_RESET ==> r == DialogCommand::Repaint && *final(saved) == *old(saved) && exists|d: Settings|
                is_default_settings(d) && final(self).bind == d.hotkey_bind && final(self).unbind_cursor
                    == d.hotkey_unbind_cursor && final(self).unbind_all == d.hotkey_unbind_all,
            id != IDC_BTN_SAVE && id != IDC_BTN_CANCEL && id != IDC_BTN_RESET ==> r == DialogCommand::Nothing
                && *final(saved) == *old(saved) && *final(self) == *old(self),
    {
        if id == IDC_BTN_SAVE {
            *saved = true;
            DialogCommand::Close
        } else if id == IDC_BTN_CANCEL {
            DialogCommand::Close
        } else if id == IDC_BTN_RESET {
            self.reset_to_defaults();
            DialogCommand::Repaint
        } else {
            DialogCommand::Nothing
        }
    }
}

/// The id of the first button whose rectangle holds the point, or 0.
pub open spec fn spec_button_at(buttons: Seq<(i32, Rect)>, x: int, y: int) -> i32
    decreases buttons.len(),
{
    if buttons.len() == 0 {
        0
    } else if buttons[0].1.left <= x < buttons[0].1.right && buttons[0].1.top <= y < buttons[0].1.bottom {
        buttons[0].0
    } else {
        spec_button_at(buttons.drop_first(), x, y)
    }
}

/// Which button a point is on (its id), or 0 when it is on none.
pub fn button_at(buttons: &[(i32, Rect)], x: i32, y: i32) -> (r: i32)
    ensures
        r == spec_button_at(buttons@, x as int, y as int),
{
    let n = buttons.len();
    let mut i: usize = 0;
    assert(buttons@.skip(0) =~= buttons@);
    while i < n
        invariant
            n == buttons@.len(),
            i <= n,
            spec_button_at(buttons@, x as int, y as int) == spec_button_at(buttons@.skip(i as int), x as int, y as int),
        decreases n - i,
    {
        assert(buttons@.skip(i as int).drop_first() =~= buttons@.skip(i + 1));
        let (id, rc) = buttons[i];
        if point_in_rect(x, y, &rc) {
            return id;
        }
        i += 1;
    }
    0
}

} // verus!
verus! {

/// Each held modifier name is one of the four, and only when it is held.
proof fn lemma_held_names(ctrl: bool, alt: bool, shift: bool, win: bool, k: int)
    requires
        0 <= k < held_modifiers(ctrl, alt, shift, win).len(),
    ensures
        (held_modifiers(ctrl, alt, shift, win)[k] == "Ctrl"@ && ctrl) || (held_modifiers(ctrl, alt, shift, win)[k]
            == "Alt"@ && alt) || (held_modifiers(ctrl, alt, shift, win)[k] == "Shift"@ && shift) || (
        held_modifiers(ctrl, alt, shift, win)[k] == "Win"@ && win),
{
    let a = if ctrl { seq!["Ctrl"@] } else { Seq::<Seq<char>>::empty() };
    let b = if alt { seq!["Alt"@] } else { Seq::<Seq<char>>::empty() };
    let c = if shift { seq!["Shift"@] } else { Seq::<Seq<char>>::empty() };
    let d = if win { seq!["Win"@] } else { Seq::<Seq<char>>::empty() };
    let h = held_modifiers(ctrl, alt, shift, win);
    assert(h == a + b + c + d);
    if k < a.len() {
        assert(h[k] == a[k]);
    } else if k < a.len() + b.len() {
        assert(h[k] == b[k - a.len()]);
    } else if k < a.len() + b.len() + c.len() {
        assert(h[k] == c[k - a.len() - b.len()]);
    } else {
        assert(h[k] == d[k - a.len() - b.len() - c.len()]);
    }
}

/// A character property that every character of the held names and of
/// "+" has (for the names that are held) holds of every character of the
/// text of the held modifiers.
proof fn lemma_modifiers_text_chars(ctrl: bool, alt: bool, shift: bool, win: bool, p: spec_fn(char) -> bool)
    requires
        ctrl ==> p('C') && p('t') && p('r') && p('l'),
        alt ==> p('A') && p('l') && p('t'),
        shift ==> p('S') && p('h') && p('i') && p('f') && p('t'),
        win ==> p('W') && p('i') && p('n'),
        p('+'),
    ensures
        forall|i: int|
            0 <= i < spec_modifiers_text(ctrl, alt, shift, win).len() ==> p(
                #[trigger] spec_modifiers_text(ctrl, alt, shift, win)[i],
            ),
{
    reveal_strlit("Ctrl");
    reveal_strlit("Alt");
    reveal_strlit("Shift");
    reveal_strlit("Win");
    reveal_strlit("+");
    assert("Ctrl"@ =~= seq!['C', 't', 'r', 'l']);
    assert("Alt"@ =~= seq!['A', 'l', 't']);
    assert("Shift"@ =~= seq!['S', 'h', 'i', 'f', 't']);
    assert("Win"@ =~= seq!['W', 'i', 'n']);
    assert("+"@ =~= seq!['+']);
    let parts = held_modifiers(ctrl, alt, shift, win);
    assert forall|k: int, i: int| 0 <= k < parts.len() && 0 <= i < parts[k].len() implies p(#[trigger] parts[k][i]) by {
        lemma_held_names(ctrl, alt, shift, win, k);
    }
    lemma_join_chars(parts, "+"@, p);
}

/// The held modifier `name` occurs, upper-cased, in the upper-cased text
/// of the held modifiers.
proof fn lemma_held_name_occurs(ctrl: bool, alt: bool, shift: bool, win: bool, k: int)
    requires
        0 <= k < held_modifiers(ctrl, alt, shift, win).len(),
        is_ascii_text(spec_modifiers_text(ctrl, alt, shift, win)),
    ensures
        contains_seq(
            text_upper(spec_modifiers_text(ctrl, alt, shift, win)),
            ascii_upper(held_modifiers(ctrl, alt, shift, win)[k]),
        ),
{
    let parts = held_modifiers(ctrl, alt, shift, win);
    lemma_join_has_part(parts, "+"@, k);
    lemma_upper_keeps_occurrence(spec_modifiers_text(ctrl, alt, shift, win), parts[k]);
}

/// The upper-cased text lacks the character `c` when no character of the
/// text upper-cases to it.
proof fn lemma_upper_lacks(t: Seq<char>, c: char)
    requires
        is_ascii_text(t),
        forall|i: int| 0 <= i < t.len() ==> ascii_upper_char(#[trigger] t[i]) != c,
    ensures
        forall|i: int| 0 <= i < text_upper(t).len() ==> #[trigger] text_upper(t)[i] != c,
{
}

/// The control flag of the text of the held modifiers is whether Ctrl is held.
#[verifier::rlimit(60)]
proof fn lemma_recorded_control(ctrl: bool, alt: bool, shift: bool, win: bool)
    ensures
        spec_parse_modifiers(spec_modifiers_text(ctrl, alt, shift, win)).control == ctrl,
{
    let t = spec_modifiers_text(ctrl, alt, shift, win);
    let u = text_upper(t);
    let parts = held_modifiers(ctrl, alt, shift, win);
    reveal_strlit("Ctrl");
    reveal_strlit("Alt");
    reveal_strlit("Shift");
    reveal_strlit("Win");
    lemma_modifiers_text_chars(ctrl, alt, shift, win, |c: char| (c as u32) < 128);
    assert(is_ascii_text(t));
    reveal_strlit("CTRL");
    reveal_strlit("CONTROL");
    if ctrl {
        assert(parts[0] == "Ctrl"@);
        lemma_held_name_occurs(ctrl, alt, shift, win, 0);
        assert(ascii_upper("Ctrl"@) =~= "CTRL"@);
    } else {
        lemma_modifiers_text_chars(ctrl, alt, shift, win, |c: char| ascii_upper_char(c) != 'C');
        lemma_upper_lacks(t, 'C');
        lemma_missing_char(u, "CTRL"@, 0);
        lemma_missing_char(u, "CONTROL"@, 0);
    }
}

/// The alt flag of the text of the held modifiers is whether Alt is held.
#[verifier::rlimit(60)]
proof fn lemma_recorded_alt(ctrl: bool, alt: bool, shift: bool, win: bool)
    ensures
        spec_parse_modifiers(spec_modifiers_text(ctrl, alt, shift, win)).alt == alt,
{
    let t = spec_modifiers_text(ctrl, alt, shift, win);
    let u = text_upper(t);
    let parts = held_modifiers(ctrl, alt, shift, win);
    reveal_strlit("Ctrl");
    reveal_strlit("Alt");
    reveal_strlit("Shift");
    reveal_strlit("Win");
    lemma_modifiers_text_chars(ctrl, alt, shift, win, |c: char| (c as u32) < 128);
    assert(is_ascii_text(t));
    reveal_strlit("ALT");
    let ka: int = if ctrl { 1 } else { 0 };
    if alt {
        assert(parts[ka] == "Alt"@);
        lemma_held_name_occurs(ctrl, alt, shift, win, ka);
        assert(ascii_upper("Alt"@) =~= "ALT"@);
    } else {
        lemma_modifiers_text_chars(ctrl, alt, shift, win, |c: char| ascii_upper_char(c) != 'A');
        lemma_upper_lacks(t, 'A');
        lemma_missing_char(u, "ALT"@, 0);
    }
}

/// The shift flag of the text of the held modifiers is whether Shift is held.
#[verifier::rlimit(60)]
proof fn lemma_recorded_shift(ctrl: bool, alt: bool, shift: bool, win: bool)
    ensures
        spec_parse_modifiers(spec_modifiers_text(ctrl, alt, shift, win)).shift == shift,
{
    let t = spec_modifiers_text(ctrl, alt, shift, win);
    let u = text_upper(t);
    let parts = held_modifiers(ctrl, alt, shift, win);
    reveal_strlit("Ctrl");
    reveal_strlit("Alt");
    reveal_strlit("Shift");
    reveal_strlit("Win");
    lemma_modifiers_text_chars(ctrl, alt, shift, win, |c: char| (c as u32) < 128);
    assert(is_ascii_text(t));
    reveal_strlit("SHIFT");
    let ks: int = (if ctrl { 1int } else { 0int }) + (if alt { 1int } else { 0int });
    if shift {
        assert(parts[ks] == "Shift"@);
        lemma_held_name_occurs(ctrl, alt, shift, win, ks);
        assert(ascii_upper("Shift"@) =~= "SHIFT"@);
    } else {
        lemma_modifiers_text_chars(ctrl, alt, shift, win, |c: char| ascii_upper_char(c) != 'H');
        lemma_upper_lacks(t, 'H');
        lemma_missing_char(u, "SHIFT"@, 1);
    }
}

/// The super flag of the text of the held modifiers is whether Win is held.
#[verifier::rlimit(80)]
proof fn lemma_recorded_super(ctrl: bool, alt: bool, shift: bool, win: bool)
    ensures
        spec_parse_modifiers(spec_modifiers_text(ctrl, alt, shift, win)).super_key == win,
{
    let t = spec_modifiers_text(ctrl, alt, shift, win);
    let u = text_upper(t);
    let parts = held_modifiers(ctrl, alt, shift, win);
    reveal_strlit("Ctrl");
    reveal_strlit("Alt");
    reveal_strlit("Shift");
    reveal_strlit("Win");
    lemma_modifiers_text_chars(ctrl, alt, shift, win, |c: char| (c as u32) < 128);
    assert(is_ascii_text(t));
    reveal_strlit("SUPER");
    reveal_strlit("WIN");
    reveal_strlit("META");
    let kw: int = (if ctrl { 1int } else { 0int }) + (if alt { 1int } else { 0int }) + (if shift { 1int } else { 0int });
    lemma_modifiers_text_chars(ctrl, alt, shift, win, |c: char| ascii_upper_char(c) != 'U');
    lemma_upper_lacks(t, 'U');
    lemma_missing_char(u, "SUPER"@, 1);
    lemma_modifiers_text_chars(ctrl, alt, shift, win, |c: char| ascii_upper_char(c) != 'M');
    lemma_upper_lacks(t, 'M');
    lemma_missing_char(u, "META"@, 0);
    if win {
        assert(parts[kw] == "Win"@);
        lemma_held_name_occurs(ctrl, alt, shift, win, kw);
        assert("Win"@ =~= seq!['W', 'i', 'n']);
        assert("WIN"@ =~= seq!['W', 'I', 'N']);
        assert(ascii_upper("Win"@) =~= "WIN"@);
    } else {
        lemma_modifiers_text_chars(ctrl, alt, shift, win, |c: char| ascii_upper_char(c) != 'W');
        lemma_upper_lacks(t, 'W');
        lemma_missing_char(u, "WIN"@, 0);
    }
}

/// The modifiers the dialog records read back as the same modifiers: the
/// text of the held modifiers (such as "Alt+Shift", or "" when none is
/// held) parses to exactly the flags of the modifiers held, so that a key
/// combination recorded without Ctrl is never registered with it.
pub proof fn law_recorded_modifiers_parse(ctrl: bool, alt: bool, shift: bool, win: bool)
    ensures
        spec_parse_modifiers(spec_modifiers_text(ctrl, alt, shift, win)) == (HotkeyModifiers {
            control: ctrl,
            alt: alt,
            shift: shift,
            super_key: win,
        }),
{
    lemma_recorded_control(ctrl, alt, shift, win);
    lemma_recorded_alt(ctrl, alt, shift, win);
    lemma_recorded_shift(ctrl, alt, shift, win);
    lemma_recorded_super(ctrl, alt, shift, win);
}

} // verus!
