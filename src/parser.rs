//! The key normalizer: raw codes to key names, modifier tracking, and the
//! name filters used before display.

use vstd::prelude::*;
use vstd::string::*;
use crate::events::{names, KeyEvent};
use crate::keypress::RawEvent;
use crate::keys::{
    lower_of, lowercase, EV_KEY, KEY_0, KEY_1, KEY_2, KEY_3, KEY_4, KEY_5, KEY_6, KEY_7,
    KEY_8, KEY_9, KEY_A, KEY_B, KEY_BACKSPACE, KEY_C, KEY_D, KEY_DELETE, KEY_DOWN, KEY_E,
    KEY_ENTER, KEY_ESC, KEY_F, KEY_F1, KEY_F10, KEY_F11, KEY_F12, KEY_F2, KEY_F3, KEY_F4,
    KEY_F5, KEY_F6, KEY_F7, KEY_F8, KEY_F9, KEY_G, KEY_H, KEY_I, KEY_J, KEY_K, KEY_L,
    KEY_LEFT, KEY_LEFTALT, KEY_LEFTCTRL, KEY_LEFTMETA, KEY_LEFTSHIFT, KEY_M, KEY_N, KEY_O,
    KEY_P, KEY_Q, KEY_R, KEY_RIGHT, KEY_RIGHTALT, KEY_RIGHTCTRL, KEY_RIGHTMETA,
    KEY_RIGHTSHIFT, KEY_S, KEY_SPACE, KEY_T, KEY_TAB, KEY_U, KEY_UP, KEY_V, KEY_W, KEY_X,
    KEY_Y, KEY_Z,
};
use crate::text::{decimal, owned, push_char, push_decimal, str_eq};

verus! {

/// Which modifier keys are currently held.
#[derive(Clone, Copy, Debug, PartialEq, Eq, Structural)]
pub struct ModifierState {
    pub ctrl: bool,
    pub alt: bool,
    pub shift: bool,
    pub super_key: bool,
    pub meta: bool,
}

impl Default for ModifierState {
    fn default() -> (r: Self)
        ensures
            r == (ModifierState { ctrl: false, alt: false, shift: false, super_key: false, meta: false }),
    {
        ModifierState { ctrl: false, alt: false, shift: false, super_key: false, meta: false }
    }
}

/// Converts raw input events to key events, tracking modifiers.
pub struct KeyParser {
    modifiers: ModifierState,
}

/// The display name of a device key code; unlisted codes read `Key_<code>`.
pub open spec fn code_name(code: u16) -> Seq<char> {
    match code {
        KEY_A => "A"@,
        KEY_B => "B"@,
        KEY_C => "C"@,
        KEY_D => "D"@,
        KEY_E => "E"@,
        KEY_F => "F"@,
        KEY_G => "G"@,
        KEY_H => "H"@,
        KEY_I => "I"@,
        KEY_J => "J"@,
        KEY_K => "K"@,
        KEY_L => "L"@,
        KEY_M => "M"@,
        KEY_N => "N"@,
        KEY_O => "O"@,
        KEY_P => "P"@,
        KEY_Q => "Q"@,
        KEY_R => "R"@,
        KEY_S => "S"@,
        KEY_T => "T"@,
        KEY_U => "U"@,
        KEY_V => "V"@,
        KEY_W => "W"@,
        KEY_X => "X"@,
        KEY_Y => "Y"@,
        KEY_Z => "Z"@,
        KEY_0 => "0"@,
        KEY_1 => "1"@,
        KEY_2 => "2"@,
        KEY_3 => "3"@,
        KEY_4 => "4"@,
        KEY_5 => "5"@,
        KEY_6 => "6"@,
        KEY_7 => "7"@,
        KEY_8 => "8"@,
        KEY_9 => "9"@,
        KEY_SPACE => "Space"@,
        KEY_ENTER => "Enter"@,
        KEY_TAB => "Tab"@,
        KEY_BACKSPACE => "Backspace"@,
        KEY_DELETE => "Delete"@,
        KEY_ESC => "Escape"@,
        KEY_LEFTSHIFT | KEY_RIGHTSHIFT => "Shift"@,
        KEY_LEFTCTRL | KEY_RIGHTCTRL => "Ctrl"@,
        KEY_LEFTALT | KEY_RIGHTALT => "Alt"@,
        KEY_LEFTMETA | KEY_RIGHTMETA => "Super"@,
        KEY_UP => "↑"@,
        KEY_DOWN => "↓"@,
        KEY_LEFT => "←"@,
        KEY_RIGHT => "→"@,
        KEY_F1 => "F1"@,
        KEY_F2 => "F2"@,
        KEY_F3 => "F3"@,
        KEY_F4 => "F4"@,
        KEY_F5 => "F5"@,
        KEY_F6 => "F6"@,
        KEY_F7 => "F7"@,
        KEY_F8 => "F8"@,
        KEY_F9 => "F9"@,
        KEY_F10 => "F10"@,
        KEY_F11 => "F11"@,
        KEY_F12 => "F12"@,
        _ => "Key_"@ + decimal(code as nat),
    }
}

/// Names of the held modifiers, in the order Ctrl, Alt, Shift, Super, Meta.
pub open spec fn active_names(m: ModifierState) -> Seq<Seq<char>> {
    (if m.ctrl { seq!["Ctrl"@] } else { Seq::empty() }) + (if m.alt { seq!["Alt"@] } else { Seq::empty() })
        + (if m.shift { seq!["Shift"@] } else { Seq::empty() }) + (if m.super_key { seq!["Super"@] } else { Seq::empty() })
        + (if m.meta { seq!["Meta"@] } else { Seq::empty() })
}

/// The `i`-th lower-case letter of the alphabet.
pub open spec fn nth_lower(i: u32) -> char {
    match i {
        0 => 'a',
        1 => 'b',
        2 => 'c',
        3 => 'd',
        4 => 'e',
        5 => 'f',
        6 => 'g',
        7 => 'h',
        8 => 'i',
        9 => 'j',
        10 => 'k',
        11 => 'l',
        12 => 'm',
        13 => 'n',
        14 => 'o',
        15 => 'p',
        16 => 'q',
        17 => 'r',
        18 => 's',
        19 => 't',
        20 => 'u',
        21 => 'v',
        22 => 'w',
        23 => 'x',
        24 => 'y',
        _ => 'z',
    }
}

fn nth_lower_exec(i: u32) -> (c: char)
    requires
        i < 26,
    ensures
        c == nth_lower(i),
{
    match i {
        0 => 'a',
        1 => 'b',
        2 => 'c',
        3 => 'd',
        4 => 'e',
        5 => 'f',
        6 => 'g',
        7 => 'h',
        8 => 'i',
        9 => 'j',
        10 => 'k',
        11 => 'l',
        12 => 'm',
        13 => 'n',
        14 => 'o',
        15 => 'p',
        16 => 'q',
        17 => 'r',
        18 => 's',
        19 => 't',
        20 => 'u',
        21 => 'v',
        22 => 'w',
        23 => 'x',
        24 => 'y',
        _ => 'z',
    }
}

/// Key names of the keycodes that are not digits, letters or function keys.
pub open spec fn special_keycode_name(k: u32) -> Seq<char> {
    match k {
        9 => "Escape"@,
        22 => "Backspace"@,
        23 => "Tab"@,
        36 => "Enter"@,
        65 => "Space"@,
        111 => "Up"@,
        116 => "Down"@,
        113 => "Left"@,
        114 => "Right"@,
        37 => "Ctrl"@,
        105 => "Ctrl"@,
        64 => "Alt"@,
        108 => "Alt"@,
        50 => "Shift"@,
        62 => "Shift"@,
        133 => "Super"@,
        134 => "Super"@,
        20 => "-"@,
        21 => "="@,
        34 => "["@,
        35 => "]"@,
        47 => ";"@,
        48 => "'"@,
        49 => "`"@,
        51 => "\\"@,
        59 => ","@,
        60 => "."@,
        61 => "/"@,
        _ => Seq::empty(),
    }
}

pub open spec fn is_special_keycode(k: u32) -> bool {
    special_keycode_name(k).len() > 0
}

/// The keycode table: digits at 10..=19, letters at 38..=63, F1..F12 at
/// 67..=78, and named keys that take precedence over those ranges.
pub open spec fn keycode_table(k: u32) -> Option<Seq<char>> {
    if is_special_keycode(k) {
        Some(special_keycode_name(k))
    } else if 67 <= k <= 78 {
        Some("F"@ + decimal((k - 66) as nat))
    } else if 38 <= k <= 63 {
        Some(seq![nth_lower((k - 38) as u32)])
    } else if 10 <= k <= 19 {
        Some(decimal((k - 10) as nat))
    } else {
        None
    }
}

fn special_keycode_exec(k: u32) -> (r: &'static str)
    ensures
        r@ == special_keycode_name(k),
{
    proof {
        reveal_strlit("");
        reveal_strlit("Escape");
        reveal_strlit("Backspace");
        reveal_strlit("Tab");
        reveal_strlit("Enter");
        reveal_strlit("Space");
        reveal_strlit("Up");
        reveal_strlit("Down");
        reveal_strlit("Left");
        reveal_strlit("Right");
        reveal_strlit("Ctrl");
        reveal_strlit("Ctrl");
        reveal_strlit("Alt");
        reveal_strlit("Alt");
        reveal_strlit("Shift");
        reveal_strlit("Shift");
        reveal_strlit("Super");
        reveal_strlit("Super");
        reveal_strlit("-");
        reveal_strlit("=");
        reveal_strlit("[");
        reveal_strlit("]");
        reveal_strlit(";");
        reveal_strlit("'");
        reveal_strlit("`");
        reveal_strlit("\\");
        reveal_strlit(",");
        reveal_strlit(".");
        reveal_strlit("/");
    }
    match k {
        9 => "Escape",
        22 => "Backspace",
        23 => "Tab",
        36 => "Enter",
        65 => "Space",
        111 => "Up",
        116 => "Down",
        113 => "Left",
        114 => "Right",
        37 => "Ctrl",
        105 => "Ctrl",
        64 => "Alt",
        108 => "Alt",
        50 => "Shift",
        62 => "Shift",
        133 => "Super",
        134 => "Super",
        20 => "-",
        21 => "=",
        34 => "[",
        35 => "]",
        47 => ";",
        48 => "'",
        49 => "`",
        51 => "\\",
        59 => ",",
        60 => ".",
        61 => "/",
        _ => "",
    }
}

/// The parts of a string between `+` signs (at least one, possibly empty).
pub open spec fn split_plus(s: Seq<char>) -> Seq<Seq<char>>
    decreases s.len(),
{
    if s.len() == 0 {
        seq![Seq::empty()]
    } else {
        let p = split_plus(s.drop_last());
        if s.last() == '+' {
            p.push(Seq::empty())
        } else {
            p.update(p.len() - 1, p.last().push(s.last()))
        }
    }
}

impl KeyParser {
    /// A parser with no modifier held.
    pub fn new() -> (r: Self)
        ensures
            r.modifier_state() == (ModifierState { ctrl: false, alt: false, shift: false, super_key: false, meta: false }),
    {
        KeyParser { modifiers: ModifierState { ctrl: false, alt: false, shift: false, super_key: false, meta: false } }
    }

    pub closed spec fn modifier_state(&self) -> ModifierState {
        self.modifiers
    }

    /// The modifiers currently held.
    pub fn modifiers(&self) -> (r: ModifierState)
        ensures
            r == self.modifier_state(),
    {
        self.modifiers
    }

    /// The display name of a device key code.
    pub fn evdev_key_to_string(&self, code: u16) -> (r: String)
        ensures
            r@ == code_name(code),
    {
        match code {
            KEY_A => owned("A"),
            KEY_B => owned("B"),
            KEY_C => owned("C"),
            KEY_D => owned("D"),
            KEY_E => owned("E"),
            KEY_F => owned("F"),
            KEY_G => owned("G"),
            KEY_H => owned("H"),
            KEY_I => owned("I"),
            KEY_J => owned("J"),
            KEY_K => owned("K"),
            KEY_L => owned("L"),
            KEY_M => owned("M"),
            KEY_N => owned("N"),
            KEY_O => owned("O"),
            KEY_P => owned("P"),
            KEY_Q => owned("Q"),
            KEY_R => owned("R"),
            KEY_S => owned("S"),
            KEY_T => owned("T"),
            KEY_U => owned("U"),
            KEY_V => owned("V"),
            KEY_W => owned("W"),
            KEY_X => owned("X"),
            KEY_Y => owned("Y"),
            KEY_Z => owned("Z"),
            KEY_0 => owned("0"),
            KEY_1 => owned("1"),
            KEY_2 => owned("2"),
            KEY_3 => owned("3"),
            KEY_4 => owned("4"),
            KEY_5 => owned("5"),
            KEY_6 => owned("6"),
            KEY_7 => owned("7"),
            KEY_8 => owned("8"),
            KEY_9 => owned("9"),
            KEY_SPACE => owned("Space"),
            KEY_ENTER => owned("Enter"),
            KEY_TAB => owned("Tab"),
            KEY_BACKSPACE => owned("Backspace"),
            KEY_DELETE => owned("Delete"),
            KEY_ESC => owned("Escape"),
            KEY_LEFTSHIFT | KEY_RIGHTSHIFT => owned("Shift"),
            KEY_LEFTCTRL | KEY_RIGHTCTRL => owned("Ctrl"),
            KEY_LEFTALT | KEY_RIGHTALT => owned("Alt"),
            KEY_LEFTMETA | KEY_RIGHTMETA => owned("Super"),
            KEY_UP => owned("↑"),
            KEY_DOWN => owned("↓"),
            KEY_LEFT => owned("←"),
            KEY_RIGHT => owned("→"),
            KEY_F1 => owned("F1"),
            KEY_F2 => owned("F2"),
            KEY_F3 => owned("F3"),
            KEY_F4 => owned("F4"),
            KEY_F5 => owned("F5"),
            KEY_F6 => owned("F6"),
            KEY_F7 => owned("F7"),
            KEY_F8 => owned("F8"),
            KEY_F9 => owned("F9"),
            KEY_F10 => owned("F10"),
            KEY_F11 => owned("F11"),
            KEY_F12 => owned("F12"),
            _ => {
                let mut r = owned("Key_");
                push_decimal(&mut r, code as u64);
                r
            },
        }
    }

    /// The key name of an XKB keycode, if the table lists it.
    pub fn keycode_name(&self, k: u32) -> (r: Option<String>)
        ensures
            r matches Some(n) ==> keycode_table(k) == Some(n@),
            r is None ==> keycode_table(k) is None,
    {
        let special = special_keycode_exec(k);
        if special.unicode_len() > 0 {
            Some(owned(special))
        } else if 67 <= k && k <= 78 {
            let mut r = owned("F");
            push_decimal(&mut r, (k - 66) as u64);
            Some(r)
        } else if 38 <= k && k <= 63 {
            let mut r = String::new();
            push_char(&mut r, nth_lower_exec(k - 38));
            assert(r@ =~= seq![nth_lower((k - 38) as u32)]);
            Some(r)
        } else if 10 <= k && k <= 19 {
            let mut r = String::new();
            push_decimal(&mut r, (k - 10) as u64);
            assert(r@ =~= decimal((k - 10) as nat));
            Some(r)
        } else {
            None
        }
    }
}

/// What `str::trim` returns for a string.
pub uninterp spec fn trim_of(s: Seq<char>) -> Seq<char>;

/// Relies on `str::trim`: the string without leading and trailing white
/// space; the result depends on the characters alone.
#[verifier::external_body]
fn trimmed(s: &str) -> (r: &str)
    ensures
        r@ == trim_of(s@),
{
    s.trim()
}

/// The first character of what `char::to_uppercase` yields for a character.
pub uninterp spec fn upper_head_of(c: char) -> char;

/// Relies on `char::to_uppercase`: its first character (the iterator is never
/// empty); the result depends on the character alone.
#[verifier::external_body]
fn upper_head(c: char) -> (r: char)
    ensures
        r == upper_head_of(c),
{
    c.to_uppercase().next().unwrap_or(c)
}

/// The string with its first character upper-cased.
pub open spec fn capitalized(l: Seq<char>) -> Seq<char> {
    if l.len() == 0 {
        l
    } else {
        seq![upper_head_of(l[0])] + l.drop_first()
    }
}

/// Canonical name for a lower-cased key name.
pub open spec fn normalized(l: Seq<char>) -> Seq<char> {
    if l == "control"@ || l == "ctrl"@ || l == "control_l"@ || l == "control_r"@ {
        "Ctrl"@
    } else if l == "alt"@ || l == "alt_l"@ || l == "alt_r"@ || l == "meta"@ || l == "meta_l"@ || l == "meta_r"@ {
        "Alt"@
    } else if l == "shift"@ || l == "shift_l"@ || l == "shift_r"@ {
        "Shift"@
    } else if l == "super"@ || l == "super_l"@ || l == "super_r"@ || l == "cmd"@ || l == "windows"@ {
        "Super"@
    } else if l == "return"@ || l == "enter"@ {
        "Enter"@
    } else if l == "backspace"@ || l == "back"@ {
        "Backspace"@
    } else if l == "delete"@ || l == "del"@ {
        "Delete"@
    } else if l == "escape"@ || l == "esc"@ {
        "Escape"@
    } else if l == "space"@ || l == " "@ {
        "Space"@
    } else if l == "tab"@ {
        "Tab"@
    } else {
        capitalized(l)
    }
}

/// Canonical name for an already lower-cased key name: aliases such as
/// `control`, `return` or `esc` map to one name, anything else is capitalized.
pub fn normalize_lowered(lowered: &str) -> (r: String)
    ensures
        r@ == normalized(lowered@),
{
    if str_eq(lowered, "control") || str_eq(lowered, "ctrl") || str_eq(lowered, "control_l") || str_eq(lowered, "control_r") {
        owned("Ctrl")
    } else if str_eq(lowered, "alt") || str_eq(lowered, "alt_l") || str_eq(lowered, "alt_r") || str_eq(lowered, "meta") || str_eq(lowered, "meta_l") || str_eq(lowered, "meta_r") {
        owned("Alt")
    } else if str_eq(lowered, "shift") || str_eq(lowered, "shift_l") || str_eq(lowered, "shift_r") {
        owned("Shift")
    } else if str_eq(lowered, "super") || str_eq(lowered, "super_l") || str_eq(lowered, "super_r") || str_eq(lowered, "cmd") || str_eq(lowered, "windows") {
        owned("Super")
    } else if str_eq(lowered, "return") || str_eq(lowered, "enter") {
        owned("Enter")
    } else if str_eq(lowered, "backspace") || str_eq(lowered, "back") {
        owned("Backspace")
    } else if str_eq(lowered, "delete") || str_eq(lowered, "del") {
        owned("Delete")
    } else if str_eq(lowered, "escape") || str_eq(lowered, "esc") {
        owned("Escape")
    } else if str_eq(lowered, "space") || str_eq(lowered, " ") {
        owned("Space")
    } else if str_eq(lowered, "tab") {
        owned("Tab")
    } else {
        let n = lowered.unicode_len();
        if n == 0 {
            owned(lowered)
        } else {
            let mut r = String::new();
            push_char(&mut r, upper_head(lowered.get_char(0)));
            r.append(lowered.substring_char(1, n));
            assert(r@ =~= capitalized(lowered@));
            r
        }
    }
}

/// Names of the modifier keys as the normalizer writes them.
pub open spec fn is_modifier_key_name(n: Seq<char>) -> bool {
    n == "Ctrl"@ || n == "Alt"@ || n == "Shift"@ || n == "Super"@ || n == "Meta"@
}

/// Lock keys, in lower case, which are never shown.
pub open spec fn is_lock_key_name(l: Seq<char>) -> bool {
    l == "caps_lock"@ || l == "num_lock"@ || l == "scroll_lock"@
}

/// Is a key with this lower-cased name shown?
pub open spec fn display_allowed(l: Seq<char>, show_modifiers: bool) -> bool {
    (show_modifiers || !is_modifier_key_name(normalized(l))) && !is_lock_key_name(l)
}

/// Decides for an already lower-cased key name whether it is shown: modifiers
/// only when `show_modifiers` is set, lock keys never.
pub fn display_allowed_lowered(lowered: &str, show_modifiers: bool) -> (r: bool)
    ensures
        r == display_allowed(lowered@, show_modifiers),
{
    let normalized = normalize_lowered(lowered);
    let n = normalized.as_str();
    if !show_modifiers {
        if str_eq(n, "Ctrl") || str_eq(n, "Alt") || str_eq(n, "Shift") || str_eq(n, "Super") || str_eq(n, "Meta") {
            return false;
        }
    }
    !(str_eq(lowered, "caps_lock") || str_eq(lowered, "num_lock") || str_eq(lowered, "scroll_lock"))
}

pub open spec fn x11_name(k: Seq<char>) -> Seq<char> {
    if k == "Return"@ {
        "Enter"@
    } else if k == "BackSpace"@ {
        "Backspace"@
    } else if k == "space"@ {
        "Space"@
    } else if k == "Control_L"@ || k == "Control_R"@ {
        "Ctrl"@
    } else if k == "Alt_L"@ || k == "Alt_R"@ {
        "Alt"@
    } else if k == "Shift_L"@ || k == "Shift_R"@ {
        "Shift"@
    } else if k == "Super_L"@ || k == "Super_R"@ {
        "Super"@
    } else if k == "Meta_L"@ || k == "Meta_R"@ {
        "Meta"@
    } else {
        k
    }
}

/// The parts of a `mod+mod+key` string: the last part is the key, the others the modifiers.
pub fn split_on_plus(s: &str) -> (r: Vec<String>)
    ensures
        names(r@) == split_plus(s@),
{
    let n = s.unicode_len();
    let mut parts: Vec<String> = Vec::new();
    let mut current = String::new();
    let mut i: usize = 0;
    while i < n
        invariant
            n == s@.len(),
            i <= n,
            names(parts@).push(current@) == split_plus(s@.subrange(0, i as int)),
        decreases n - i,
    {
        let c = s.get_char(i);
        let ghost pre = s@.subrange(0, i + 1);
        assert(pre.drop_last() =~= s@.subrange(0, i as int));
        let ghost before = names(parts@).push(current@);
        if c == '+' {
            let done = current;
            parts.push(done);
            current = String::new();
            assert(names(parts@).push(current@) =~= before.push(Seq::empty()));
        } else {
            push_char(&mut current, c);
            assert(names(parts@).push(current@) =~= before.update(before.len() - 1, before.last().push(c)));
        }
        i = i + 1;
    }
    assert(s@.subrange(0, n as int) =~= s@);
    parts.push(current);
    parts
}

impl KeyParser {
    /// Records a modifier key's press or release.
    pub fn update_modifiers_from_evdev(&mut self, key: u16, is_press: bool)
        ensures
            final(self).modifier_state() == (if key == KEY_LEFTCTRL || key == KEY_RIGHTCTRL {
                ModifierState { ctrl: is_press, ..old(self).modifier_state() }
            } else if key == KEY_LEFTALT || key == KEY_RIGHTALT {
                ModifierState { alt: is_press, ..old(self).modifier_state() }
            } else if key == KEY_LEFTSHIFT || key == KEY_RIGHTSHIFT {
                ModifierState { shift: is_press, ..old(self).modifier_state() }
            } else if key == KEY_LEFTMETA || key == KEY_RIGHTMETA {
                ModifierState { super_key: is_press, ..old(self).modifier_state() }
            } else {
                old(self).modifier_state()
            }),
    {
        if key == KEY_LEFTCTRL || key == KEY_RIGHTCTRL {
            self.modifiers.ctrl = is_press;
        } else if key == KEY_LEFTALT || key == KEY_RIGHTALT {
            self.modifiers.alt = is_press;
        } else if key == KEY_LEFTSHIFT || key == KEY_RIGHTSHIFT {
            self.modifiers.shift = is_press;
        } else if key == KEY_LEFTMETA || key == KEY_RIGHTMETA {
            self.modifiers.super_key = is_press;
        }
    }

    /// Sets the modifiers from compositor masks: Shift is bit 0x1, Ctrl 0x4,
    /// Alt 0x8 and Super 0x40, held when depressed, latched or locked.
    pub fn update_modifiers(&mut self, depressed: u32, latched: u32, locked: u32, group: u32)
        ensures
            final(self).modifier_state() == (ModifierState {
                ctrl: (depressed & 0x4) != 0 || (latched & 0x4) != 0 || (locked & 0x4) != 0,
                alt: (depressed & 0x8) != 0 || (latched & 0x8) != 0 || (locked & 0x8) != 0,
                shift: (depressed & 0x1) != 0 || (latched & 0x1) != 0 || (locked & 0x1) != 0,
                super_key: (depressed & 0x40) != 0 || (latched & 0x40) != 0 || (locked & 0x40) != 0,
                meta: old(self).modifier_state().meta,
            }),
    {
        self.modifiers.ctrl = (depressed & 0x4) != 0 || (latched & 0x4) != 0 || (locked & 0x4) != 0;
        self.modifiers.alt = (depressed & 0x8) != 0 || (latched & 0x8) != 0 || (locked & 0x8) != 0;
        self.modifiers.shift = (depressed & 0x1) != 0 || (latched & 0x1) != 0 || (locked & 0x1) != 0;
        self.modifiers.super_key = (depressed & 0x40) != 0 || (latched & 0x40) != 0 || (locked & 0x40) != 0;
    }

    /// Names of the held modifiers, in the order Ctrl, Alt, Shift, Super, Meta.
    pub fn get_active_modifiers(&self) -> (r: Vec<String>)
        ensures
            names(r@) == active_names(self.modifier_state()),
    {
        let m = self.modifiers;
        let mut r: Vec<String> = Vec::new();
        let ghost e: Seq<Seq<char>> = Seq::empty();
        let ghost o1: Seq<Seq<char>> = if m.ctrl { seq!["Ctrl"@] } else { Seq::empty() };
        let ghost o2: Seq<Seq<char>> = if m.alt { seq!["Alt"@] } else { Seq::empty() };
        let ghost o3: Seq<Seq<char>> = if m.shift { seq!["Shift"@] } else { Seq::empty() };
        let ghost o4: Seq<Seq<char>> = if m.super_key { seq!["Super"@] } else { Seq::empty() };
        let ghost o5: Seq<Seq<char>> = if m.meta { seq!["Meta"@] } else { Seq::empty() };
        if m.ctrl {
            r.push(owned("Ctrl"));
        }
        assert(names(r@) =~= o1);
        if m.alt {
            r.push(owned("Alt"));
        }
        assert(names(r@) =~= o1 + o2);
        if m.shift {
            r.push(owned("Shift"));
        }
        assert(names(r@) =~= o1 + o2 + o3);
        if m.super_key {
            r.push(owned("Super"));
        }
        assert(names(r@) =~= o1 + o2 + o3 + o4);
        if m.meta {
            r.push(owned("Meta"));
        }
        assert(names(r@) =~= o1 + o2 + o3 + o4 + o5);
        r
    }

    /// A key event for a raw key-type event: auto-repeats and other event
    /// types give `None`; value 1 is a press, anything else a release.
    pub fn parse_evdev_event(&self, event: &RawEvent) -> (r: Option<KeyEvent>)
        ensures
            r is Some <==> (event.kind == EV_KEY && event.value != 2),
            r matches Some(e) ==> {
                &&& e.key@ == code_name(event.code)
                &&& names(e.modifiers@) == active_names(self.modifier_state())
                &&& e.is_press == (event.value == 1)
            },
    {
        if event.kind == EV_KEY {
            if event.value == 2 {
                return None;
            }
            let key_name = self.evdev_key_to_string(event.code);
            let modifiers = self.get_active_modifiers();
            Some(KeyEvent::new(key_name, modifiers, event.value == 1))
        } else {
            None
        }
    }

    /// A key event for an XKB keycode; codes the table lacks read `Unknown(<code>)`.
    pub fn parse_key_code(&self, keycode: u32, is_press: bool) -> (r: Option<KeyEvent>)
        ensures
            r matches Some(e) && {
                &&& e.key@ == (match keycode_table(keycode) {
                    Some(n) => n,
                    None => "Unknown("@ + decimal(keycode as nat) + ")"@,
                })
                &&& names(e.modifiers@) == active_names(self.modifier_state())
                &&& e.is_press == is_press
            },
    {
        let key_name = match self.keycode_name(keycode) {
            Some(n) => n,
            None => {
                let mut r = owned("Unknown(");
                push_decimal(&mut r, keycode as u64);
                r.append(")");
                r
            },
        };
        let modifiers = self.get_active_modifiers();
        Some(KeyEvent::new(key_name, modifiers, is_press))
    }

    /// A press event from a `mod+mod+key` string (after trimming white space):
    /// the last part is the key, the parts before it the modifiers.
    pub fn parse_hyprland_simple(&self, data: &str) -> (r: Option<KeyEvent>)
        ensures
            r matches Some(e) && {
                &&& e.key@ == split_plus(trim_of(data@)).last()
                &&& names(e.modifiers@) == split_plus(trim_of(data@)).drop_last()
                &&& e.is_press
            },
    {
        let mut parts = split_on_plus(trimmed(data));
        proof {
            lemma_split_plus_nonempty(trim_of(data@));
        }
        let ghost all = names(parts@);
        let key = parts.pop().unwrap();
        assert(names(parts@) =~= all.drop_last());
        Some(KeyEvent::new(key, parts, true))
    }

    /// Maps X11 key names to this parser's names (`Return` to `Enter`,
    /// `Control_L` to `Ctrl`, ...); other names are kept.
    pub fn parse_x11_key(&self, key_name: &str) -> (r: Option<String>)
        ensures
            r matches Some(n) && n@ == x11_name(key_name@),
    {
        Some(
        if str_eq(key_name, "Return") {
            owned("Enter")
        } else if str_eq(key_name, "BackSpace") {
            owned("Backspace")
        } else if str_eq(key_name, "space") {
            owned("Space")
        } else if str_eq(key_name, "Control_L") || str_eq(key_name, "Control_R") {
            owned("Ctrl")
        } else if str_eq(key_name, "Alt_L") || str_eq(key_name, "Alt_R") {
            owned("Alt")
        } else if str_eq(key_name, "Shift_L") || str_eq(key_name, "Shift_R") {
            owned("Shift")
        } else if str_eq(key_name, "Super_L") || str_eq(key_name, "Super_R") {
            owned("Super")
        } else if str_eq(key_name, "Meta_L") || str_eq(key_name, "Meta_R") {
            owned("Meta")
        } else {
            owned(key_name)
        },
        )
    }

    /// Canonical name of a key name of any case.
    pub fn normalize_key_name(&self, key: &str) -> (r: String)
        ensures
            r@ == normalized(lower_of(key@)),
    {
        let lowered = lowercase(key);
        normalize_lowered(lowered.as_str())
    }

    /// Is a key with this name shown? Modifiers only with `show_modifiers`,
    /// lock keys never.
    pub fn should_display_key(&self, key: &str, show_modifiers: bool) -> (r: bool)
        ensures
            r == display_allowed(lower_of(key@), show_modifiers),
    {
        let lowered = lowercase(key);
        display_allowed_lowered(lowered.as_str(), show_modifiers)
    }
}

impl Default for KeyParser {
    fn default() -> (r: Self)
        ensures
            r.modifier_state() == (ModifierState { ctrl: false, alt: false, shift: false, super_key: false, meta: false }),
    {
        Self::new()
    }
}

proof fn lemma_split_plus_nonempty(s: Seq<char>)
    ensures
        split_plus(s).len() >= 1,
    decreases s.len(),
{
    if s.len() > 0 {
        lemma_split_plus_nonempty(s.drop_last());
    }
}

} // verus!
