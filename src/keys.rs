//! Raw key codes of the Linux input subsystem and the tables that turn them
//! into display names, plus the width table used by the display buffer.

use vstd::prelude::*;
use vstd::string::*;
use vstd::utf8::encode_utf8;
use crate::text::{contains, is_infix, is_prefix, owned, starts_with, str_eq};

verus! {

/// Event type of key events.
pub const EV_KEY: u16 = 1;

pub const KEY_RESERVED: u16 = 0;
pub const KEY_ESC: u16 = 1;
pub const KEY_1: u16 = 2;
pub const KEY_2: u16 = 3;
pub const KEY_3: u16 = 4;
pub const KEY_4: u16 = 5;
pub const KEY_5: u16 = 6;
pub const KEY_6: u16 = 7;
pub const KEY_7: u16 = 8;
pub const KEY_8: u16 = 9;
pub const KEY_9: u16 = 10;
pub const KEY_0: u16 = 11;
pub const KEY_BACKSPACE: u16 = 14;
pub const KEY_TAB: u16 = 15;
pub const KEY_Q: u16 = 16;
pub const KEY_W: u16 = 17;
pub const KEY_E: u16 = 18;
pub const KEY_R: u16 = 19;
pub const KEY_T: u16 = 20;
pub const KEY_Y: u16 = 21;
pub const KEY_U: u16 = 22;
pub const KEY_I: u16 = 23;
pub const KEY_O: u16 = 24;
pub const KEY_P: u16 = 25;
pub const KEY_ENTER: u16 = 28;
pub const KEY_LEFTCTRL: u16 = 29;
pub const KEY_A: u16 = 30;
pub const KEY_S: u16 = 31;
pub const KEY_D: u16 = 32;
pub const KEY_F: u16 = 33;
pub const KEY_G: u16 = 34;
pub const KEY_H: u16 = 35;
pub const KEY_J: u16 = 36;
pub const KEY_K: u16 = 37;
pub const KEY_L: u16 = 38;
pub const KEY_LEFTSHIFT: u16 = 42;
pub const KEY_Z: u16 = 44;
pub const KEY_X: u16 = 45;
pub const KEY_C: u16 = 46;
pub const KEY_V: u16 = 47;
pub const KEY_B: u16 = 48;
pub const KEY_N: u16 = 49;
pub const KEY_M: u16 = 50;
pub const KEY_RIGHTSHIFT: u16 = 54;
pub const KEY_LEFTALT: u16 = 56;
pub const KEY_SPACE: u16 = 57;
pub const KEY_CAPSLOCK: u16 = 58;
pub const KEY_F1: u16 = 59;
pub const KEY_F2: u16 = 60;
pub const KEY_F3: u16 = 61;
pub const KEY_F4: u16 = 62;
pub const KEY_F5: u16 = 63;
pub const KEY_F6: u16 = 64;
pub const KEY_F7: u16 = 65;
pub const KEY_F8: u16 = 66;
pub const KEY_F9: u16 = 67;
pub const KEY_F10: u16 = 68;
pub const KEY_F11: u16 = 87;
pub const KEY_F12: u16 = 88;
pub const KEY_RIGHTCTRL: u16 = 97;
pub const KEY_RIGHTALT: u16 = 100;
pub const KEY_UP: u16 = 103;
pub const KEY_LEFT: u16 = 105;
pub const KEY_RIGHT: u16 = 106;
pub const KEY_DOWN: u16 = 108;
pub const KEY_DELETE: u16 = 111;
pub const KEY_LEFTMETA: u16 = 125;
pub const KEY_RIGHTMETA: u16 = 126;
pub const KEY_MINUS: u16 = 12;
pub const KEY_EQUAL: u16 = 13;
pub const KEY_LEFTBRACE: u16 = 26;
pub const KEY_RIGHTBRACE: u16 = 27;
pub const KEY_SEMICOLON: u16 = 39;
pub const KEY_APOSTROPHE: u16 = 40;
pub const KEY_GRAVE: u16 = 41;
pub const KEY_BACKSLASH: u16 = 43;
pub const KEY_COMMA: u16 = 51;
pub const KEY_DOT: u16 = 52;
pub const KEY_SLASH: u16 = 53;
pub const KEY_HOME: u16 = 102;
pub const KEY_PAGEUP: u16 = 104;
pub const KEY_END: u16 = 107;
pub const KEY_PAGEDOWN: u16 = 109;

/// Is `code` one of the eight modifier keys?
pub open spec fn is_modifier_code(code: u16) -> bool {
    code == KEY_LEFTCTRL || code == KEY_RIGHTCTRL || code == KEY_LEFTALT || code == KEY_RIGHTALT
        || code == KEY_LEFTSHIFT || code == KEY_RIGHTSHIFT || code == KEY_LEFTMETA
        || code == KEY_RIGHTMETA
}

/// Non-printable, modifier and navigation keys, and the whole F1..=F12 code range.
pub open spec fn special_code(code: u16) -> bool {
    code == KEY_ESC || code == KEY_TAB || code == KEY_CAPSLOCK || is_modifier_code(code)
        || code == KEY_SPACE || code == KEY_ENTER || code == KEY_BACKSPACE || code == KEY_UP
        || code == KEY_DOWN || code == KEY_LEFT || code == KEY_RIGHT || (KEY_F1 <= code
        && code <= KEY_F12)
}

/// Is the key a special (non-printable, modifier or navigation) key?
pub fn is_special_key(code: u16) -> (r: bool)
    ensures
        r == special_code(code),
{
    code == KEY_ESC || code == KEY_TAB || code == KEY_CAPSLOCK || code == KEY_LEFTSHIFT
        || code == KEY_RIGHTSHIFT || code == KEY_LEFTCTRL || code == KEY_RIGHTCTRL
        || code == KEY_LEFTALT || code == KEY_RIGHTALT || code == KEY_LEFTMETA
        || code == KEY_RIGHTMETA || code == KEY_SPACE || code == KEY_ENTER
        || code == KEY_BACKSPACE || code == KEY_UP || code == KEY_DOWN || code == KEY_LEFT
        || code == KEY_RIGHT || (code >= KEY_F1 && code <= KEY_F12)
}

/// The name that the evdev crate prints for a key code (`KEY_A`, `KEY_SPACE`, ...).
pub uninterp spec fn key_debug_name_of(code: u16) -> Seq<char>;

/// Relies on the `Debug` impl of `evdev::Key`, which prints the constant's name
/// (or a fallback text for unnamed codes); that text depends on the code alone.
#[verifier::external_body]
fn key_debug_name(code: u16) -> (r: String)
    ensures
        r@ == key_debug_name_of(code),
{
    format!("{:?}", evdev::Key::new(code))
}

/// `name` without a leading `KEY_`, when it has one.
pub open spec fn without_key_prefix(name: Seq<char>) -> Seq<char> {
    if is_prefix("KEY_"@, name) {
        name.subrange("KEY_"@.len() as int, name.len() as int)
    } else {
        name
    }
}

/// Drops a leading `KEY_` from a key name.
pub fn strip_key_prefix(name: &str) -> (r: String)
    ensures
        r@ == without_key_prefix(name@),
{
    proof {
        reveal_strlit("KEY_");
    }
    if starts_with(name, "KEY_") {
        let n = name.unicode_len();
        owned(name.substring_char(4, n))
    } else {
        owned(name)
    }
}

/// The evdev name of a key without its `KEY_` prefix (`SPACE`, `LEFTCTRL`, `A`).
pub fn evdev_key_to_string(code: u16) -> (r: String)
    ensures
        r@ == without_key_prefix(key_debug_name_of(code)),
{
    let full = key_debug_name(code);
    strip_key_prefix(full.as_str())
}

/// What `str::to_lowercase` returns for a string.
pub uninterp spec fn lower_of(s: Seq<char>) -> Seq<char>;

/// Relies on `str::to_lowercase`: the result depends on the characters alone.
#[verifier::external_body]
pub(crate) fn lowercase(s: &str) -> (r: String)
    ensures
        r@ == lower_of(s@),
{
    s.to_lowercase()
}

/// The display text for an evdev key name, given the name's lower-case form for
/// names that the table does not list.
pub open spec fn customized(name: Seq<char>, lowered: Seq<char>) -> Seq<char> {
    if name == "ENTER"@ { "⏎ "@ }
    else if name == "SPACE"@ { "␣ "@ }
    else if name == "ESC"@ { " Esc "@ }
    else if name == "LEFTCTRL"@ || name == "RIGHTCTRL"@ { " Ctrl+"@ }
    else if name == "LEFTALT"@ || name == "RIGHTALT"@ { " Alt+"@ }
    else if name == "LEFTSHIFT"@ || name == "RIGHTSHIFT"@ { " Shift+"@ }
    else if name == "LEFTMETA"@ || name == "RIGHTMETA"@ { " Super+"@ }
    else if name == "TAB"@ { "Tab "@ }
    else if name == "BACKSPACE"@ { "⌫ "@ }
    else if name == "CAPSLOCK"@ { "Caps "@ }
    else if name == "LEFT"@ { "⇦ "@ }
    else if name == "UP"@ { "⇧ "@ }
    else if name == "DOWN"@ { "⇩ "@ }
    else if name == "RIGHT"@ { "⇨ "@ }
    else if is_prefix("F"@, name) && encode_utf8(name).len() <= 3 { name + " "@ }
    else { lowered }
}

/// The display text for an evdev key name, with `lowered` standing for the
/// name's lower-case form.
pub fn customize_key_name_with(name: &str, lowered: &str) -> (r: String)
    ensures
        r@ == customized(name@, lowered@),
{
    if str_eq(name, "ENTER") { owned("⏎ ") }
    else if str_eq(name, "SPACE") { owned("␣ ") }
    else if str_eq(name, "ESC") { owned(" Esc ") }
    else if str_eq(name, "LEFTCTRL") || str_eq(name, "RIGHTCTRL") { owned(" Ctrl+") }
    else if str_eq(name, "LEFTALT") || str_eq(name, "RIGHTALT") { owned(" Alt+") }
    else if str_eq(name, "LEFTSHIFT") || str_eq(name, "RIGHTSHIFT") { owned(" Shift+") }
    else if str_eq(name, "LEFTMETA") || str_eq(name, "RIGHTMETA") { owned(" Super+") }
    else if str_eq(name, "TAB") { owned("Tab ") }
    else if str_eq(name, "BACKSPACE") { owned("⌫ ") }
    else if str_eq(name, "CAPSLOCK") { owned("Caps ") }
    else if str_eq(name, "LEFT") { owned("⇦ ") }
    else if str_eq(name, "UP") { owned("⇧ ") }
    else if str_eq(name, "DOWN") { owned("⇩ ") }
    else if str_eq(name, "RIGHT") { owned("⇨ ") }
    else if starts_with(name, "F") && name.as_bytes().len() <= 3 {
        let mut r = owned(name);
        r.append(" ");
        r
    } else {
        owned(lowered)
    }
}

/// The display text for an evdev key name (`ENTER` becomes `⏎ `, `LEFTCTRL`
/// becomes ` Ctrl+`, unlisted names are lower-cased).
pub fn customize_key_name(name: &str) -> (r: String)
    ensures
        r@ == customized(name@, lower_of(name@)),
{
    let lowered = lowercase(name);
    customize_key_name_with(name, lowered.as_str())
}

/// Display-column cost of a token text.
pub open spec fn char_width(name: Seq<char>) -> nat {
    if is_infix(name, "⏎␣⇦⇧⇨"@) { 4 }
    else if is_infix(name, "⌫F12F10F11Esc"@) { 5 }
    else if is_infix("Ctrl+"@, name) { 8 }
    else if is_infix("Alt+"@, name) { 6 }
    else if is_infix("Shift+"@, name) { 10 }
    else if is_infix("Super+"@, name) { 10 }
    else if is_infix("Tab"@, name) { 10 }
    else if is_infix("Caps"@, name) { 8 }
    else if name.len() == 0 { 1 }
    else { name.len() }
}

/// Display-column cost of a token text: symbolic glyphs and modifier prefixes
/// have fixed costs, anything else costs one column per character (at least one).
pub fn get_char_width(name: &str) -> (r: usize)
    ensures
        r == char_width(name@),
{
    if contains("⏎␣⇦⇧⇨", name) { 4 }
    else if contains("⌫F12F10F11Esc", name) { 5 }
    else if contains(name, "Ctrl+") { 8 }
    else if contains(name, "Alt+") { 6 }
    else if contains(name, "Shift+") { 10 }
    else if contains(name, "Super+") { 10 }
    else if contains(name, "Tab") { 10 }
    else if contains(name, "Caps") { 8 }
    else {
        let n = name.unicode_len();
        if n == 0 { 1 } else { n }
    }
}

/// A device counts as a keyboard when it reports the A, Enter and Space keys.
pub open spec fn keyboard_capable(supported: Seq<u16>) -> bool {
    supported.contains(KEY_A) && supported.contains(KEY_ENTER) && supported.contains(KEY_SPACE)
}

/// Does a key-capability list hold a representative letter, Enter and Space?
pub fn is_keyboard_device(supported: &Vec<u16>) -> (r: bool)
    ensures
        r == keyboard_capable(supported@),
{
    let mut a = false;
    let mut enter = false;
    let mut space = false;
    let mut i: usize = 0;
    while i < supported.len()
        invariant
            i <= supported@.len(),
            a == (exists|k: int| 0 <= k < i && supported@[k] == KEY_A),
            enter == (exists|k: int| 0 <= k < i && supported@[k] == KEY_ENTER),
            space == (exists|k: int| 0 <= k < i && supported@[k] == KEY_SPACE),
        decreases supported@.len() - i,
    {
        let c = supported[i];
        if c == KEY_A {
            a = true;
        }
        if c == KEY_ENTER {
            enter = true;
        }
        if c == KEY_SPACE {
            space = true;
        }
        i = i + 1;
    }
    a && enter && space
}

/// Is the key one of the eight modifier keys?
pub fn is_modifier_key(code: u16) -> (r: bool)
    ensures
        r == is_modifier_code(code),
{
    code == KEY_LEFTSHIFT || code == KEY_RIGHTSHIFT || code == KEY_LEFTCTRL || code
        == KEY_RIGHTCTRL || code == KEY_LEFTALT || code == KEY_RIGHTALT || code == KEY_LEFTMETA
        || code == KEY_RIGHTMETA
}

/// Short upper-case label of a key code, for overlays with a plain font;
/// unlisted codes fall back to the evdev name.
pub open spec fn short_key_name(code: u16) -> Seq<char> {
    match code {
        KEY_A => "A"@,
        KEY_B => "B"@,
        KEY_C => "C"@,
        KEY_D => "D"@,
        KEY_E => "E"@,
        KEY_F => "F"@,
        KEY_G => "G"@,
        KEY_H => "H"@,
        KEY_I => "I"@,
        KEY_J => "J"@,
        KEY_K => "K"@,
        KEY_L => "L"@,
        KEY_M => "M"@,
        KEY_N => "N"@,
        KEY_O => "O"@,
        KEY_P => "P"@,
        KEY_Q => "Q"@,
        KEY_R => "R"@,
        KEY_S => "S"@,
        KEY_T => "T"@,
        KEY_U => "U"@,
        KEY_V => "V"@,
        KEY_W => "W"@,
        KEY_X => "X"@,
        KEY_Y => "Y"@,
        KEY_Z => "Z"@,
        KEY_0 => "0"@,
        KEY_1 => "1"@,
        KEY_2 => "2"@,
        KEY_3 => "3"@,
        KEY_4 => "4"@,
        KEY_5 => "5"@,
        KEY_6 => "6"@,
        KEY_7 => "7"@,
        KEY_8 => "8"@,
        KEY_9 => "9"@,
        KEY_SPACE => "SPACE"@,
        KEY_ENTER => "ENTER"@,
        KEY_BACKSPACE => "BKSP"@,
        KEY_TAB => "TAB"@,
        KEY_ESC => "ESC"@,
        KEY_DELETE => "DEL"@,
        KEY_HOME => "HOME"@,
        KEY_END => "END"@,
        KEY_PAGEUP => "PGUP"@,
        KEY_PAGEDOWN => "PGDN"@,
        KEY_UP => "UP"@,
        KEY_DOWN => "DOWN"@,
        KEY_LEFT => "LEFT"@,
        KEY_RIGHT => "RIGHT"@,
        KEY_F1 => "F1"@,
        KEY_F2 => "F2"@,
        KEY_F3 => "F3"@,
        KEY_F4 => "F4"@,
        KEY_F5 => "F5"@,
        KEY_F6 => "F6"@,
        KEY_F7 => "F7"@,
        KEY_F8 => "F8"@,
        KEY_F9 => "F9"@,
        KEY_F10 => "F10"@,
        KEY_F11 => "F11"@,
        KEY_F12 => "F12"@,
        KEY_COMMA => ","@,
        KEY_DOT => "."@,
        KEY_SLASH => "/"@,
        KEY_SEMICOLON => ";"@,
        KEY_APOSTROPHE => "'"@,
        KEY_LEFTBRACE => "["@,
        KEY_RIGHTBRACE => "]"@,
        KEY_BACKSLASH => "\\"@,
        KEY_MINUS => "-"@,
        KEY_EQUAL => "="@,
        KEY_GRAVE => "`"@,
        KEY_LEFTSHIFT | KEY_RIGHTSHIFT => "SHIFT"@,
        KEY_LEFTCTRL | KEY_RIGHTCTRL => "CTRL"@,
        KEY_LEFTALT | KEY_RIGHTALT => "ALT"@,
        KEY_LEFTMETA | KEY_RIGHTMETA => "META"@,
        _ => key_debug_name_of(code),
    }
}

/// Short upper-case label of a key code (`BKSP`, `PGUP`, `CTRL`, `A`).
pub fn format_key_name(code: u16) -> (r: String)
    ensures
        r@ == short_key_name(code),
{
    match code {
        KEY_A => owned("A"),
        KEY_B => owned("B"),
        KEY_C => owned("C"),
        KEY_D => owned("D"),
        KEY_E => owned("E"),
        KEY_F => owned("F"),
        KEY_G => owned("G"),
        KEY_H => owned("H"),
        KEY_I => owned("I"),
        KEY_J => owned("J"),
        KEY_K => owned("K"),
        KEY_L => owned("L"),
        KEY_M => owned("M"),
        KEY_N => owned("N"),
        KEY_O => owned("O"),
        KEY_P => owned("P"),
        KEY_Q => owned("Q"),
        KEY_R => owned("R"),
        KEY_S => owned("S"),
        KEY_T => owned("T"),
        KEY_U => owned("U"),
        KEY_V => owned("V"),
        KEY_W => owned("W"),
        KEY_X => owned("X"),
        KEY_Y => owned("Y"),
        KEY_Z => owned("Z"),
        KEY_0 => owned("0"),
        KEY_1 => owned("1"),
        KEY_2 => owned("2"),
        KEY_3 => owned("3"),
        KEY_4 => owned("4"),
        KEY_5 => owned("5"),
        KEY_6 => owned("6"),
        KEY_7 => owned("7"),
        KEY_8 => owned("8"),
        KEY_9 => owned("9"),
        KEY_SPACE => owned("SPACE"),
        KEY_ENTER => owned("ENTER"),
        KEY_BACKSPACE => owned("BKSP"),
        KEY_TAB => owned("TAB"),
        KEY_ESC => owned("ESC"),
        KEY_DELETE => owned("DEL"),
        KEY_HOME => owned("HOME"),
        KEY_END => owned("END"),
        KEY_PAGEUP => owned("PGUP"),
        KEY_PAGEDOWN => owned("PGDN"),
        KEY_UP => owned("UP"),
        KEY_DOWN => owned("DOWN"),
        KEY_LEFT => owned("LEFT"),
        KEY_RIGHT => owned("RIGHT"),
        KEY_F1 => owned("F1"),
        KEY_F2 => owned("F2"),
        KEY_F3 => owned("F3"),
        KEY_F4 => owned("F4"),
        KEY_F5 => owned("F5"),
        KEY_F6 => owned("F6"),
        KEY_F7 => owned("F7"),
        KEY_F8 => owned("F8"),
        KEY_F9 => owned("F9"),
        KEY_F10 => owned("F10"),
        KEY_F11 => owned("F11"),
        KEY_F12 => owned("F12"),
        KEY_COMMA => owned(","),
        KEY_DOT => owned("."),
        KEY_SLASH => owned("/"),
        KEY_SEMICOLON => owned(";"),
        KEY_APOSTROPHE => owned("'"),
        KEY_LEFTBRACE => owned("["),
        KEY_RIGHTBRACE => owned("]"),
        KEY_BACKSLASH => owned("\\"),
        KEY_MINUS => owned("-"),
        KEY_EQUAL => owned("="),
        KEY_GRAVE => owned("`"),
        KEY_LEFTSHIFT | KEY_RIGHTSHIFT => owned("SHIFT"),
        KEY_LEFTCTRL | KEY_RIGHTCTRL => owned("CTRL"),
        KEY_LEFTALT | KEY_RIGHTALT => owned("ALT"),
        KEY_LEFTMETA | KEY_RIGHTMETA => owned("META"),
        _ => key_debug_name(code),
    }
}

} // verus!
