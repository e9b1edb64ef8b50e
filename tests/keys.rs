use evdev::Key;
use wshowkeys_rs::keys::{
    customize_key_name, customize_key_name_with, format_key_name, get_char_width,
    is_keyboard_device, is_modifier_key, is_special_key, strip_key_prefix,
};
use wshowkeys_rs::utils::evdev_key_to_string;

#[test]
fn test_is_special_key() {
    // Test special keys
    assert!(is_special_key(Key::KEY_ESC.code()));
    assert!(is_special_key(Key::KEY_TAB.code()));
    assert!(is_special_key(Key::KEY_LEFTCTRL.code()));
    assert!(is_special_key(Key::KEY_SPACE.code()));
    assert!(is_special_key(Key::KEY_ENTER.code()));
    assert!(is_special_key(Key::KEY_F1.code()));
    assert!(is_special_key(Key::KEY_UP.code()));

    // Test normal keys
    assert!(!is_special_key(Key::KEY_A.code()));
    assert!(!is_special_key(Key::KEY_1.code()));
    assert!(!is_special_key(Key::KEY_COMMA.code()));
}

#[test]
fn test_customize_key_name() {
    assert_eq!(customize_key_name("ENTER"), "⏎ ");
    assert_eq!(customize_key_name("SPACE"), "␣ ");
    assert_eq!(customize_key_name("ESC"), " Esc ");
    assert_eq!(customize_key_name("LEFTCTRL"), " Ctrl+");
    assert_eq!(customize_key_name("BACKSPACE"), "⌫ ");
    assert_eq!(customize_key_name("LEFT"), "⇦ ");
    assert_eq!(customize_key_name("UP"), "⇧ ");
    assert_eq!(customize_key_name("DOWN"), "⇩ ");
    assert_eq!(customize_key_name("RIGHT"), "⇨ ");
    assert_eq!(customize_key_name("F1"), "F1 ");
    assert_eq!(customize_key_name("F12"), "F12 ");
    assert_eq!(customize_key_name("UNKNOWN"), "unknown");
}

#[test]
fn customize_uses_lowered_form_only_for_unlisted_names() {
    assert_eq!(customize_key_name_with("ENTER", "x"), "⏎ ");
    assert_eq!(customize_key_name_with("RIGHTMETA", "x"), " Super+");
    assert_eq!(customize_key_name_with("CAPSLOCK", "x"), "Caps ");
    assert_eq!(customize_key_name_with("COMMA", "comma"), "comma");
    // "F" followed by more than two bytes is not a function key.
    assert_eq!(customize_key_name_with("FOUR", "four"), "four");
    assert_eq!(customize_key_name("A"), "a");
}

#[test]
fn test_get_char_width() {
    assert_eq!(get_char_width("⏎"), 4);
    assert_eq!(get_char_width("␣"), 4);
    assert_eq!(get_char_width("⌫"), 5);
    assert_eq!(get_char_width(" Ctrl+"), 8);
    assert_eq!(get_char_width(" Alt+"), 6);
    assert_eq!(get_char_width(" Shift+"), 10);
    assert_eq!(get_char_width(" Super+"), 10);
    assert_eq!(get_char_width("Tab"), 10);
    assert_eq!(get_char_width("Caps"), 8);
    assert_eq!(get_char_width("a"), 1);
    assert_eq!(get_char_width("ab"), 2);
}

#[test]
fn char_width_edge_cases() {
    // The empty text is part of every glyph list.
    assert_eq!(get_char_width(""), 4);
    assert_eq!(get_char_width("F1"), 5);
    assert_eq!(get_char_width("hello"), 5);
    assert_eq!(get_char_width("ₓ"), 1);
}

#[test]
fn test_evdev_key_to_string() {
    // Test normal key conversion
    assert_eq!(evdev_key_to_string(Key::KEY_A.code()), "A");
    assert_eq!(evdev_key_to_string(Key::KEY_SPACE.code()), "SPACE");
    assert_eq!(evdev_key_to_string(Key::KEY_ENTER.code()), "ENTER");
    assert_eq!(evdev_key_to_string(Key::KEY_LEFTCTRL.code()), "LEFTCTRL");
    assert_eq!(evdev_key_to_string(Key::KEY_F1.code()), "F1");
    assert_eq!(evdev_key_to_string(Key::KEY_1.code()), "1");
    assert_eq!(evdev_key_to_string(Key::KEY_COMMA.code()), "COMMA");
    assert_eq!(evdev_key_to_string(Key::KEY_DOT.code()), "DOT");
    assert_eq!(evdev_key_to_string(Key::KEY_SLASH.code()), "SLASH");

    // Test that the prefix "KEY_" is removed
    let key_debug = format!("{:?}", Key::KEY_A);
    assert!(key_debug.starts_with("KEY_"));
    assert!(!evdev_key_to_string(Key::KEY_A.code()).starts_with("KEY_"));
}

#[test]
fn test_evdev_key_special_cases() {
    assert_eq!(evdev_key_to_string(Key::KEY_RESERVED.code()), "RESERVED");
    assert_eq!(evdev_key_to_string(Key::KEY_ESC.code()), "ESC");
    assert_eq!(evdev_key_to_string(Key::KEY_BACKSPACE.code()), "BACKSPACE");
    assert_eq!(evdev_key_to_string(Key::KEY_TAB.code()), "TAB");
    assert_eq!(evdev_key_to_string(Key::KEY_CAPSLOCK.code()), "CAPSLOCK");
    assert_eq!(evdev_key_to_string(Key::KEY_LEFTSHIFT.code()), "LEFTSHIFT");
    assert_eq!(evdev_key_to_string(Key::KEY_RIGHTSHIFT.code()), "RIGHTSHIFT");
    assert_eq!(evdev_key_to_string(Key::KEY_LEFTALT.code()), "LEFTALT");
    assert_eq!(evdev_key_to_string(Key::KEY_RIGHTALT.code()), "RIGHTALT");
    assert_eq!(evdev_key_to_string(Key::KEY_LEFTMETA.code()), "LEFTMETA");
    assert_eq!(evdev_key_to_string(Key::KEY_RIGHTMETA.code()), "RIGHTMETA");
}

#[test]
fn strip_key_prefix_only_at_start() {
    assert_eq!(strip_key_prefix("KEY_A"), "A");
    assert_eq!(strip_key_prefix("KEY_"), "");
    assert_eq!(strip_key_prefix("BTN_KEY_A"), "BTN_KEY_A");
    assert_eq!(strip_key_prefix("unknown key: 900"), "unknown key: 900");
}

#[test]
fn keyboard_capability_needs_letter_enter_and_space() {
    let full = vec![Key::KEY_SPACE.code(), Key::KEY_A.code(), Key::KEY_ENTER.code(), 3];
    assert!(is_keyboard_device(&full));
    let no_space = vec![Key::KEY_A.code(), Key::KEY_ENTER.code()];
    assert!(!is_keyboard_device(&no_space));
    assert!(!is_keyboard_device(&Vec::new()));
}

#[test]
fn short_key_labels() {
    assert_eq!(format_key_name(Key::KEY_BACKSPACE.code()), "BKSP");
    assert_eq!(format_key_name(Key::KEY_PAGEDOWN.code()), "PGDN");
    assert_eq!(format_key_name(Key::KEY_RIGHTMETA.code()), "META");
    assert_eq!(format_key_name(Key::KEY_BACKSLASH.code()), "\\");
    assert_eq!(format_key_name(Key::KEY_Q.code()), "Q");
    assert_eq!(format_key_name(Key::KEY_KPENTER.code()), "KEY_KPENTER");
    assert!(is_modifier_key(Key::KEY_RIGHTALT.code()));
    assert!(!is_modifier_key(Key::KEY_CAPSLOCK.code()));
}
