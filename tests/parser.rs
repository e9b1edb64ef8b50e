use evdev::{EventType, Key};
use wshowkeys_rs::keypress::RawEvent;
use wshowkeys_rs::parser::{
    display_allowed_lowered, normalize_lowered, split_on_plus, KeyParser, ModifierState,
};

#[test]
fn test_keycode_mapping() {
    let parser = KeyParser::new();

    // Test number keys
    assert_eq!(parser.keycode_name(10), Some("0".to_string()));
    assert_eq!(parser.keycode_name(11), Some("1".to_string()));

    // Test letter keys
    assert_eq!(parser.keycode_name(38), Some("a".to_string()));
    assert_eq!(parser.keycode_name(39), Some("b".to_string()));

    // Test special keys
    assert_eq!(parser.keycode_name(36), Some("Enter".to_string()));
    assert_eq!(parser.keycode_name(65), Some("Space".to_string()));
}

#[test]
fn keycode_table_overrides_and_gaps() {
    let parser = KeyParser::new();
    assert_eq!(parser.keycode_name(47), Some(";".to_string()));
    assert_eq!(parser.keycode_name(50), Some("Shift".to_string()));
    assert_eq!(parser.keycode_name(51), Some("\\".to_string()));
    assert_eq!(parser.keycode_name(63), Some("z".to_string()));
    assert_eq!(parser.keycode_name(67), Some("F1".to_string()));
    assert_eq!(parser.keycode_name(78), Some("F12".to_string()));
    assert_eq!(parser.keycode_name(0), None);
    assert_eq!(parser.keycode_name(200), None);
    let e = parser.parse_key_code(200, true).unwrap();
    assert_eq!(e.key, "Unknown(200)");
}

#[test]
fn test_modifier_parsing() {
    let mut parser = KeyParser::new();

    // Test modifier state update
    parser.update_modifiers(0x5, 0, 0, 0); // Ctrl + Shift
    assert!(parser.modifiers().ctrl);
    assert!(parser.modifiers().shift);
    assert!(!parser.modifiers().alt);

    let modifiers = parser.get_active_modifiers();
    assert!(modifiers.contains(&"Ctrl".to_string()));
    assert!(modifiers.contains(&"Shift".to_string()));
}

#[test]
fn modifiers_from_latched_locked_and_evdev() {
    let mut parser = KeyParser::new();
    parser.update_modifiers(0, 0x8, 0x40, 0);
    assert_eq!(parser.get_active_modifiers(), vec!["Alt", "Super"]);
    let mut p2 = KeyParser::default();
    p2.update_modifiers_from_evdev(Key::KEY_RIGHTCTRL.code(), true);
    assert_eq!(p2.modifiers(), ModifierState { ctrl: true, ..ModifierState::default() });
    p2.update_modifiers_from_evdev(Key::KEY_LEFTCTRL.code(), false);
    assert!(p2.get_active_modifiers().is_empty());
}

#[test]
fn test_key_normalization() {
    let parser = KeyParser::new();

    assert_eq!(parser.normalize_key_name("control"), "Ctrl");
    assert_eq!(parser.normalize_key_name("return"), "Enter");
    assert_eq!(parser.normalize_key_name("escape"), "Escape");
    assert_eq!(parser.normalize_key_name("space"), "Space");
    assert_eq!(parser.normalize_key_name("a"), "A");
}

#[test]
fn normalize_aliases_and_capitalizes() {
    assert_eq!(normalize_lowered("cmd"), "Super");
    assert_eq!(normalize_lowered(" "), "Space");
    assert_eq!(normalize_lowered("meta_r"), "Alt");
    assert_eq!(normalize_lowered(""), "");
    assert_eq!(normalize_lowered("page_up"), "Page_up");
    let parser = KeyParser::new();
    assert_eq!(parser.normalize_key_name("DEL"), "Delete");
}

#[test]
fn test_hyprland_parsing() {
    let parser = KeyParser::new();

    let event = parser.parse_hyprland_simple("ctrl+c").unwrap();
    assert_eq!(event.key, "c");
    assert_eq!(event.modifiers, vec!["ctrl"]);

    let event = parser.parse_hyprland_simple("a").unwrap();
    assert_eq!(event.key, "a");
    assert!(event.modifiers.is_empty());
}

#[test]
fn split_on_plus_keeps_empty_parts() {
    assert_eq!(split_on_plus("a+b"), vec!["a", "b"]);
    assert_eq!(split_on_plus(""), vec![""]);
    assert_eq!(split_on_plus("+"), vec!["", ""]);
    let parser = KeyParser::new();
    let e = parser.parse_hyprland_simple("  shift+alt+x \n").unwrap();
    assert_eq!(e.key, "x");
    assert_eq!(e.modifiers, vec!["shift", "alt"]);
}

#[test]
fn test_key_filtering() {
    let parser = KeyParser::new();

    assert!(!parser.should_display_key("Ctrl", false));
    assert!(parser.should_display_key("Ctrl", true));
    assert!(parser.should_display_key("a", false));
    assert!(parser.should_display_key("a", true));
    assert!(!parser.should_display_key("Caps_Lock", true));
}

#[test]
fn lock_keys_and_modifier_aliases_filtered() {
    assert!(!display_allowed_lowered("num_lock", true));
    assert!(!display_allowed_lowered("control_l", false));
    assert!(display_allowed_lowered("control_l", true));
}

#[test]
fn x11_names_map_to_parser_names() {
    let parser = KeyParser::new();
    assert_eq!(parser.parse_x11_key("Return"), Some("Enter".to_string()));
    assert_eq!(parser.parse_x11_key("Control_R"), Some("Ctrl".to_string()));
    assert_eq!(parser.parse_x11_key("Meta_L"), Some("Meta".to_string()));
    assert_eq!(parser.parse_x11_key("F5"), Some("F5".to_string()));
    assert_eq!(parser.parse_x11_key("q"), Some("q".to_string()));
    assert_eq!(parser.parse_x11_key("Prior"), Some("Prior".to_string()));
}

#[test]
fn evdev_events_become_key_events() {
    let mut parser = KeyParser::new();
    parser.update_modifiers_from_evdev(Key::KEY_LEFTSHIFT.code(), true);
    let press = RawEvent { kind: EventType::KEY.0, code: Key::KEY_UP.code(), value: 1 };
    let e = parser.parse_evdev_event(&press).unwrap();
    assert_eq!(e.key, "↑");
    assert_eq!(e.modifiers, vec!["Shift"]);
    assert!(e.is_press);
    let release = RawEvent { kind: EventType::KEY.0, code: 300, value: 0 };
    let r = parser.parse_evdev_event(&release).unwrap();
    assert_eq!(r.key, "Key_300");
    assert!(!r.is_press);
    let repeat = RawEvent { kind: EventType::KEY.0, code: Key::KEY_A.code(), value: 2 };
    assert!(parser.parse_evdev_event(&repeat).is_none());
    let rel = RawEvent { kind: EventType::RELATIVE.0, code: 0, value: 1 };
    assert!(parser.parse_evdev_event(&rel).is_none());
    assert_eq!(parser.evdev_key_to_string(Key::KEY_RIGHTMETA.code()), "Super");
}
