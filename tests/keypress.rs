use evdev::{EventType, InputEvent, Key};
use wshowkeys_rs::capture::{feed_events, DeviceEvent};
use wshowkeys_rs::keypress::{process_input_event, KeyBuffer, Keypress, RawEvent, TokenKind};

fn create_test_keypress(key: Key, display_name: &str, is_special: bool) -> Keypress {
    create_keypress_at(key, display_name, is_special, 0)
}

fn create_keypress_at(key: Key, display_name: &str, is_special: bool, at: u64) -> Keypress {
    Keypress {
        key: key.code(),
        keycode: 0,
        keysym: 0,
        utf8_text: String::new(),
        display_name: display_name.to_string(),
        is_special,
        timestamp: at,
    }
}

fn raw(event: InputEvent) -> RawEvent {
    RawEvent { kind: event.event_type().0, code: event.code(), value: event.value() }
}

fn press(key: Key) -> RawEvent {
    raw(InputEvent::new(EventType::KEY, key.code(), 1))
}

fn release(key: Key) -> RawEvent {
    raw(InputEvent::new(EventType::KEY, key.code(), 0))
}

fn total_width(buffer: &KeyBuffer) -> usize {
    buffer.current_tokens().iter().map(|t| t.width).sum()
}

#[test]
fn test_key_buffer_new() {
    let buffer = KeyBuffer::new(200, 100);
    assert_eq!(buffer.timeout_ms(), 200);
    assert_eq!(buffer.length_limit(), 100);
    assert!(buffer.is_empty());
    assert_eq!(buffer.repeat_count(), 1);
}

#[test]
fn test_key_buffer_add_keypress() {
    let mut buffer = KeyBuffer::new(1000, 100);
    let keypress = create_test_keypress(Key::KEY_A, "a", false);

    buffer.add_keypress(keypress);
    assert!(!buffer.is_empty());
    assert_eq!(buffer.get_display_text(), "a");
}

#[test]
fn test_key_buffer_cleanup_expired() {
    let mut buffer = KeyBuffer::new(1, 100); // 1ms timeout
    let keypress = create_test_keypress(Key::KEY_A, "a", false);

    buffer.add_keypress(keypress);
    assert!(!buffer.is_empty());

    // Ten milliseconds later
    let changed = buffer.cleanup_expired(10);
    assert!(changed);
    assert!(buffer.is_empty());
}

#[test]
fn test_process_input_event() {
    // Test key press event
    let event = InputEvent::new(EventType::KEY, Key::KEY_A.code(), 1); // 1 = pressed
    let result = process_input_event(raw(event), 0);
    assert!(result.is_some());

    let keypress = result.unwrap();
    assert_eq!(keypress.key, Key::KEY_A.code());
    assert!(!keypress.is_special);

    // Test key release event (should return None)
    let event = InputEvent::new(EventType::KEY, Key::KEY_A.code(), 0); // 0 = released
    let result = process_input_event(raw(event), 0);
    assert!(result.is_none());

    // Test non-key event
    let event = InputEvent::new(EventType::RELATIVE, 0, 0);
    let result = process_input_event(raw(event), 0);
    assert!(result.is_none());
}

#[test]
fn process_input_event_fills_fields() {
    let kp = process_input_event(press(Key::KEY_ENTER), 42).unwrap();
    assert_eq!(kp.display_name, "ENTER");
    assert_eq!(kp.keycode, Key::KEY_ENTER.code() as u32 + 8);
    assert!(kp.is_special);
    assert_eq!(kp.timestamp, 42);
    let repeat = raw(InputEvent::new(EventType::KEY, Key::KEY_A.code(), 2));
    assert!(process_input_event(repeat, 0).is_none());
}

#[test]
fn test_integration_keypress_flow() {
    let mut buffer = KeyBuffer::new(1000, 100);

    let event = InputEvent::new(EventType::KEY, Key::KEY_A.code(), 1); // 1 = pressed
    if let Some(keypress) = process_input_event(raw(event), 0) {
        buffer.add_keypress(keypress);
    }

    assert!(!buffer.is_empty());
    let text = buffer.get_display_text();
    println!("Actual text: '{}'", text);
    assert!(text.contains("A") || text.contains("a"));
}

#[test]
fn test_integration_multiple_keypresses() {
    let mut buffer = KeyBuffer::new(1000, 100);

    let keys = [Key::KEY_H, Key::KEY_E, Key::KEY_L, Key::KEY_L, Key::KEY_O];

    for key in keys {
        let event = InputEvent::new(EventType::KEY, key.code(), 1); // 1 = pressed
        if let Some(keypress) = process_input_event(raw(event), 0) {
            buffer.add_keypress(keypress);
        }
    }

    let text = buffer.get_display_text();
    println!("Actual text from HELLO: '{}'", text);
    assert!(text.contains("H") || text.contains("h"));
    assert!(text.contains("E") || text.contains("e"));
    assert!(text.contains("L") || text.contains("l"));
    assert!(text.contains("O") || text.contains("o"));
}

#[test]
fn test_integration_special_keys() {
    let mut buffer = KeyBuffer::new(1000, 100);

    let special_keys = [Key::KEY_ENTER, Key::KEY_SPACE, Key::KEY_ESC, Key::KEY_LEFTCTRL];

    for key in special_keys {
        let event = InputEvent::new(EventType::KEY, key.code(), 1); // 1 = pressed
        if let Some(keypress) = process_input_event(raw(event), 0) {
            buffer.add_keypress(keypress);
        }
    }

    let text = buffer.get_display_text();

    assert!(text.contains("⏎") || text.contains("ENTER"));
    assert!(text.contains("␣") || text.contains("SPACE"));
    assert!(text.contains("Esc") || text.contains("ESC"));
    assert!(text.contains("Ctrl") || text.contains("LEFTCTRL"));
}

#[test]
fn test_integration_timeout_cleanup() {
    let mut buffer = KeyBuffer::new(1, 100); // 1ms timeout

    let event = InputEvent::new(EventType::KEY, Key::KEY_A.code(), 1); // 1 = pressed
    if let Some(keypress) = process_input_event(raw(event), 0) {
        buffer.add_keypress(keypress);
    }

    assert!(!buffer.is_empty());

    // Ten milliseconds later
    let changed = buffer.cleanup_expired(10);
    assert!(changed);
    assert!(buffer.is_empty());
}

#[test]
fn test_integration_key_repetition() {
    let mut buffer = KeyBuffer::new(1000, 100);

    for _ in 0..5 {
        let event = InputEvent::new(EventType::KEY, Key::KEY_A.code(), 1); // 1 = pressed
        if let Some(keypress) = process_input_event(raw(event), 0) {
            buffer.add_keypress(keypress);
        }
    }

    let text = buffer.get_display_text();

    assert!(text.contains("ₓ") && text.contains("₅")); // x5 in subscript
}

#[test]
fn cleanup_twice_changes_nothing_the_second_time() {
    let mut buffer = KeyBuffer::new(10, 100);
    buffer.add_keypress(create_keypress_at(Key::KEY_A, "A", false, 0));
    buffer.add_keypress(create_keypress_at(Key::KEY_B, "B", false, 5));
    assert!(buffer.cleanup_expired(12));
    assert_eq!(buffer.get_display_text(), "b");
    assert!(!buffer.cleanup_expired(12));
    assert_eq!(buffer.get_display_text(), "b");
    let mut empty = KeyBuffer::new(10, 100);
    assert!(!empty.cleanup_expired(0));
    assert!(!empty.cleanup_expired(0));
}

#[test]
fn tokens_expire_exactly_at_timeout() {
    let mut buffer = KeyBuffer::new(50, 100);
    buffer.add_keypress(create_keypress_at(Key::KEY_A, "A", false, 100));
    assert!(!buffer.cleanup_expired(149));
    assert_eq!(buffer.get_display_text(), "a");
    assert!(buffer.cleanup_expired(150));
    assert!(buffer.is_empty());
    // A new run starts afresh after the buffer emptied.
    buffer.add_keypress(create_keypress_at(Key::KEY_A, "A", false, 200));
    assert_eq!(buffer.repeat_count(), 1);
}

#[test]
fn width_stays_within_budget() {
    let mut buffer = KeyBuffer::new(1000, 12);
    let keys = [Key::KEY_ENTER, Key::KEY_LEFTCTRL, Key::KEY_A, Key::KEY_TAB, Key::KEY_B, Key::KEY_C];
    for (i, key) in keys.iter().enumerate() {
        let kp = process_input_event(press(*key), i as u64).unwrap();
        buffer.add_keypress(kp);
        assert!(total_width(&buffer) <= 12);
    }
    // The newest key is kept, the oldest ones were evicted: "c" costs five
    // columns (it occurs in the table's "Esc"), so its prefix had to go too.
    assert_eq!(buffer.get_display_text(), "c");
}

#[test]
fn oversized_token_empties_buffer() {
    let mut buffer = KeyBuffer::new(1000, 3);
    buffer.add_keypress(create_test_keypress(Key::KEY_A, "A", false));
    buffer.add_keypress(create_test_keypress(Key::KEY_TAB, "TAB", true));
    assert!(buffer.is_empty());
    assert_eq!(total_width(&buffer), 0);
}

#[test]
fn repeat_compression_five_and_two() {
    let mut five = KeyBuffer::new(1000, 100);
    for _ in 0..5 {
        five.add_keypress(process_input_event(press(Key::KEY_A), 0).unwrap());
    }
    assert_eq!(five.get_display_text(), "aₓ₅");
    assert!(five.get_display_text().ends_with("ₓ₅"));
    assert_eq!(five.repeat_count(), 5);
    let kinds: Vec<TokenKind> = five.current_tokens().iter().map(|t| t.kind).collect();
    assert_eq!(kinds, vec![TokenKind::Key, TokenKind::RepeatMark, TokenKind::RepeatDigit]);

    let mut two = KeyBuffer::new(1000, 100);
    for _ in 0..2 {
        two.add_keypress(process_input_event(press(Key::KEY_A), 0).unwrap());
    }
    assert_eq!(two.get_display_text(), "a");
    assert!(!two.get_display_text().contains("ₓ"));
}

#[test]
fn repeat_count_with_two_digits() {
    let mut buffer = KeyBuffer::new(1000, 100);
    for _ in 0..12 {
        buffer.add_keypress(process_input_event(press(Key::KEY_Z), 0).unwrap());
    }
    assert_eq!(buffer.get_display_text(), "zₓ₁₂");
}

#[test]
fn repeat_only_compares_with_previous_combination() {
    let mut buffer = KeyBuffer::new(1000, 100);
    buffer.add_keypress(process_input_event(press(Key::KEY_A), 0).unwrap());
    buffer.add_keypress(process_input_event(press(Key::KEY_B), 1).unwrap());
    buffer.add_keypress(process_input_event(press(Key::KEY_A), 2).unwrap());
    assert_eq!(buffer.repeat_count(), 1);
    assert_eq!(buffer.get_display_text(), "aba");
}

#[test]
fn single_device_press_release_then_expire() {
    let mut buffer = KeyBuffer::new(100, 100);
    let events = vec![
        DeviceEvent { device: 0, event: press(Key::KEY_A) },
        DeviceEvent { device: 0, event: release(Key::KEY_A) },
    ];
    feed_events(&mut buffer, &events, 1000);
    assert!(buffer.get_display_text().contains("a"));
    assert!(buffer.cleanup_expired(1101));
    assert!(buffer.is_empty());
}

#[test]
fn ctrl_then_c_renders_combination() {
    let mut buffer = KeyBuffer::new(1000, 100);
    let events = vec![
        DeviceEvent { device: 0, event: press(Key::KEY_LEFTCTRL) },
        DeviceEvent { device: 0, event: press(Key::KEY_C) },
    ];
    feed_events(&mut buffer, &events, 0);
    let tokens = buffer.current_tokens();
    let n = tokens.len();
    assert_eq!(tokens[n - 2].text, " Ctrl+");
    assert_eq!(tokens[n - 2].kind, TokenKind::ModifierPrefix);
    assert_eq!(tokens[n - 1].text, "c");
    assert!(buffer.get_display_text().contains("Ctrl+c"));
}

#[test]
fn two_devices_hello_in_order() {
    let mut buffer = KeyBuffer::new(1000, 100);
    let mut events = Vec::new();
    for key in [Key::KEY_H, Key::KEY_E, Key::KEY_L, Key::KEY_L, Key::KEY_O] {
        events.push(DeviceEvent { device: 1, event: press(key) });
        events.push(DeviceEvent { device: 1, event: release(key) });
    }
    feed_events(&mut buffer, &events, 0);
    // The second `l` is an immediate repeat: a count of two shows no indicator.
    assert_eq!(buffer.get_display_text(), "helo");
}
