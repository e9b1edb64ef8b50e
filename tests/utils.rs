use std::time::Duration;
use wshowkeys_rs::utils::{evdev_key_to_string, format_duration, format_secs_millis};

#[test]
fn test_format_duration() {
    // Test milliseconds only
    assert_eq!(format_duration(Duration::from_millis(500)), "500ms");
    assert_eq!(format_duration(Duration::from_millis(100)), "100ms");
    assert_eq!(format_duration(Duration::from_millis(1)), "1ms");
    assert_eq!(format_duration(Duration::from_millis(999)), "999ms");

    // Test seconds with milliseconds
    assert_eq!(format_duration(Duration::from_millis(1500)), "1.500s");
    assert_eq!(format_duration(Duration::from_millis(2000)), "2.000s");
    assert_eq!(format_duration(Duration::from_millis(10123)), "10.123s");

    // Test zero duration
    assert_eq!(format_duration(Duration::from_millis(0)), "0ms");
}

#[test]
fn test_duration_edge_cases() {
    // Test very small durations
    assert_eq!(format_duration(Duration::from_nanos(1)), "0ms");
    assert_eq!(format_duration(Duration::from_micros(1)), "0ms");

    // Test large durations
    assert_eq!(format_duration(Duration::from_secs(3600)), "3600.000s");
    assert_eq!(format_duration(Duration::from_secs(86400)), "86400.000s");
}

#[test]
fn format_secs_millis_pads_milliseconds() {
    assert_eq!(format_secs_millis(1, 5), "1.005s");
    assert_eq!(format_secs_millis(1, 50), "1.050s");
    assert_eq!(format_secs_millis(0, 7), "7ms");
    assert_eq!(format_secs_millis(18446744073709551615, 999), "18446744073709551615.999s");
}

#[test]
fn test_integration_utils() {
    let duration = Duration::from_millis(1500);
    assert_eq!(format_duration(duration), "1.500s");

    let key_string = evdev_key_to_string(evdev::Key::KEY_A.code());
    assert_eq!(key_string, "A");

    let key_string = evdev_key_to_string(evdev::Key::KEY_SPACE.code());
    assert_eq!(key_string, "SPACE");
}
