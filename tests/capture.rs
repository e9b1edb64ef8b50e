use evdev::{EventType, InputEvent, Key};
use wshowkeys_rs::capture::{
    feed_events, key_events, CaptureWorker, DeviceEvent, ReadOutcome, WorkerAction,
    MAX_CONSECUTIVE_ERRORS,
};
use wshowkeys_rs::keypress::{KeyBuffer, RawEvent};

fn raw(event: InputEvent) -> RawEvent {
    RawEvent { kind: event.event_type().0, code: event.code(), value: event.value() }
}

fn press(key: Key) -> RawEvent {
    raw(InputEvent::new(EventType::KEY, key.code(), 1))
}

#[test]
fn worker_forwards_only_key_events() {
    let mut w = CaptureWorker::new();
    let sync = raw(InputEvent::new(EventType::SYNCHRONIZATION, 0, 0));
    let batch = vec![press(Key::KEY_A), sync, press(Key::KEY_B)];
    match w.step(false, ReadOutcome::Events(batch)) {
        WorkerAction::Forward(v) => assert_eq!(v, vec![press(Key::KEY_A), press(Key::KEY_B)]),
        other => panic!("unexpected action {:?}", other),
    }
    assert_eq!(key_events(&vec![sync]), Vec::new());
}

#[test]
fn worker_transient_conditions_are_not_errors() {
    let mut w = CaptureWorker::new();
    assert!(matches!(w.step(false, ReadOutcome::WouldBlock), WorkerAction::Pause));
    assert!(matches!(w.step(false, ReadOutcome::Interrupted), WorkerAction::Retry));
    assert_eq!(w.consecutive_errors(), 0);
    assert!(!w.is_stopped());
}

#[test]
fn worker_gives_up_after_error_budget() {
    let mut w = CaptureWorker::new();
    for _ in 0..MAX_CONSECUTIVE_ERRORS - 1 {
        assert!(matches!(w.step(false, ReadOutcome::Failed), WorkerAction::Pause));
    }
    assert!(matches!(w.step(false, ReadOutcome::Failed), WorkerAction::Stop));
    assert!(w.is_stopped());
    assert!(matches!(w.step(false, ReadOutcome::WouldBlock), WorkerAction::Stop));
}

#[test]
fn worker_error_run_resets_on_data() {
    let mut w = CaptureWorker::new();
    for _ in 0..5 {
        w.step(false, ReadOutcome::Failed);
    }
    w.step(false, ReadOutcome::Events(Vec::new()));
    assert_eq!(w.consecutive_errors(), 0);
}

#[test]
fn worker_stops_on_cancel_and_closed_channel() {
    let mut w = CaptureWorker::new();
    assert!(matches!(w.step(true, ReadOutcome::Events(vec![press(Key::KEY_A)])), WorkerAction::Stop));
    let mut w2 = CaptureWorker::new();
    assert!(matches!(w2.channel_closed(), WorkerAction::Stop));
    assert!(w2.is_stopped());
}

#[test]
fn failing_device_does_not_block_healthy_one() {
    let mut broken = CaptureWorker::new();
    let mut healthy = CaptureWorker::new();
    let mut arrivals = Vec::new();
    for key in [Key::KEY_O, Key::KEY_K] {
        let _ = broken.step(false, ReadOutcome::Failed);
        if let WorkerAction::Forward(v) = healthy.step(false, ReadOutcome::Events(vec![press(key)])) {
            for e in v {
                arrivals.push(DeviceEvent { device: 2, event: e });
            }
        }
    }
    for _ in 0..MAX_CONSECUTIVE_ERRORS {
        let _ = broken.step(false, ReadOutcome::Failed);
    }
    assert!(broken.is_stopped());
    assert!(!healthy.is_stopped());
    let mut buffer = KeyBuffer::new(1000, 100);
    feed_events(&mut buffer, &arrivals, 0);
    assert_eq!(buffer.get_display_text(), "ok");
}

#[test]
fn per_device_order_survives_interleaving() {
    let stream = vec![
        DeviceEvent { device: 1, event: press(Key::KEY_X) },
        DeviceEvent { device: 0, event: press(Key::KEY_1) },
        DeviceEvent { device: 1, event: press(Key::KEY_Y) },
        DeviceEvent { device: 0, event: press(Key::KEY_2) },
        DeviceEvent { device: 0, event: press(Key::KEY_3) },
        DeviceEvent { device: 1, event: press(Key::KEY_Z) },
    ];
    let mut buffer = KeyBuffer::new(1000, 100);
    feed_events(&mut buffer, &stream, 0);
    let text = buffer.get_display_text();
    assert_eq!(text, "x1y23z");
    let only_zero: String = text.chars().filter(|c| c.is_ascii_digit()).collect();
    assert_eq!(only_zero, "123");
}
