use std::time::Duration;
use typely::keyboard::{
    KeyboardEvent, KeyboardEventHandler, KeyboardEventType, ModifierState,
};

fn event(key: &str, event_type: KeyboardEventType) -> KeyboardEvent {
    KeyboardEvent {
        key: key.to_string(),
        event_type,
        key_code: 0,
        text: None,
        timestamp_ms: chrono::Utc::now().timestamp_millis(),
    }
}

#[test]
fn test_modifier_state() {
    let mut handler = KeyboardEventHandler::new();

    handler.process_event(event("ControlLeft", KeyboardEventType::KeyDown));
    assert!(handler.get_modifier_state().ctrl);
    assert!(!handler.get_modifier_state().shift);

    handler.process_event(event("ControlLeft", KeyboardEventType::KeyUp));
    assert!(!handler.get_modifier_state().ctrl);
}

#[test]
fn test_printable_key_detection() {
    let handler = KeyboardEventHandler::new();

    assert!(handler.is_printable_key("a"));
    assert!(handler.is_printable_key("A"));
    assert!(handler.is_printable_key("1"));
    assert!(handler.is_printable_key(" "));
    assert!(handler.is_printable_key("Space"));

    assert!(!handler.is_printable_key("ControlLeft"));
    assert!(!handler.is_printable_key("Escape"));
    assert!(!handler.is_printable_key("F1"));
}

#[test]
fn test_should_buffer_key() {
    let mut handler = KeyboardEventHandler::new();

    let char_event = event("a", KeyboardEventType::KeyDown);
    assert!(handler.should_buffer_key(&char_event));

    let char_up = event("a", KeyboardEventType::KeyUp);
    assert!(!handler.should_buffer_key(&char_up));

    handler.process_event(event("ControlLeft", KeyboardEventType::KeyDown));

    assert!(!handler.should_buffer_key(&char_event));
}

#[test]
fn test_key_state_tracking() {
    let mut handler = KeyboardEventHandler::new();

    handler.process_event(event("a", KeyboardEventType::KeyDown));
    assert!(handler.is_key_pressed("a"));

    handler.process_event(event("a", KeyboardEventType::KeyUp));
    assert!(!handler.is_key_pressed("a"));
}

#[test]
fn test_reset() {
    let mut handler = KeyboardEventHandler::new();

    let events = vec![
        event("ControlLeft", KeyboardEventType::KeyDown),
        event("a", KeyboardEventType::KeyDown),
    ];

    for e in events {
        handler.process_event(e);
    }

    assert!(handler.get_modifier_state().ctrl);
    assert!(handler.is_key_pressed("a"));

    handler.reset();

    assert!(!handler.get_modifier_state().ctrl);
    assert!(!handler.is_key_pressed("a"));
}

#[test]
fn processed_event_describes_the_key() {
    let mut handler = KeyboardEventHandler::new();
    let p = handler
        .process_event(event("ShiftLeft", KeyboardEventType::KeyDown))
        .unwrap();
    assert!(p.is_modifier);
    assert!(!p.is_printable);
    assert!(!p.should_buffer);
    assert!(p.modifiers.shift);

    let p = handler
        .process_event(event("a", KeyboardEventType::KeyDown))
        .unwrap();
    assert!(!p.is_modifier);
    assert!(p.is_printable);
    assert!(p.should_buffer);
    assert_eq!(p.key, "a");
    assert_eq!(p.event_type, KeyboardEventType::KeyDown);
}

#[test]
fn key_press_releases_the_key() {
    let mut handler = KeyboardEventHandler::new();
    handler.process_event(event("b", KeyboardEventType::KeyDown));
    handler.process_event(event("b", KeyboardEventType::KeyDown));
    assert_eq!(handler.get_pressed_keys(), vec!["b".to_string()]);
    handler.process_event(event("b", KeyboardEventType::KeyPress));
    assert!(!handler.is_key_pressed("b"));
    assert!(handler.get_pressed_keys().is_empty());
}

#[test]
fn pressed_keys_and_modifiers() {
    let mut handler = KeyboardEventHandler::new();
    assert!(!handler.has_modifiers());
    handler.process_event(event("AltGr", KeyboardEventType::KeyDown));
    handler.process_event(event("x", KeyboardEventType::KeyDown));
    assert!(handler.has_modifiers());
    assert!(handler.get_modifier_state().is_alt_only());
    let mut keys = handler.get_pressed_keys();
    keys.sort();
    assert_eq!(keys, vec!["AltGr".to_string(), "x".to_string()]);
    assert!(!handler.is_idle(Duration::from_secs(3600)));
}

#[test]
fn modifier_state_queries() {
    let none = ModifierState::default();
    assert!(!none.has_any());
    let ctrl = ModifierState { ctrl: true, shift: false, alt: false, meta: false };
    assert!(ctrl.is_ctrl_only());
    assert!(!ctrl.is_shift_only());
    let shift = ModifierState { ctrl: false, shift: true, alt: false, meta: false };
    assert!(shift.is_shift_only());
    assert!(!shift.is_alt_only());
    let both = ModifierState { ctrl: true, shift: true, alt: false, meta: false };
    assert!(both.has_any());
    assert!(!both.is_ctrl_only());
    assert!(ctrl.matches(&ctrl));
    assert!(!ctrl.matches(&both));
}

#[test]
fn event_named_by_its_code() {
    let e = KeyboardEvent::new(KeyboardEventType::KeyUp, 1207);
    assert_eq!(e.key, "1207");
    assert_eq!(e.key_code, 1207);
    assert_eq!(e.event_type, KeyboardEventType::KeyUp);
    assert!(e.text.is_none());
    assert!(e.timestamp_ms > 0);
    assert_eq!(KeyboardEvent::new(KeyboardEventType::KeyDown, 0).key, "0");
}
