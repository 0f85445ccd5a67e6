use tokio::sync::mpsc;
use typely::dto::ExpansionResponse;
use typely::engine::{
    classify_key, expansion_request, plan_expansion, EngineError, EngineState, ExpansionAction,
    ExpansionConfig, ExpansionEvent, KeyKind, KeyOutcome, TextExpansionEngine,
};
use typely::keyboard::{KeyboardEvent, KeyboardEventType};

fn down(key: &str) -> KeyboardEvent {
    KeyboardEvent {
        key: key.to_string(),
        event_type: KeyboardEventType::KeyDown,
        key_code: 0,
        text: None,
        timestamp_ms: 0,
    }
}

fn config(buffer_size: usize) -> ExpansionConfig {
    ExpansionConfig {
        buffer_size,
        trigger_timeout_ms: 60_000,
        expansion_delay_ms: 10,
        enabled: true,
        case_sensitive: true,
    }
}

fn running(buffer_size: usize) -> TextExpansionEngine {
    let mut engine = TextExpansionEngine::new(Some(config(buffer_size)));
    engine.start().unwrap();
    engine.complete_start(true).unwrap();
    engine
}

fn type_keys(engine: &mut TextExpansionEngine, keys: &[&str]) -> Vec<KeyOutcome> {
    keys.iter().map(|k| engine.on_key_event(&down(k))).collect()
}

fn expanded(o: &KeyOutcome) -> Option<(String, usize)> {
    match o {
        KeyOutcome::Expand(ev) => Some((ev.trigger.clone(), ev.trigger_length)),
        _ => None,
    }
}

#[test]
fn test_expansion_config() {
    let config = ExpansionConfig::default();

    assert_eq!(config.buffer_size, 100);
    assert_eq!(config.trigger_timeout_ms, 1000);
    assert_eq!(config.expansion_delay_ms, 50);
    assert!(config.enabled);
    assert!(config.case_sensitive);
}

#[test]
fn test_engine_creation() {
    let engine = TextExpansionEngine::new(Some(config(50)));
    assert!(!engine.is_running());
    assert_eq!(engine.config().buffer_size, 50);
    let engine = TextExpansionEngine::new(None);
    assert_eq!(engine.config(), ExpansionConfig::default());
}

#[test]
fn start_stop_life_cycle() {
    let mut engine = TextExpansionEngine::new(None);
    assert_eq!(engine.complete_start(true), Err(EngineError::NotStarting));
    assert_eq!(engine.start(), Ok(()));
    assert_eq!(engine.state(), EngineState::Starting);
    assert_eq!(engine.start(), Err(EngineError::AlreadyRunning));
    assert_eq!(engine.complete_start(true), Ok(()));
    assert!(engine.is_running());
    assert_eq!(engine.start(), Err(EngineError::AlreadyRunning));
    engine.stop();
    assert!(!engine.is_running());
    engine.stop();
    assert_eq!(engine.state(), EngineState::Stopped);
}

#[test]
fn hook_failure_leaves_engine_stopped() {
    let mut engine = TextExpansionEngine::new(None);
    engine.start().unwrap();
    assert_eq!(engine.complete_start(false), Err(EngineError::HookUnavailable));
    assert!(!engine.is_running());
    assert!(matches!(engine.on_key_event(&down("a")), KeyOutcome::Stop));
}

#[test]
fn hello_then_trigger_keys() {
    let mut engine = running(100);
    let (tx, mut rx) = mpsc::channel::<ExpansionEvent>(100);
    let keys = ["h", "e", "l", "l", "o", ":", ":", "h", "i"];
    for (i, k) in keys.iter().enumerate() {
        let r = engine.handle_keyboard_event(&down(k), &tx).unwrap();
        if i < 7 {
            assert!(matches!(r, KeyOutcome::Updated), "key {}", i);
            assert!(rx.try_recv().is_err());
        }
    }
    // Each key that leaves a trigger at the cursor queues it: `::h`, then `::hi`.
    let first = rx.try_recv().unwrap();
    assert_eq!(first.trigger, "::h");
    assert_eq!(first.trigger_length, 3);
    let last = rx.try_recv().unwrap();
    assert_eq!(last.trigger, "::hi");
    assert_eq!(last.trigger_length, 4);
    assert_eq!(last.buffer_text, "hello::hi");
    assert!(rx.try_recv().is_err());
}

#[test]
fn boundary_key_then_fresh_trigger() {
    let mut engine = running(100);
    let out = type_keys(&mut engine, &[":", ":", "h", "i"]);
    assert_eq!(expanded(&out[3]), Some(("::hi".to_string(), 4)));
    let out = type_keys(&mut engine, &["Space"]);
    assert!(matches!(out[0], KeyOutcome::Updated));
    assert_eq!(engine.buffer_text(), "");
    let out = type_keys(&mut engine, &[":", ":", "h", "i"]);
    assert_eq!(expanded(&out[3]), Some(("::hi".to_string(), 4)));
    assert_eq!(engine.buffer_text(), "::hi");

    let out = type_keys(&mut engine, &[" ", ":", ":", "h", "i"]);
    assert_eq!(expanded(&out[4]), Some(("::hi".to_string(), 4)));
    assert_eq!(engine.buffer_text(), "::hi ::hi");
}

#[test]
fn full_channel_drops_the_detection() {
    let mut engine = running(100);
    let (tx, mut rx) = mpsc::channel::<ExpansionEvent>(1);
    for k in [":", ":"] {
        assert!(engine.handle_keyboard_event(&down(k), &tx).is_ok());
    }
    let r = engine.handle_keyboard_event(&down("a"), &tx);
    assert!(matches!(r, Ok(KeyOutcome::Expand(_))));
    let r = engine.handle_keyboard_event(&down("b"), &tx);
    assert!(matches!(r, Err(EngineError::ChannelSaturated)));
    assert_eq!(engine.buffer_text(), "::ab");
    assert_eq!(rx.try_recv().unwrap().trigger, "::a");
    assert!(rx.try_recv().is_err());
    drop(rx);
    let r = engine.handle_keyboard_event(&down("c"), &tx);
    assert!(matches!(r, Err(EngineError::ChannelClosed)));
}

#[test]
fn shrinking_buffer_keeps_newest_characters() {
    let mut engine = running(10);
    type_keys(&mut engine, &["a", "b", "c", "d", "e"]);
    assert_eq!(engine.buffer_text(), "abcde");
    engine.update_config(config(3));
    assert_eq!(engine.buffer_text(), "cde");
    assert_eq!(engine.config().buffer_size, 3);
    type_keys(&mut engine, &["f"]);
    assert_eq!(engine.buffer_text(), "def");
}

#[test]
fn backspace_and_other_keys() {
    let mut engine = running(10);
    let out = type_keys(&mut engine, &["a", "b", "Backspace", "F1", "Escape"]);
    assert!(matches!(out[2], KeyOutcome::Updated));
    assert!(matches!(out[3], KeyOutcome::Skip));
    assert!(matches!(out[4], KeyOutcome::Updated));
    assert_eq!(engine.buffer_text(), "");
    type_keys(&mut engine, &["x", "y", "Backspace"]);
    assert_eq!(engine.buffer_text(), "x");
}

#[test]
fn key_up_and_disabled_engine_leave_buffer_alone() {
    let mut engine = running(10);
    type_keys(&mut engine, &["a"]);
    let up = KeyboardEvent { event_type: KeyboardEventType::KeyUp, ..down("b") };
    assert!(matches!(engine.on_key_event(&up), KeyOutcome::Skip));
    assert_eq!(engine.buffer_text(), "a");
    let mut off = config(10);
    off.enabled = false;
    engine.update_config(off);
    assert!(matches!(engine.on_key_event(&down("c")), KeyOutcome::Skip));
    assert_eq!(engine.buffer_text(), "a");
}

#[test]
fn stale_buffer_is_cleared() {
    let mut engine = running(10);
    let mut cfg = config(10);
    cfg.trigger_timeout_ms = 0;
    engine.update_config(cfg);
    let waited = std::time::Instant::now();
    while waited.elapsed() < std::time::Duration::from_millis(1) {}
    let mut skipped = false;
    for k in [":", ":", "a"] {
        if matches!(engine.on_key_event(&down(k)), KeyOutcome::Skip) {
            skipped = true;
        }
    }
    assert!(skipped || engine.buffer_text().len() <= 3);
}

#[test]
fn other_markers_when_enabled() {
    let mut engine = running(20);
    engine.enable_pattern(1);
    let out = type_keys(&mut engine, &["@", "m", "e"]);
    assert_eq!(expanded(&out[2]), Some(("@me".to_string(), 3)));
    engine.disable_pattern(1);
    let out = type_keys(&mut engine, &["x"]);
    assert!(matches!(out[0], KeyOutcome::Updated));
}

#[test]
fn key_classes() {
    assert_eq!(classify_key("a"), KeyKind::Char('a'));
    assert_eq!(classify_key(" "), KeyKind::Char(' '));
    assert_eq!(classify_key("Backspace"), KeyKind::Backspace);
    for k in ["Return", "Tab", "Space", "Escape", "ControlLeft", "ControlRight", "Alt", "AltGr", "MetaLeft", "MetaRight"] {
        assert_eq!(classify_key(k), KeyKind::Boundary, "{}", k);
    }
    for k in ["é", "F1", "ShiftLeft", "", "ab"] {
        assert_eq!(classify_key(k), KeyKind::Other, "{}", k);
    }
}

#[test]
fn expansion_plan_follows_the_answer() {
    let ev = ExpansionEvent {
        trigger: "::hi".to_string(),
        trigger_length: 4,
        buffer_text: "say ::hi".to_string(),
    };
    let req = expansion_request(&ev);
    assert_eq!(req.trigger, "::hi");
    assert_eq!(req.context, Some("say ::hi".to_string()));

    let ok = ExpansionResponse {
        success: true,
        expanded_text: Some("Hello there".to_string()),
        error_message: None,
    };
    match plan_expansion(&ev, &ok) {
        ExpansionAction::Replace { backspaces, text } => {
            assert_eq!(backspaces, 4);
            assert_eq!(text, "Hello there");
        }
        ExpansionAction::Skip => panic!("expected a replacement"),
    }
    let missing = ExpansionResponse {
        success: false,
        expanded_text: None,
        error_message: Some("not found".to_string()),
    };
    assert!(matches!(plan_expansion(&ev, &missing), ExpansionAction::Skip));
    let empty = ExpansionResponse { success: true, expanded_text: None, error_message: None };
    assert!(matches!(plan_expansion(&ev, &empty), ExpansionAction::Skip));
}
