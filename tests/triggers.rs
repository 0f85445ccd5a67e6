use typely::expansion::ExpansionService;
use typely::triggers::{find_triggers, TriggerDetectionService, TriggerMatch};

fn spans(ms: &[TriggerMatch]) -> Vec<(String, usize, usize)> {
    ms.iter()
        .map(|m| (m.trigger.clone(), m.start_position, m.end_position))
        .collect()
}

#[test]
fn test_find_triggers_standard_pattern() {
    let service = TriggerDetectionService::new();
    let text = "Hello ::world and ::test!";
    let triggers = service.find_triggers_in_text(text);

    assert_eq!(triggers.len(), 2);
    assert_eq!(triggers[0].trigger, "::world");
    assert_eq!(triggers[1].trigger, "::test");
}

#[test]
fn test_find_trigger_at_cursor() {
    let service = TriggerDetectionService::new();
    let text = "Hello ::world";

    let trigger = service.find_trigger_at_cursor(text, 13);
    assert!(trigger.is_some());
    assert_eq!(trigger.unwrap().trigger, "::world");

    let trigger = service.find_trigger_at_cursor(text, 5);
    assert!(trigger.is_none());
}

#[test]
fn test_extract_partial_trigger() {
    let service = TriggerDetectionService::new();

    let partial = service.extract_partial_trigger("Hello ::wor", 11);
    assert_eq!(partial, Some("::wor".to_string()));

    // A bare marker is no partial trigger: at least one name character
    // must follow it.
    let partial = service.extract_partial_trigger("Hello ::", 8);
    assert_eq!(partial, None);

    let partial = service.extract_partial_trigger("Hello world", 11);
    assert_eq!(partial, None);
}

#[test]
fn test_multiple_patterns() {
    let service = TriggerDetectionService::with_all_patterns();
    let text = "Test ::colon @at and #hash triggers";
    let triggers = service.find_triggers_in_text(text);

    assert_eq!(triggers.len(), 3);
    assert_eq!(triggers[0].trigger, "::colon");
    assert_eq!(triggers[1].trigger, "@at");
    assert_eq!(triggers[2].trigger, "#hash");
}

#[test]
fn test_find_triggers() {
    let service = ExpansionService::new();
    let text = "Hello ::world and ::test";
    let triggers = service.find_triggers(text);

    assert_eq!(triggers.len(), 2);
    assert_eq!(triggers[0].trigger, "::world");
    assert_eq!(triggers[1].trigger, "::test");
}

#[test]
fn two_matches_with_positions() {
    let triggers = find_triggers("Hello ::world and ::test!", &vec![0]);
    assert_eq!(
        spans(&triggers),
        vec![
            ("::world".to_string(), 6, 13),
            ("::test".to_string(), 18, 24)
        ]
    );
    for m in &triggers {
        assert!(m.end_position > m.start_position);
        assert_eq!(m.length(), m.trigger.chars().count());
    }
}

#[test]
fn partial_trigger_examples() {
    let service = TriggerDetectionService::new();
    assert_eq!(
        service.extract_partial_trigger("Hello ::wor", 11),
        Some("::wor".to_string())
    );
    assert_eq!(service.extract_partial_trigger("Hello world", 11), None);
    assert_eq!(service.extract_partial_trigger("::ab", 0), None);
    assert_eq!(service.extract_partial_trigger("::ab", 5), None);
    assert_eq!(
        service.extract_partial_trigger("::::ab", 6),
        Some("::ab".to_string())
    );
    assert_eq!(service.extract_partial_trigger(":ab", 3), None);
    assert_eq!(service.extract_partial_trigger("x::a b", 4), Some("::a".to_string()));
    assert_eq!(service.extract_partial_trigger("x::a b", 6), None);
}

#[test]
fn no_trigger_without_a_name_character() {
    let service = TriggerDetectionService::with_all_patterns();
    assert!(service.find_triggers_in_text("").is_empty());
    assert!(service.find_triggers_in_text(":: @ # ::!").is_empty());
    let ms = service.find_triggers_in_text(":::a");
    assert_eq!(spans(&ms), vec![("::a".to_string(), 1, 4)]);
}

#[test]
fn adjacent_triggers_and_cursor_between() {
    let service = TriggerDetectionService::new();
    let ms = service.find_triggers_in_text("::a::b");
    assert_eq!(
        spans(&ms),
        vec![("::a".to_string(), 0, 3), ("::b".to_string(), 3, 6)]
    );
    let at = service.find_trigger_at_cursor("::a::b", 3).unwrap();
    assert_eq!(at.start_position, 0);
}

#[test]
fn patterns_enable_and_disable() {
    let mut service = TriggerDetectionService::new();
    let text = "::x @y #z";
    assert_eq!(service.find_triggers_in_text(text).len(), 1);
    service.enable_pattern(1);
    service.enable_pattern(1);
    service.enable_pattern(7);
    assert_eq!(
        spans(&service.find_triggers_in_text(text)),
        vec![("::x".to_string(), 0, 3), ("@y".to_string(), 4, 6)]
    );
    service.disable_pattern(0);
    assert_eq!(
        spans(&service.find_triggers_in_text(text)),
        vec![("@y".to_string(), 4, 6)]
    );
    service.enable_pattern(2);
    assert_eq!(service.find_triggers_in_text(text).len(), 2);
}

#[test]
fn positions_count_characters() {
    let ms = find_triggers("héllo ::wörld", &vec![0]);
    assert_eq!(spans(&ms), vec![("::w".to_string(), 6, 9)]);
}

#[test]
fn valid_trigger_characters() {
    let service = TriggerDetectionService::new();
    for c in ['a', 'Z', '0', '_', '-', ':'] {
        assert!(service.is_valid_trigger_character(c));
    }
    for c in [' ', '@', '#', '!', 'é'] {
        assert!(!service.is_valid_trigger_character(c));
    }
}

#[test]
fn agrees_with_regular_expressions() {
    let samples = [
        "Hello ::world and ::test!",
        "::a::b ::c-d_e9 :::x @y #z",
        "@@a ##b @-c #_d ::",
        "mail me@example.com #tag1 ::snip::pet",
        "",
        "no triggers here",
    ];
    let patterns = [r"::[a-zA-Z0-9_-]+", r"@[a-zA-Z0-9_-]+", r"#[a-zA-Z0-9_-]+"];
    for text in samples {
        let mut expected: Vec<(String, usize, usize)> = Vec::new();
        for p in patterns {
            let re = regex::Regex::new(p).unwrap();
            for m in re.find_iter(text) {
                expected.push((m.as_str().to_string(), m.start(), m.end()));
            }
        }
        expected.sort_by_key(|m| m.1);
        let found = find_triggers(text, &vec![0, 1, 2]);
        assert_eq!(spans(&found), expected, "text: {}", text);
    }
}

#[test]
fn detect_trigger_takes_the_last_marker() {
    let service = TriggerDetectionService::new();
    let m = service.detect_trigger("say ::hello").unwrap();
    assert_eq!((m.trigger.as_str(), m.start_position, m.end_position), ("::hello", 4, 11));
    let m = service.detect_trigger("::a ::b c").unwrap();
    assert_eq!((m.trigger.as_str(), m.start_position, m.end_position), ("::b c", 4, 9));
    assert!(service.detect_trigger("ends with ::").is_none());
    assert!(service.detect_trigger("none here").is_none());
    assert!(service.detect_trigger("").is_none());
    assert!(service.detect_trigger(":::").is_none());
    let m = service.detect_trigger(":::a").unwrap();
    assert_eq!(m.start_position, 1);
    assert!(service.detect_trigger("::x:::").is_none());
}

#[test]
fn detection_is_deterministic() {
    let service = TriggerDetectionService::with_all_patterns();
    let text = "a ::b @c #d ::e-f";
    let first = spans(&service.find_triggers_in_text(text));
    let second = spans(&service.find_triggers_in_text(text));
    assert_eq!(first, second);
    assert_eq!(
        service.extract_partial_trigger(text, 17),
        service.extract_partial_trigger(text, 17)
    );
}
