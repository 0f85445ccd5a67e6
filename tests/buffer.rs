use typely::buffer::TextBuffer;

#[test]
fn test_text_buffer() {
    let mut buffer = TextBuffer::new(5);

    buffer.add_char('a');
    buffer.add_char('b');
    buffer.add_char('c');

    assert_eq!(buffer.get_text(), "abc");

    buffer.add_char('d');
    buffer.add_char('e');
    buffer.add_char('f');

    assert_eq!(buffer.get_text(), "bcdef");

    buffer.remove_chars(2);
    assert_eq!(buffer.get_text(), "bcd");

    buffer.clear();
    assert_eq!(buffer.get_text(), "");
}

#[test]
fn pushes_keep_the_most_recent_characters() {
    let mut buffer = TextBuffer::new(3);
    let typed = "abcdefg";
    for (i, c) in typed.chars().enumerate() {
        buffer.add_char(c);
        assert!(buffer.len() <= 3);
        let start = (i + 1).saturating_sub(3);
        assert_eq!(buffer.get_text(), &typed[start..i + 1]);
    }
    assert_eq!(buffer.get_text(), "efg");
}

#[test]
fn zero_capacity_stays_empty() {
    let mut buffer = TextBuffer::new(0);
    buffer.add_char('a');
    assert_eq!(buffer.len(), 0);
    assert_eq!(buffer.get_text(), "");
}

#[test]
fn clear_twice() {
    let mut buffer = TextBuffer::new(4);
    buffer.add_char('x');
    buffer.add_char('y');
    buffer.clear();
    assert_eq!(buffer.get_text(), "");
    buffer.clear();
    assert_eq!(buffer.get_text(), "");
    assert_eq!(buffer.len(), 0);
}

#[test]
fn remove_past_empty() {
    let mut buffer = TextBuffer::new(4);
    buffer.add_char('x');
    buffer.remove_chars(5);
    assert_eq!(buffer.get_text(), "");
    buffer.remove_chars(1);
    assert_eq!(buffer.get_text(), "");
}

#[test]
fn shrinking_keeps_the_newest() {
    let mut buffer = TextBuffer::new(10);
    for c in "abcde".chars() {
        buffer.add_char(c);
    }
    buffer.set_max_size(3);
    assert_eq!(buffer.get_text(), "cde");
    buffer.set_max_size(8);
    assert_eq!(buffer.get_text(), "cde");
}

#[test]
fn fresh_buffer_is_not_expired() {
    let mut buffer = TextBuffer::new(4);
    buffer.add_char('a');
    assert!(!buffer.is_expired(60_000));
    let waited = std::time::Instant::now();
    while waited.elapsed() < std::time::Duration::from_millis(5) {}
    assert!(buffer.is_expired(1));
}
