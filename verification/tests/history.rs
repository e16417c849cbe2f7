use nsh::history::History;

#[test]
fn a_new_history_is_empty() {
    let mut history = History::new();
    assert_eq!(history.to_string(), "");
    assert_eq!(history.next(), None);
    assert_eq!(history.prev(), None);
}

#[test]
fn next_walks_from_the_oldest_line() {
    let mut history = History::new();
    history.insert("one".to_owned());
    history.insert("two".to_owned());
    assert_eq!(history.next(), Some("one"));
    assert_eq!(history.next(), Some("two"));
    assert_eq!(history.next(), None);
    assert_eq!(history.next(), None);
}

#[test]
fn prev_walks_back_and_stops_at_the_first_line() {
    let mut history = History::from("one\ntwo\nthree");
    assert_eq!(history.next(), Some("one"));
    assert_eq!(history.next(), Some("two"));
    assert_eq!(history.next(), Some("three"));
    assert_eq!(history.prev(), Some("three"));
    assert_eq!(history.prev(), Some("two"));
    assert_eq!(history.prev(), Some("one"));
    assert_eq!(history.prev(), Some("one"));
}

#[test]
fn prev_behind_the_last_line_hands_out_nothing() {
    let mut history = History::from("a\nb");
    assert_eq!(history.next(), Some("a"));
    assert_eq!(history.next(), Some("b"));
    assert_eq!(history.next(), None);
    assert_eq!(history.prev(), Some("b"));
}

#[test]
fn a_history_is_read_from_its_lines_and_written_back() {
    for text in ["", "a", "a\nb", "a\n", "\n", "\n\nx\n\n", "ls -a\ncd /tmp\nexit"] {
        assert_eq!(History::from(text).to_string(), text, "{:?}", text);
    }
}

#[test]
fn from_splits_as_the_standard_library_splits() {
    for text in ["", "a", "a\nb", "a\n", "\n", "x\n\ny"] {
        let mut history = History::from(text);
        for line in text.split('\n') {
            assert_eq!(history.next(), Some(line));
        }
        assert_eq!(history.next(), None);
    }
}

#[test]
fn insert_adds_the_newest_line() {
    let mut history = History::from("a");
    history.insert("b".to_owned());
    assert_eq!(history.to_string(), "a\nb");
}
