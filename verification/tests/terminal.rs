use nsh::terminal::{Decoder, Key, Line};

fn keys(bytes: &[Option<u8>]) -> Vec<Key> {
    let mut decoder = Decoder::new();
    let mut keys = Vec::new();
    for byte in bytes {
        if let Some(key) = decoder.feed(*byte) {
            keys.push(key);
        }
    }
    keys
}

#[test]
fn plain_bytes_are_keys_of_their_own() {
    assert_eq!(
        keys(&[Some(b'a'), Some(0), Some(3), Some(10), Some(127), None, Some(b'[')]),
        vec![
            Key::Byte(b'a'),
            Key::Ignore,
            Key::Interrupt,
            Key::Enter,
            Key::Backspace,
            Key::Ignore,
            Key::Byte(b'['),
        ]
    );
}

#[test]
fn escape_sequences_are_arrow_keys() {
    assert_eq!(keys(&[Some(27), Some(91), Some(65)]), vec![Key::Up]);
    assert_eq!(keys(&[Some(27), Some(91), Some(66)]), vec![Key::Down]);
    assert_eq!(keys(&[Some(27), Some(91), Some(67)]), vec![Key::Right]);
    assert_eq!(keys(&[Some(27), Some(91), Some(68)]), vec![Key::Left]);
}

#[test]
fn broken_escape_sequences_mean_nothing() {
    assert_eq!(keys(&[Some(27), Some(b'x'), Some(b'y')]), vec![Key::Ignore, Key::Byte(b'y')]);
    assert_eq!(keys(&[Some(27), None, Some(b'y')]), vec![Key::Ignore, Key::Byte(b'y')]);
    assert_eq!(keys(&[Some(27), Some(91), Some(b'Z'), Some(b'a')]), vec![Key::Ignore, Key::Byte(b'a')]);
    assert_eq!(keys(&[Some(27), Some(91), None]), vec![Key::Ignore]);
    assert_eq!(keys(&[Some(27), Some(27), Some(91), Some(65)]), vec![Key::Ignore, Key::Byte(91), Key::Byte(65)]);
}

#[test]
fn bytes_go_in_at_the_cursor() {
    let mut line = Line::new();
    assert!(line.insert(b'a'));
    assert!(line.insert(b'c'));
    assert!(line.left());
    assert!(line.insert(b'b'));
    assert_eq!(line.bytes().as_slice(), b"abc");
    assert_eq!(line.cursor(), 2);
}

#[test]
fn backspace_deletes_before_the_cursor() {
    let mut line = Line::new();
    assert!(!line.backspace());
    for byte in b"abc" {
        line.insert(*byte);
    }
    assert!(line.left());
    assert!(line.backspace());
    assert_eq!(line.bytes().as_slice(), b"ac");
    assert_eq!(line.cursor(), 1);
    assert!(line.backspace());
    assert_eq!(line.bytes().as_slice(), b"c");
    assert_eq!(line.cursor(), 0);
    assert!(!line.backspace());
    assert_eq!(line.bytes().as_slice(), b"c");
}

#[test]
fn the_cursor_stays_within_the_line() {
    let mut line = Line::new();
    assert!(!line.left());
    assert!(!line.right());
    line.insert(b'x');
    assert!(!line.right());
    assert!(line.left());
    assert!(!line.left());
    assert!(line.right());
    assert_eq!(line.cursor(), 1);
}

#[test]
fn a_recalled_line_has_the_cursor_at_its_start() {
    let mut line = Line::new();
    line.insert(b'x');
    line.set(b"ls -a".to_vec());
    assert_eq!(line.bytes().as_slice(), b"ls -a");
    assert_eq!(line.cursor(), 0);
    line.clear();
    assert!(line.bytes().is_empty());
    assert_eq!(line.cursor(), 0);
}
