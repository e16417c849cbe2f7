use nsh::builtin::crypto::sha1;

fn hex(bytes: &[u8]) -> String {
    let mut text = String::new();
    for byte in bytes {
        text.push_str(&format!("{:02x}", byte));
    }
    text
}

#[test]
fn sha1_of_known_texts() {
    assert_eq!(hex(&sha1("abc".to_owned())), "a9993e364706816aba3e25717850c26c9cd0d89d");
    assert_eq!(hex(&sha1(String::new())), "da39a3ee5e6b4b0d3255bfef95601890afd80709");
    assert_eq!(
        hex(&sha1("hello world".to_owned())),
        "2aae6c35c94fcfb415dbe95f408b9ce91ee846ed"
    );
}

#[test]
fn sha1_has_twenty_bytes() {
    assert_eq!(sha1("a longer text than twenty bytes, by far".to_owned()).len(), 20);
}
