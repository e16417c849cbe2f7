use nsh::parser::prompt::parse;
use nsh::prompt::{decode, escapes, replace};

#[test]
fn replace_is_the_replacement_of_the_standard_library() {
    let sources = [
        "", "\\", "\\w", "\\\\w", "a\\wb\\w", "\\W\\w", "\\w\\", "w\\", "plain", "\\\\\\w\\\\",
        "é\\wü",
    ];
    for source in sources {
        for value in ["", "dir", "\\w", "\\"] {
            assert_eq!(
                replace(source, 'w', value),
                source.replace("\\w", value),
                "{:?} {:?}",
                source,
                value
            );
        }
    }
}

#[test]
fn escapes_is_the_search_of_the_standard_library() {
    for source in ["", "\\", "\\u", "a\\u", "\\\\u", "u\\", "\\v"] {
        assert_eq!(escapes(source, 'u'), source.contains("\\u"), "{:?}", source);
    }
}

#[test]
fn the_prompt_names_the_directory() {
    assert_eq!(parse("\\w > ", "/home/me/src", "src"), "src > ");
    assert_eq!(parse("[\\W] \\w$ ", "/home/me", "me"), "[/home/me] me$ ");
    assert_eq!(parse("> ", "/", ""), "> ");
}

#[test]
fn the_full_path_is_replaced_before_the_name() {
    assert_eq!(parse("\\W", "/a\\w", "x"), "/ax");
}

#[test]
fn decode_replaces_every_escape() {
    assert_eq!(
        decode("\\u@\\s-\\v \\w (\\W) ".to_owned(), "me", "nsh", "0.1.0", "src", "/home/me/src"),
        "me@nsh-0.1.0 src (/home/me/src) "
    );
    assert_eq!(decode("plain".to_owned(), "me", "nsh", "1", "d", "/d"), "plain");
}

#[test]
fn decode_replaces_only_what_the_source_holds() {
    assert_eq!(decode("\\u".to_owned(), "\\s", "nsh", "1", "d", "/d"), "\\s");
    assert_eq!(decode("\\u\\s".to_owned(), "\\s", "nsh", "1", "d", "/d"), "nshnsh");
}
