use nsh::builtin::{abort, cd, exit, lookup, same, Builtin};
use nsh::error::{Error, ErrorKind};
use nsh::evaluator::plan::Step;
use nsh::shell::{parse, preprocess};

fn prepared(source: &str, home: &str) -> String {
    preprocess(source, home).into_iter().collect()
}

#[test]
fn a_tilde_becomes_home() {
    assert_eq!(prepared("cd ~/src", "/home/me"), "cd /home/me/src");
    assert_eq!(prepared("~~", "/h"), "/h/h");
    assert_eq!(prepared("~", ""), "");
    assert_eq!(prepared("a ~ b", "~"), "a ~ b");
}

#[test]
fn a_line_feed_also_ends_the_statement() {
    assert_eq!(prepared("a\nb", "/"), "a\n;b");
    assert_eq!(prepared("\n\n", "/"), "\n;\n;");
    assert_eq!(prepared("", "/"), "");
    assert_eq!(prepared("plain", "/"), "plain");
}

#[test]
fn malformed_source_is_wrong_syntax() {
    let error = parse("cmd >".to_owned(), "/").err().expect("malformed source");
    assert_eq!(*error.kind(), ErrorKind::WrongSyntax);
    assert_eq!(error.message(), "no redirect destination specified");
    assert_eq!(error.to_string(), "no redirect destination specified");
}

#[test]
fn an_error_holds_its_kind_and_message() {
    for kind in [
        ErrorKind::WrongSyntax,
        ErrorKind::NotFound,
        ErrorKind::OpenFailed,
        ErrorKind::CreateFailed,
        ErrorKind::ExecutionFailed,
    ] {
        let error = Error::new(kind, "why".to_owned());
        assert_eq!(*error.kind(), kind);
        assert_eq!(error.message(), "why");
    }
}

#[test]
fn the_builtins_are_three() {
    assert_eq!(lookup("cd"), Some(Builtin::Cd));
    assert_eq!(lookup("exit"), Some(Builtin::Exit));
    assert_eq!(lookup("abort"), Some(Builtin::Abort));
    assert_eq!(lookup("Exit"), None);
    assert_eq!(lookup("exit "), None);
    assert_eq!(lookup(""), None);
    assert_eq!(lookup("ls"), None);
    assert!(same("a", "a"));
    assert!(!same("a", "b"));
}

#[test]
fn the_builtins_give_their_steps() {
    assert_eq!(abort(), Step::Abort);
    assert_eq!(exit(vec![]), Step::Exit(0));
    assert_eq!(exit(vec!["3".to_owned()]), Step::Exit(3));
    assert_eq!(exit(vec!["1".to_owned(), "-2".to_owned()]), Step::Exit(-2));
    assert_eq!(
        exit(vec!["abc".to_owned()]),
        Step::Fail {
            kind: ErrorKind::ExecutionFailed,
            message: "only i32 is allowed for the exit argument".to_owned(),
        }
    );
    assert_eq!(exit(vec!["2147483648".to_owned()]), exit(vec!["x".to_owned()]));
    assert_eq!(cd(vec![], "/home/me"), Step::ChangeDirectory("/home/me".to_owned()));
    assert_eq!(cd(vec!["/tmp".to_owned()], "/home/me"), Step::ChangeDirectory("/tmp".to_owned()));
    assert_eq!(
        cd(vec!["a".to_owned(), "b".to_owned()], "/home/me"),
        Step::ChangeDirectory("b".to_owned())
    );
}
