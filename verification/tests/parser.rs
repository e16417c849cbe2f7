use nsh::error::ErrorKind;
use nsh::parser::lexer::Lexer;
use nsh::parser::token::Token;
use nsh::parser::{Command, Node, Parser, Redirect, RedirectKind, Tree};

fn parse(source: &str) -> Tree {
    Parser::new(Lexer::new(source.chars().collect()))
        .parse()
        .expect("well-formed source")
}

fn fault(source: &str) -> String {
    let error = Parser::new(Lexer::new(source.chars().collect()))
        .parse()
        .expect_err("malformed source");
    assert_eq!(*error.kind(), ErrorKind::WrongSyntax);
    error.message().to_owned()
}

fn statements(mut tree: Tree) -> Vec<Node> {
    let mut nodes = Vec::new();
    while let Some(node) = tree.take() {
        nodes.push(*node);
    }
    nodes
}

fn only(source: &str) -> Node {
    let mut nodes = statements(parse(source));
    assert_eq!(nodes.len(), 1);
    nodes.remove(0)
}

fn command(node: Node) -> Command {
    match node {
        Node::Command(command) => command,
        other => panic!("no command: {:?}", other),
    }
}

fn redirect(node: Node) -> Redirect {
    match node {
        Node::Redirect(redirect) => redirect,
        other => panic!("no redirection: {:?}", other),
    }
}

fn string(node: Option<Node>) -> String {
    match node {
        Some(Node::String(text)) => text,
        other => panic!("no word: {:?}", other),
    }
}

fn name(node: Option<Node>) -> String {
    match node {
        Some(Node::Reference(name)) => name,
        other => panic!("no reference: {:?}", other),
    }
}

fn descriptor(node: Option<Box<Node>>) -> u32 {
    match node.map(|node| *node) {
        Some(Node::FD(n)) => n,
        other => panic!("no descriptor: {:?}", other),
    }
}

fn suffix(command: &mut Command) -> Vec<Node> {
    let mut items = command.take_suffix().expect("a suffix");
    let mut nodes = Vec::new();
    while let Some(node) = items.take() {
        nodes.push(node);
    }
    nodes
}

fn program(node: Node) -> String {
    string(command(node).take_prefix())
}

#[test]
fn parses_a_bare_command() {
    let mut cmd = command(only("cmd"));
    assert_eq!(string(cmd.take_prefix()), "cmd");
    assert!(suffix(&mut cmd).is_empty());
}

#[test]
fn parses_a_pipeline_of_three_stages() {
    let mut pipe = match only("a | b | c") {
        Node::Pipe(pipe) => pipe,
        other => panic!("no pipeline: {:?}", other),
    };
    assert!(pipe.is_pipe());
    let mut names = Vec::new();
    while let Some(stage) = pipe.take() {
        names.push(program(stage));
    }
    assert_eq!(names, vec!["a", "b", "c"]);
    assert!(!pipe.is_pipe());
}

#[test]
fn is_pipe_tells_whether_a_stage_follows() {
    let mut pipe = match only("a | b") {
        Node::Pipe(pipe) => pipe,
        other => panic!("no pipeline: {:?}", other),
    };
    assert!(pipe.is_pipe());
    assert_eq!(program(pipe.take().expect("first stage")), "a");
    assert!(pipe.is_pipe());
    assert_eq!(program(pipe.take().expect("second stage")), "b");
    assert!(!pipe.is_pipe());
    assert!(pipe.take().is_none());
    assert!(!pipe.is_pipe());
}

#[test]
fn parses_an_assignment() {
    let mut insert = match only("KEY = VALUE") {
        Node::Insert(insert) => insert,
        other => panic!("no assignment: {:?}", other),
    };
    assert_eq!(string(insert.take_key()), "KEY");
    assert_eq!(string(insert.take_val()), "VALUE");
    assert!(insert.take_key().is_none());
    assert!(insert.take_val().is_none());
}

#[test]
fn parses_an_assignment_without_blanks() {
    let mut insert = match only("KEY=\"a b\"") {
        Node::Insert(insert) => insert,
        other => panic!("no assignment: {:?}", other),
    };
    assert_eq!(string(insert.take_key()), "KEY");
    assert_eq!(string(insert.take_val()), "a b");
}

#[test]
fn parses_a_redirection_of_standard_output() {
    let mut cmd = command(only("cmd > out.txt"));
    assert_eq!(string(cmd.take_prefix()), "cmd");
    let mut items = suffix(&mut cmd);
    assert_eq!(items.len(), 1);
    let mut redirection = redirect(items.remove(0));
    assert_eq!(*redirection.kind(), RedirectKind::Output);
    assert_eq!(descriptor(redirection.take_left()), 1);
    assert_eq!(string(redirection.take_right().map(|node| *node)), "out.txt");
    assert!(redirection.take_left().is_none());
    assert!(redirection.take_right().is_none());
}

#[test]
fn parses_a_redirection_of_standard_error() {
    let mut cmd = command(only("cmd 2> err.txt"));
    let mut items = suffix(&mut cmd);
    assert_eq!(items.len(), 1);
    let mut redirection = redirect(items.remove(0));
    assert_eq!(*redirection.kind(), RedirectKind::Output);
    assert_eq!(descriptor(redirection.take_left()), 2);
    assert_eq!(string(redirection.take_right().map(|node| *node)), "err.txt");
}

#[test]
fn parses_a_redirection_of_standard_input() {
    let mut cmd = command(only("sort < in.txt"));
    let mut items = suffix(&mut cmd);
    let mut redirection = redirect(items.remove(0));
    assert_eq!(*redirection.kind(), RedirectKind::Input);
    assert_eq!(descriptor(redirection.take_left()), 0);
    assert_eq!(string(redirection.take_right().map(|node| *node)), "in.txt");
}

#[test]
fn parses_a_redirection_onto_a_descriptor() {
    let mut cmd = command(only("cmd 2>&1"));
    let mut items = suffix(&mut cmd);
    let mut redirection = redirect(items.remove(0));
    assert_eq!(descriptor(redirection.take_left()), 2);
    assert_eq!(descriptor(redirection.take_right()), 1);
}

#[test]
fn parses_the_background_marker() {
    let mut cmd = command(only("cmd &"));
    assert_eq!(string(cmd.take_prefix()), "cmd");
    let items = suffix(&mut cmd);
    assert_eq!(items.len(), 1);
    assert!(matches!(items[0], Node::Background(true)));
}

#[test]
fn the_background_marker_ends_the_command() {
    let mut nodes = statements(parse("a x & b"));
    assert_eq!(nodes.len(), 2);
    let mut first = command(nodes.remove(0));
    let items = suffix(&mut first);
    assert_eq!(items.len(), 2);
    assert!(matches!(items[1], Node::Background(true)));
    assert_eq!(program(nodes.remove(0)), "b");
}

#[test]
fn keeps_the_order_of_the_suffix() {
    let mut cmd = command(only("cmd a $B > f c"));
    let mut items = suffix(&mut cmd);
    assert_eq!(items.len(), 4);
    assert_eq!(string(Some(items.remove(0))), "a");
    assert_eq!(name(Some(items.remove(0))), "B");
    assert!(matches!(items.remove(0), Node::Redirect(_)));
    assert_eq!(string(Some(items.remove(0))), "c");
}

#[test]
fn a_reference_is_a_prefix() {
    let mut cmd = command(only("$EDITOR file"));
    assert_eq!(name(cmd.take_prefix()), "EDITOR");
}

#[test]
fn semicolons_separate_statements() {
    let mut nodes = statements(parse("a ; b x;; c ;"));
    assert_eq!(nodes.len(), 3);
    assert_eq!(program(nodes.remove(0)), "a");
    assert_eq!(program(nodes.remove(0)), "b");
    assert_eq!(program(nodes.remove(0)), "c");
}

#[test]
fn empty_source_has_no_statements() {
    assert!(statements(parse("")).is_empty());
    assert!(statements(parse(" ; ;")).is_empty());
    assert!(statements(parse("# nothing")).is_empty());
}

#[test]
fn a_negative_descriptor_is_a_close_request() {
    assert!(matches!(only("&-1"), Node::CloseFD(1)));
    assert!(matches!(only("&-12"), Node::CloseFD(12)));
    assert!(matches!(only("&-10"), Node::CloseFD(10)));
    assert!(matches!(only("&-2147483648"), Node::CloseFD(2147483648)));
    let tokens = vec![Token::FD(-12)];
    let mut tree = Parser::from_tokens(tokens).parse().expect("well-formed tokens");
    assert!(matches!(tree.take().map(|node| *node), Some(Node::CloseFD(12))));
}

#[test]
fn a_redirection_without_a_target_is_malformed() {
    assert_eq!(fault("cmd >"), "no redirect destination specified");
    assert_eq!(fault("cmd 2> ;"), "no redirect destination specified");
    assert_eq!(fault("cmd > | b"), "no redirect destination specified");
}

#[test]
fn an_assignment_without_a_value_is_malformed() {
    assert_eq!(fault("KEY ="), "the suffix of = in the assignment was not found");
    assert_eq!(fault("KEY = ;"), "the suffix of = in the assignment was not found");
    assert_eq!(fault("KEY = $X"), "the suffix of = in the assignment was not found");
}

#[test]
fn a_token_out_of_place_is_malformed() {
    assert_eq!(fault("= a"), "unknown token: =");
    assert_eq!(fault("| a"), "unknown token: |");
    assert_eq!(fault("&-1 x ; = y"), "unknown token: =");
    assert_eq!(fault("cmd a = b"), "unknown token: =");
    assert_eq!(fault("a | | b"), "unknown token: |");
    assert_eq!(fault("A = B | c"), "unknown token: |");
    assert_eq!(fault("cmd &-1"), "unknown token: -1");
}

#[test]
fn a_redirection_without_a_command_is_malformed() {
    assert_eq!(fault("> out"), "no command to redirect");
    assert_eq!(fault("2> err"), "no command to redirect");
    assert_eq!(fault("a ; < in"), "no command to redirect");
    assert_eq!(fault("a | > out"), "no command to redirect");
    assert_eq!(fault("&2"), "no command to redirect");
}

#[test]
fn a_pipe_without_a_command_behind_it_is_malformed() {
    assert_eq!(fault("a |"), "no command after |");
    assert_eq!(fault("a | ;"), "unknown token: ;");
}

#[test]
fn a_descriptor_without_an_angle_is_malformed() {
    assert_eq!(fault("cmd &2"), "redirect direction is not specified");
    assert_eq!(fault("cmd &2 x"), "x token cannot be used");
}

#[test]
fn the_parser_defaults_the_descriptor_of_a_bare_angle() {
    let tokens = vec![
        Token::String("cmd".to_owned()),
        Token::Gt,
        Token::String("f".to_owned()),
        Token::Lt,
        Token::FD(3),
    ];
    let tree = Parser::from_tokens(tokens).parse().expect("well-formed tokens");
    let mut nodes = statements(tree);
    let mut cmd = command(nodes.remove(0));
    let mut items = suffix(&mut cmd);
    assert_eq!(items.len(), 2);
    let mut output = redirect(items.remove(0));
    assert_eq!(*output.kind(), RedirectKind::Output);
    assert_eq!(descriptor(output.take_left()), 1);
    let mut input = redirect(items.remove(0));
    assert_eq!(*input.kind(), RedirectKind::Input);
    assert_eq!(descriptor(input.take_left()), 0);
    assert_eq!(descriptor(input.take_right()), 3);
}

#[test]
fn a_second_parse_finds_nothing_left() {
    let mut parser = Parser::new(Lexer::new("a ; b".chars().collect()));
    assert_eq!(statements(parser.parse().expect("well-formed source")).len(), 2);
    assert!(statements(parser.parse().expect("nothing left")).is_empty());
}

#[test]
fn take_prefix_hands_out_a_copy() {
    let mut cmd = command(only("cmd a"));
    assert_eq!(string(cmd.take_prefix()), "cmd");
    assert_eq!(string(cmd.take_prefix()), "cmd");
    assert!(cmd.take_suffix().is_some());
    assert!(cmd.take_suffix().is_none());
    assert_eq!(string(cmd.take_prefix()), "cmd");
}

#[test]
fn a_copy_of_a_node_holds_the_same() {
    let node = only("a x > f | $B & | c");
    let copy = node.clone();
    assert_eq!(format!("{:?}", copy), format!("{:?}", node));
    let mut pipe = match copy {
        Node::Pipe(pipe) => pipe,
        other => panic!("no pipeline: {:?}", other),
    };
    assert_eq!(program(pipe.take().expect("first stage")), "a");
    let mut first = match node {
        Node::Pipe(pipe) => pipe,
        other => panic!("no pipeline: {:?}", other),
    };
    assert!(first.is_pipe());
    assert_eq!(program(first.take().expect("first stage")), "a");
    assert_eq!(name(command(first.take().expect("second stage")).take_prefix()), "B");
}
