use nsh::error::ErrorKind;
use nsh::evaluator::plan::{
    run_command, run_statement, Launch, Redirection, Slot, Step, Stream, Target,
};
use nsh::parser::Node;
use nsh::evaluator::{Action, Evaluator, Outcome};
use nsh::shell::{parse, Shell};
use nsh::variable::Variable;

fn evaluator(source: &str) -> Evaluator {
    Evaluator::new(parse(source.to_owned(), "/home/me").expect("well-formed source"))
}

fn launch(program: &str, arguments: &[&str]) -> Launch {
    Launch {
        program: program.to_owned(),
        arguments: arguments.iter().map(|a| a.to_string()).collect(),
        path: None,
        stdin: Stream::Inherit,
        stdout: Stream::Inherit,
        stderr: Stream::Inherit,
        background: false,
    }
}

fn start(stage: usize, command: Launch) -> Action {
    Action::Perform(Step::Launch { stage, command })
}

fn file(descriptor: u32, path: &str) -> Redirection {
    Redirection {
        descriptor,
        target: Target::File(path.to_owned()),
        duplicate: descriptor > 2,
    }
}

fn onto(descriptor: u32, target: u32) -> Redirection {
    Redirection {
        descriptor,
        target: Target::Descriptor(target),
        duplicate: descriptor > 2,
    }
}

fn to_file(descriptor: u32, path: &str) -> Stream {
    Stream::Redirect(file(descriptor, path))
}

fn open(stage: usize, slot: Slot, redirection: Redirection) -> Action {
    Action::Perform(Step::Open { stage, slot, redirection })
}

fn report(action: Action) -> (ErrorKind, String) {
    match action {
        Action::Report(error) => (*error.kind(), error.message().to_owned()),
        other => panic!("no report: {:?}", other),
    }
}

#[test]
fn an_assignment_sets_the_variable() {
    let mut evaluator = evaluator("KEY = VALUE");
    assert_eq!(evaluator.eval(Outcome::Done), Action::Finished);
    assert_eq!(evaluator.variable().get("KEY".to_owned()), Some("VALUE"));
    let store = evaluator.take_variable();
    assert_eq!(store.get("KEY".to_owned()), Some("VALUE"));
    assert_eq!(evaluator.variable().get("KEY".to_owned()), None);
}

#[test]
fn a_later_statement_sees_an_earlier_assignment() {
    let mut evaluator = evaluator("X = 1 ; echo $X ; X = 2 ; echo $X");
    assert_eq!(evaluator.eval(Outcome::Done), start(0, launch("echo", &["1"])));
    assert_eq!(evaluator.eval(Outcome::Done), Action::Perform(Step::Wait(0)));
    assert_eq!(evaluator.eval(Outcome::Done), start(0, launch("echo", &["2"])));
    assert_eq!(evaluator.eval(Outcome::Done), Action::Perform(Step::Wait(0)));
    assert_eq!(evaluator.eval(Outcome::Done), Action::Finished);
    assert_eq!(evaluator.eval(Outcome::Done), Action::Finished);
}

#[test]
fn a_foreground_command_is_awaited() {
    let mut evaluator = evaluator("ls -a");
    assert_eq!(evaluator.eval(Outcome::Done), start(0, launch("ls", &["-a"])));
    assert_eq!(evaluator.eval(Outcome::Done), Action::Perform(Step::Wait(0)));
    assert_eq!(evaluator.eval(Outcome::Done), Action::Finished);
}

#[test]
fn a_background_command_is_not_awaited() {
    let mut evaluator = evaluator("cmd &");
    let mut expected = launch("cmd", &[]);
    expected.background = true;
    assert_eq!(evaluator.eval(Outcome::Done), start(0, expected));
    assert_eq!(evaluator.eval(Outcome::Done), Action::Finished);
}

#[test]
fn an_unset_reference_gives_no_argument() {
    let mut evaluator = evaluator("echo $X");
    assert_eq!(evaluator.eval(Outcome::Done), start(0, launch("echo", &[])));
}

#[test]
fn a_set_reference_gives_its_value() {
    let mut store = Variable::new();
    store.insert("X".to_owned(), "a b".to_owned());
    store.insert("EMPTY".to_owned(), String::new());
    let mut evaluator = evaluator("echo $X $EMPTY $Y z");
    evaluator.set_variable(store);
    assert_eq!(evaluator.eval(Outcome::Done), start(0, launch("echo", &["a b", "", "z"])));
}

#[test]
fn a_reference_can_name_the_program() {
    let mut store = Variable::new();
    store.insert("EDITOR".to_owned(), "vi".to_owned());
    let mut evaluator = evaluator("$EDITOR file ; $NONE file ; after");
    evaluator.set_variable(store);
    assert_eq!(evaluator.eval(Outcome::Done), start(0, launch("vi", &["file"])));
    assert_eq!(evaluator.eval(Outcome::Done), Action::Perform(Step::Wait(0)));
    assert_eq!(evaluator.eval(Outcome::Done), start(0, launch("after", &[])));
}

#[test]
fn a_pipeline_of_two_stages_is_wired_through_one_pipe() {
    let mut evaluator = evaluator("printf %s hello | tr a-z A-Z");
    let mut first = launch("printf", &["%s", "hello"]);
    first.stdout = Stream::Pipe(0);
    let mut second = launch("tr", &["a-z", "A-Z"]);
    second.stdin = Stream::Pipe(0);
    assert_eq!(evaluator.eval(Outcome::Done), Action::Perform(Step::OpenPipe(0)));
    assert_eq!(evaluator.eval(Outcome::Done), start(0, first));
    assert_eq!(evaluator.eval(Outcome::Done), start(1, second));
    assert_eq!(evaluator.eval(Outcome::Done), Action::Perform(Step::ClosePipe(0)));
    assert_eq!(evaluator.eval(Outcome::Done), Action::Perform(Step::Wait(0)));
    assert_eq!(evaluator.eval(Outcome::Done), Action::Perform(Step::Wait(1)));
    assert_eq!(evaluator.eval(Outcome::Done), Action::Finished);
}

#[test]
fn a_pipeline_of_three_stages_is_wired_through_two_pipes() {
    let mut evaluator = evaluator("a < in | b & | c > out");
    let mut a = launch("a", &[]);
    a.stdin = to_file(0, "in");
    a.stdout = Stream::Pipe(0);
    let mut b = launch("b", &[]);
    b.stdin = Stream::Pipe(0);
    b.stdout = Stream::Pipe(1);
    b.background = true;
    let mut c = launch("c", &[]);
    c.stdin = Stream::Pipe(1);
    c.stdout = to_file(1, "out");
    assert_eq!(evaluator.eval(Outcome::Done), Action::Perform(Step::OpenPipe(0)));
    assert_eq!(evaluator.eval(Outcome::Done), open(0, Slot::Stdin, file(0, "in")));
    assert_eq!(evaluator.eval(Outcome::Done), start(0, a));
    assert_eq!(evaluator.eval(Outcome::Done), Action::Perform(Step::OpenPipe(1)));
    assert_eq!(evaluator.eval(Outcome::Done), start(1, b));
    assert_eq!(evaluator.eval(Outcome::Done), open(2, Slot::Stdout, file(1, "out")));
    assert_eq!(evaluator.eval(Outcome::Done), start(2, c));
    assert_eq!(evaluator.eval(Outcome::Done), Action::Perform(Step::ClosePipe(0)));
    assert_eq!(evaluator.eval(Outcome::Done), Action::Perform(Step::ClosePipe(1)));
    assert_eq!(evaluator.eval(Outcome::Done), Action::Perform(Step::Wait(0)));
    assert_eq!(evaluator.eval(Outcome::Done), Action::Perform(Step::Wait(2)));
    assert_eq!(evaluator.eval(Outcome::Done), Action::Finished);
}

#[test]
fn a_stage_that_fails_to_start_does_not_stop_the_others() {
    let mut evaluator = evaluator("a | nothing | c");
    assert_eq!(evaluator.eval(Outcome::Done), Action::Perform(Step::OpenPipe(0)));
    assert!(matches!(evaluator.eval(Outcome::Done), Action::Perform(Step::Launch { stage: 0, .. })));
    assert_eq!(evaluator.eval(Outcome::Done), Action::Perform(Step::OpenPipe(1)));
    assert!(matches!(evaluator.eval(Outcome::Done), Action::Perform(Step::Launch { stage: 1, .. })));
    assert_eq!(
        report(evaluator.eval(Outcome::NotFound)),
        (ErrorKind::NotFound, "nsh command not found: nothing".to_owned())
    );
    assert!(matches!(evaluator.eval(Outcome::Done), Action::Perform(Step::Launch { stage: 2, .. })));
    assert_eq!(evaluator.eval(Outcome::Done), Action::Perform(Step::ClosePipe(0)));
    assert_eq!(evaluator.eval(Outcome::Done), Action::Perform(Step::ClosePipe(1)));
    assert_eq!(evaluator.eval(Outcome::Done), Action::Perform(Step::Wait(0)));
    assert_eq!(evaluator.eval(Outcome::Done), Action::Perform(Step::Wait(2)));
    assert_eq!(evaluator.eval(Outcome::Done), Action::Finished);
}

#[test]
fn redirections_are_resolved_in_order_and_replace_the_streams() {
    let mut evaluator = evaluator("cmd < in > out 2> err 5> five 2>&1 <&7");
    let mut expected = launch("cmd", &[]);
    expected.stdin = Stream::Redirect(onto(0, 7));
    expected.stdout = to_file(5, "five");
    expected.stderr = Stream::Redirect(onto(2, 1));
    assert_eq!(evaluator.eval(Outcome::Done), open(0, Slot::Stdin, file(0, "in")));
    assert_eq!(evaluator.eval(Outcome::Done), open(0, Slot::Stdout, file(1, "out")));
    assert_eq!(evaluator.eval(Outcome::Done), open(0, Slot::Stderr, file(2, "err")));
    assert_eq!(evaluator.eval(Outcome::Done), open(0, Slot::Stdout, file(5, "five")));
    assert_eq!(evaluator.eval(Outcome::Done), open(0, Slot::Stderr, onto(2, 1)));
    assert_eq!(evaluator.eval(Outcome::Done), open(0, Slot::Stdin, onto(0, 7)));
    assert_eq!(evaluator.eval(Outcome::Done), start(0, expected));
    assert_eq!(evaluator.eval(Outcome::Done), Action::Perform(Step::Wait(0)));
    assert_eq!(evaluator.eval(Outcome::Done), Action::Finished);
}

#[test]
fn a_redirection_that_a_later_one_replaces_is_resolved_too() {
    let mut evaluator = evaluator("ls > a > b");
    let mut expected = launch("ls", &[]);
    expected.stdout = to_file(1, "b");
    assert_eq!(evaluator.eval(Outcome::Done), open(0, Slot::Stdout, file(1, "a")));
    assert_eq!(evaluator.eval(Outcome::Done), open(0, Slot::Stdout, file(1, "b")));
    assert_eq!(evaluator.eval(Outcome::Done), start(0, expected));
}

#[test]
fn a_builtin_has_its_redirections_resolved() {
    let mut evaluator = evaluator("exit > a ; cd /tmp < b 2> c ; abort > d");
    assert_eq!(evaluator.eval(Outcome::Done), open(0, Slot::Stdout, file(1, "a")));
    assert_eq!(evaluator.eval(Outcome::Done), Action::Perform(Step::Exit(0)));
    assert_eq!(evaluator.eval(Outcome::Done), open(0, Slot::Stdin, file(0, "b")));
    assert_eq!(evaluator.eval(Outcome::Done), open(0, Slot::Stderr, file(2, "c")));
    assert_eq!(
        evaluator.eval(Outcome::Done),
        Action::Perform(Step::ChangeDirectory("/tmp".to_owned()))
    );
    assert_eq!(evaluator.eval(Outcome::Done), open(0, Slot::Stdout, file(1, "d")));
    assert_eq!(evaluator.eval(Outcome::Done), Action::Perform(Step::Abort));
    assert_eq!(evaluator.eval(Outcome::Done), Action::Finished);
}

#[test]
fn a_failed_open_ends_a_builtin() {
    let mut evaluator = evaluator("X = 1 ; exit > /no/dir/a ; cd /tmp > /no/b > c ; abort 2> /no/c ; echo $X");
    assert_eq!(evaluator.eval(Outcome::Done), open(0, Slot::Stdout, file(1, "/no/dir/a")));
    assert_eq!(
        report(evaluator.eval(Outcome::OpenFailed("no such directory".to_owned()))),
        (ErrorKind::OpenFailed, "no such directory".to_owned())
    );
    assert_eq!(evaluator.eval(Outcome::Done), open(0, Slot::Stdout, file(1, "/no/b")));
    assert_eq!(
        report(evaluator.eval(Outcome::OpenFailed("denied".to_owned()))),
        (ErrorKind::OpenFailed, "denied".to_owned())
    );
    assert_eq!(evaluator.eval(Outcome::Done), open(0, Slot::Stderr, file(2, "/no/c")));
    assert_eq!(
        report(evaluator.eval(Outcome::OpenFailed("denied".to_owned()))),
        (ErrorKind::OpenFailed, "denied".to_owned())
    );
    assert_eq!(evaluator.eval(Outcome::Done), start(0, launch("echo", &["1"])));
    assert_eq!(evaluator.eval(Outcome::Done), Action::Perform(Step::Wait(0)));
    assert_eq!(evaluator.eval(Outcome::Done), Action::Finished);
    assert_eq!(evaluator.variable().get("X".to_owned()), Some("1"));
}

#[test]
fn a_failed_open_ends_its_stage_and_no_other() {
    let mut evaluator = evaluator("a | b > /no/x > y | c");
    assert_eq!(evaluator.eval(Outcome::Done), Action::Perform(Step::OpenPipe(0)));
    assert!(matches!(evaluator.eval(Outcome::Done), Action::Perform(Step::Launch { stage: 0, .. })));
    assert_eq!(evaluator.eval(Outcome::Done), Action::Perform(Step::OpenPipe(1)));
    assert_eq!(evaluator.eval(Outcome::Done), open(1, Slot::Stdout, file(1, "/no/x")));
    assert_eq!(
        report(evaluator.eval(Outcome::OpenFailed("denied".to_owned()))),
        (ErrorKind::OpenFailed, "denied".to_owned())
    );
    assert!(matches!(evaluator.eval(Outcome::Done), Action::Perform(Step::Launch { stage: 2, .. })));
    assert_eq!(evaluator.eval(Outcome::Done), Action::Perform(Step::ClosePipe(0)));
    assert_eq!(evaluator.eval(Outcome::Done), Action::Perform(Step::ClosePipe(1)));
    assert_eq!(evaluator.eval(Outcome::Done), Action::Perform(Step::Wait(0)));
    assert_eq!(evaluator.eval(Outcome::Done), Action::Perform(Step::Wait(2)));
    assert_eq!(evaluator.eval(Outcome::Done), Action::Finished);
}

#[test]
fn a_command_without_a_program_resolves_nothing() {
    let mut evaluator = evaluator("$NONE > a ; after");
    assert_eq!(evaluator.eval(Outcome::Done), start(0, launch("after", &[])));
}

#[test]
fn the_store_overrides_the_path() {
    let mut evaluator = evaluator("PATH = /opt/bin ; tool");
    let mut expected = launch("tool", &[]);
    expected.path = Some("/opt/bin".to_owned());
    assert_eq!(evaluator.eval(Outcome::Done), start(0, expected));
}

#[test]
fn a_program_that_is_not_found_is_reported_and_the_next_statement_runs() {
    let mut evaluator = evaluator("no-such-program ; echo ok");
    assert_eq!(evaluator.eval(Outcome::Done), start(0, launch("no-such-program", &[])));
    assert_eq!(
        report(evaluator.eval(Outcome::NotFound)),
        (ErrorKind::NotFound, "nsh command not found: no-such-program".to_owned())
    );
    assert_eq!(evaluator.eval(Outcome::Done), start(0, launch("echo", &["ok"])));
    assert_eq!(evaluator.eval(Outcome::Done), Action::Perform(Step::Wait(0)));
    assert_eq!(evaluator.eval(Outcome::Done), Action::Finished);
}

#[test]
fn a_target_that_cannot_be_opened_is_reported() {
    let mut evaluator = evaluator("cmd > /no/such/dir/file ; next");
    assert_eq!(
        evaluator.eval(Outcome::Done),
        open(0, Slot::Stdout, file(1, "/no/such/dir/file"))
    );
    assert_eq!(
        report(evaluator.eval(Outcome::OpenFailed("No such file or directory".to_owned()))),
        (ErrorKind::OpenFailed, "No such file or directory".to_owned())
    );
    assert_eq!(evaluator.eval(Outcome::Done), start(0, launch("next", &[])));
}

#[test]
fn a_refusal_of_the_operating_system_is_reported() {
    let mut evaluator = evaluator("cmd ; cd /nowhere ; last");
    assert!(matches!(evaluator.eval(Outcome::Done), Action::Perform(Step::Launch { .. })));
    assert_eq!(evaluator.eval(Outcome::Done), Action::Perform(Step::Wait(0)));
    assert_eq!(
        report(evaluator.eval(Outcome::Failed("interrupted".to_owned()))),
        (ErrorKind::ExecutionFailed, "interrupted".to_owned())
    );
    assert_eq!(
        evaluator.eval(Outcome::Done),
        Action::Perform(Step::ChangeDirectory("/nowhere".to_owned()))
    );
    assert_eq!(
        report(evaluator.eval(Outcome::Failed("no such directory".to_owned()))),
        (ErrorKind::ExecutionFailed, "no such directory".to_owned())
    );
    assert_eq!(evaluator.eval(Outcome::Done), start(0, launch("last", &[])));
}

#[test]
fn exit_ends_the_shell_with_its_status() {
    assert_eq!(evaluator("exit 3").eval(Outcome::Done), Action::Perform(Step::Exit(3)));
    assert_eq!(evaluator("exit").eval(Outcome::Done), Action::Perform(Step::Exit(0)));
    assert_eq!(evaluator("exit -1").eval(Outcome::Done), Action::Perform(Step::Exit(-1)));
    assert_eq!(evaluator("exit 1 2").eval(Outcome::Done), Action::Perform(Step::Exit(2)));
}

#[test]
fn exit_with_a_word_fails_and_the_shell_goes_on() {
    let mut evaluator = evaluator("exit abc ; echo still here");
    assert_eq!(
        report(evaluator.eval(Outcome::Done)),
        (ErrorKind::ExecutionFailed, "only i32 is allowed for the exit argument".to_owned())
    );
    assert_eq!(evaluator.eval(Outcome::Done), start(0, launch("echo", &["still", "here"])));
}

#[test]
fn abort_ends_the_shell_at_once() {
    assert_eq!(evaluator("abort").eval(Outcome::Done), Action::Perform(Step::Abort));
}

#[test]
fn cd_changes_to_its_argument_or_home() {
    assert_eq!(
        evaluator("cd /tmp").eval(Outcome::Done),
        Action::Perform(Step::ChangeDirectory("/tmp".to_owned()))
    );
    let mut shell = Shell::new();
    let mut evaluator = shell
        .begin("cd".to_owned(), "/home/me".to_owned())
        .expect("well-formed source");
    assert_eq!(
        evaluator.eval(Outcome::Done),
        Action::Perform(Step::ChangeDirectory("/home/me".to_owned()))
    );
    assert_eq!(evaluator.eval(Outcome::Done), Action::Finished);
}

#[test]
fn builtins_are_no_reserved_words() {
    let mut evaluator = evaluator("echo exit cd abort");
    assert_eq!(evaluator.eval(Outcome::Done), start(0, launch("echo", &["exit", "cd", "abort"])));
}

#[test]
fn a_builtin_is_known_by_the_expanded_name() {
    let mut store = Variable::new();
    store.insert("LEAVE".to_owned(), "exit".to_owned());
    let mut evaluator = evaluator("$LEAVE 4");
    evaluator.set_variable(store);
    assert_eq!(evaluator.eval(Outcome::Done), Action::Perform(Step::Exit(4)));
}

#[test]
fn the_shell_lends_its_store_and_takes_it_back() {
    let mut shell = Shell::new();
    let mut evaluator = shell
        .begin("A = 1".to_owned(), "/".to_owned())
        .expect("well-formed source");
    assert_eq!(evaluator.eval(Outcome::Done), Action::Finished);
    shell.end(evaluator);
    assert_eq!(shell.variable().get("A".to_owned()), Some("1"));
    let mut evaluator = shell
        .begin("echo $A".to_owned(), "/".to_owned())
        .expect("well-formed source");
    assert_eq!(evaluator.eval(Outcome::Done), start(0, launch("echo", &["1"])));
    shell.end(evaluator);
    assert_eq!(shell.variable().get("A".to_owned()), Some("1"));
    let error = shell
        .begin("echo >".to_owned(), "/".to_owned())
        .err()
        .expect("malformed source");
    assert_eq!(*error.kind(), ErrorKind::WrongSyntax);
    assert_eq!(shell.variable().get("A".to_owned()), Some("1"));
}

#[test]
fn a_tilde_stands_for_home() {
    let mut evaluator = evaluator("ls ~/src");
    assert_eq!(evaluator.eval(Outcome::Done), start(0, launch("ls", &["/home/me/src"])));
}

#[test]
fn a_line_feed_ends_a_statement_and_a_comment() {
    let mut evaluator = evaluator("A = 1 # first\necho $A\n# done\n");
    assert_eq!(evaluator.eval(Outcome::Done), start(0, launch("echo", &["1"])));
    assert_eq!(evaluator.eval(Outcome::Done), Action::Perform(Step::Wait(0)));
    assert_eq!(evaluator.eval(Outcome::Done), Action::Finished);
}

fn first_statement(source: &str) -> Node {
    match parse(source.to_owned(), "/").expect("well-formed source") {
        Node::Tree(mut tree) => *tree.take().expect("a statement"),
        other => panic!("no tree: {:?}", other),
    }
}

#[test]
fn run_command_gives_the_steps_of_a_stage() {
    let command = match first_statement("tool x > f") {
        Node::Command(command) => command,
        other => panic!("no command: {:?}", other),
    };
    let mut expected = launch("tool", &["x"]);
    expected.stdin = Stream::Pipe(2);
    expected.stdout = to_file(1, "f");
    assert_eq!(
        run_command(command, &Variable::new(), "/", 3, true),
        vec![
            Step::Open { stage: 3, slot: Slot::Stdout, redirection: file(1, "f") },
            Step::Launch { stage: 3, command: expected },
        ]
    );
}

#[test]
fn run_command_wires_a_stage_to_the_pipes_around_it() {
    let command = match first_statement("tool") {
        Node::Command(command) => command,
        other => panic!("no command: {:?}", other),
    };
    let mut expected = launch("tool", &[]);
    expected.stdin = Stream::Pipe(0);
    expected.stdout = Stream::Pipe(1);
    assert_eq!(
        run_command(command, &Variable::new(), "/", 1, true),
        vec![Step::Launch { stage: 1, command: expected }]
    );
}

#[test]
fn run_statement_plans_a_statement_and_assigns() {
    let mut store = Variable::new();
    assert_eq!(run_statement(first_statement("A = b"), &mut store, "/"), vec![]);
    assert_eq!(store.get("A".to_owned()), Some("b"));
    assert_eq!(
        run_statement(first_statement("exit $A < in"), &mut store, "/"),
        vec![
            Step::Open { stage: 0, slot: Slot::Stdin, redirection: file(0, "in") },
            Step::Fail {
                kind: ErrorKind::ExecutionFailed,
                message: "only i32 is allowed for the exit argument".to_owned(),
            },
        ]
    );
    assert_eq!(run_statement(first_statement("&-3"), &mut store, "/"), vec![]);
}
