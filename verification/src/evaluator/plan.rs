//! What a statement asks of the operating system.
//!
//! A statement is turned into steps: pipes to create, redirections to
//! resolve, programs to launch with their streams, pipes to close,
//! processes to await, and what the builtins do. The redirections of a
//! command are resolved one by one, in the order written, before the
//! command's program is launched or its builtin is run. The caller performs
//! the steps in order. Nothing here touches the operating system.

use crate::builtin::{abort, builtin_of, cd, cd_step, exit, exit_step, lookup, Builtin};
use crate::error::ErrorKind;
use crate::parser::node::{Command, CommandSuffix, Node, Pipe, Redirect, RedirectKind, Syntax};
use crate::variable::Variable;
use vstd::prelude::*;

verus! {

/// What a redirection connects a descriptor to.
#[derive(Debug, Clone, PartialEq, Eq)]
pub enum Target {
    /// The named file, opened for reading and writing and created where
    /// it is missing.
    File(String),
    /// A descriptor that is already open.
    Descriptor(u32),
}

/// A redirection as the caller resolves it.
#[derive(Debug, Clone, PartialEq, Eq)]
pub struct Redirection {
    /// The descriptor written on the left of the angle.
    pub descriptor: u32,
    /// What it is connected to.
    pub target: Target,
    /// Whether `descriptor` is duplicated onto the target before the target
    /// is handed to the process: it is for every descriptor but 0, 1 and 2.
    pub duplicate: bool,
}

/// One of the three standard streams of a process.
#[derive(Debug, Clone, Copy, PartialEq, Eq, Structural)]
pub enum Slot {
    /// Standard input.
    Stdin,
    /// Standard output.
    Stdout,
    /// Standard error.
    Stderr,
}

/// Where a standard stream of a process comes from or goes to.
#[derive(Debug, Clone, PartialEq, Eq)]
pub enum Stream {
    /// The stream of the shell itself.
    Inherit,
    /// An end of the pipe of this number: its read end for standard input,
    /// its write end for standard output.
    Pipe(usize),
    /// What a redirection names: what the step that resolved this
    /// redirection for the stream has opened.
    Redirect(Redirection),
}

/// A program to start.
#[derive(Debug, Clone, PartialEq, Eq)]
pub struct Launch {
    /// The program's name.
    pub program: String,
    /// Its arguments, without the name.
    pub arguments: Vec<String>,
    /// The value of `PATH` for the program, where the store holds one.
    pub path: Option<String>,
    pub stdin: Stream,
    pub stdout: Stream,
    pub stderr: Stream,
    /// Whether the process is left to itself once it runs.
    pub background: bool,
}

/// One thing for the caller to do.
#[derive(Debug, Clone, PartialEq, Eq)]
pub enum Step {
    /// Create the pipe of this number.
    OpenPipe(usize),
    /// Resolve a redirection of the stage of this number: open the file or
    /// duplicate the descriptor that it names, and keep the result for the
    /// stream in the place of what an earlier redirection of that stream
    /// gave.
    Open { stage: usize, slot: Slot, redirection: Redirection },
    /// Start the program of the stage of this number.
    Launch { stage: usize, command: Launch },
    /// Close the shell's own ends of the pipe of this number.
    ClosePipe(usize),
    /// Block until the process of the stage of this number has ended.
    Wait(usize),
    /// Make this directory the current one, and record it as `PWD`.
    ChangeDirectory(String),
    /// End the shell with this status.
    Exit(i32),
    /// End the shell at once.
    Abort,
    /// Report this error; nothing is asked of the operating system.
    Fail { kind: ErrorKind, message: String },
}

/// A target as a mathematical value.
pub enum TargetView {
    File(Seq<char>),
    Descriptor(u32),
}

/// A redirection as a mathematical value.
pub struct RedirectionView {
    pub descriptor: u32,
    pub target: TargetView,
    pub duplicate: bool,
}

/// A stream as a mathematical value.
pub enum StreamView {
    Inherit,
    Pipe(usize),
    Redirect(RedirectionView),
}

/// A launch as a mathematical value.
pub struct LaunchView {
    pub program: Seq<char>,
    pub arguments: Seq<Seq<char>>,
    pub path: Option<Seq<char>>,
    pub stdin: StreamView,
    pub stdout: StreamView,
    pub stderr: StreamView,
    pub background: bool,
}

/// A step as a mathematical value.
pub enum StepView {
    OpenPipe(usize),
    Open { stage: usize, slot: Slot, redirection: RedirectionView },
    Launch { stage: usize, command: LaunchView },
    ClosePipe(usize),
    Wait(usize),
    ChangeDirectory(Seq<char>),
    Exit(i32),
    Abort,
    Fail { kind: ErrorKind, message: Seq<char> },
}

impl View for Target {
    type V = TargetView;

    open spec fn view(&self) -> TargetView {
        match self {
            Target::File(path) => TargetView::File(path@),
            Target::Descriptor(n) => TargetView::Descriptor(*n),
        }
    }
}

impl View for Redirection {
    type V = RedirectionView;

    open spec fn view(&self) -> RedirectionView {
        RedirectionView {
            descriptor: self.descriptor,
            target: self.target@,
            duplicate: self.duplicate,
        }
    }
}

impl View for Stream {
    type V = StreamView;

    open spec fn view(&self) -> StreamView {
        match self {
            Stream::Inherit => StreamView::Inherit,
            Stream::Pipe(n) => StreamView::Pipe(*n),
            Stream::Redirect(redirection) => StreamView::Redirect(redirection@),
        }
    }
}

/// The texts of `strings`, in order.
pub open spec fn texts(strings: Seq<String>) -> Seq<Seq<char>> {
    strings.map_values(|s: String| s@)
}

/// The text of an optional string.
pub open spec fn text_of(string: Option<String>) -> Option<Seq<char>> {
    match string {
        Some(s) => Some(s@),
        None => None,
    }
}

impl View for Launch {
    type V = LaunchView;

    open spec fn view(&self) -> LaunchView {
        LaunchView {
            program: self.program@,
            arguments: texts(self.arguments@),
            path: text_of(self.path),
            stdin: self.stdin@,
            stdout: self.stdout@,
            stderr: self.stderr@,
            background: self.background,
        }
    }
}

impl View for Step {
    type V = StepView;

    open spec fn view(&self) -> StepView {
        match self {
            Step::OpenPipe(n) => StepView::OpenPipe(*n),
            Step::Open { stage, slot, redirection } => StepView::Open {
                stage: *stage,
                slot: *slot,
                redirection: redirection@,
            },
            Step::Launch { stage, command } => StepView::Launch { stage: *stage, command: command@ },
            Step::ClosePipe(n) => StepView::ClosePipe(*n),
            Step::Wait(n) => StepView::Wait(*n),
            Step::ChangeDirectory(path) => StepView::ChangeDirectory(path@),
            Step::Exit(code) => StepView::Exit(*code),
            Step::Abort => StepView::Abort,
            Step::Fail { kind, message } => StepView::Fail { kind: *kind, message: message@ },
        }
    }
}

/// The steps of `steps` as mathematical values.
pub open spec fn step_views(steps: Seq<Step>) -> Seq<StepView> {
    steps.map_values(|s: Step| s@)
}

/// A store as contracts see it: a map from names to values.
pub type Store = Map<Seq<char>, Seq<char>>;

/// A redirection and the stream that it replaces.
pub struct Opening {
    pub slot: Slot,
    pub redirection: RedirectionView,
}

/// What the suffix of a command has given so far.
pub struct Collected {
    /// The arguments, in the order written.
    pub arguments: Seq<Seq<char>>,
    /// Every redirection, in the order written.
    pub opens: Seq<Opening>,
    /// The last redirection of each stream.
    pub stdin: Option<RedirectionView>,
    pub stdout: Option<RedirectionView>,
    pub stderr: Option<RedirectionView>,
    /// Whether the background marker was there.
    pub background: bool,
}

/// What an empty suffix gives.
pub open spec fn nothing_collected() -> Collected {
    Collected {
        arguments: Seq::empty(),
        opens: Seq::empty(),
        stdin: None,
        stdout: None,
        stderr: None,
        background: false,
    }
}

/// The stream that a redirection replaces: standard input for one of
/// input; for one of output, standard error where its descriptor is 2 and
/// standard output for any other descriptor.
pub open spec fn slot_of(kind: RedirectKind, descriptor: u32) -> Slot {
    match kind {
        RedirectKind::Input => Slot::Stdin,
        RedirectKind::Output => if descriptor == 2 {
            Slot::Stderr
        } else {
            Slot::Stdout
        },
    }
}

/// What `so_far` becomes with one more redirection: the redirection is one
/// more to resolve, and it replaces what stood for its stream.
pub open spec fn redirected(so_far: Collected, slot: Slot, redirection: RedirectionView)
    -> Collected {
    let opens = so_far.opens.push(Opening { slot, redirection });
    match slot {
        Slot::Stdin => Collected { opens, stdin: Some(redirection), ..so_far },
        Slot::Stdout => Collected { opens, stdout: Some(redirection), ..so_far },
        Slot::Stderr => Collected { opens, stderr: Some(redirection), ..so_far },
    }
}

/// The target that the right side of a redirection names: a file for a
/// word, a descriptor for a descriptor, none for anything else.
pub open spec fn target_of(right: Option<Box<Syntax>>) -> Option<TargetView> {
    match right {
        Some(node) => match *node {
            Syntax::String(path) => Some(TargetView::File(path)),
            Syntax::FD(n) => Some(TargetView::Descriptor(n)),
            _ => None,
        },
        None => None,
    }
}

/// The descriptor that the left side of a redirection names.
pub open spec fn descriptor_of(left: Option<Box<Syntax>>) -> Option<u32> {
    match left {
        Some(node) => match *node {
            Syntax::FD(n) => Some(n),
            _ => None,
        },
        None => None,
    }
}

/// The redirection that the node `item` asks for, if it is a redirection
/// with a descriptor on its left and a word or a descriptor on its right.
pub open spec fn redirection_of(item: Syntax) -> Option<RedirectionView> {
    if item is Redirect && descriptor_of(item->left) is Some && target_of(item->right) is Some {
        Some(
            RedirectionView {
                descriptor: descriptor_of(item->left)->0,
                target: target_of(item->right)->0,
                duplicate: descriptor_of(item->left)->0 > 2,
            },
        )
    } else {
        None
    }
}

/// What `so_far` becomes with one more item of the suffix.
///
/// - A word is an argument.
/// - A reference is an argument where the store holds its name, and
///   nothing at all where it does not.
/// - A redirection is one more to resolve. One of input replaces standard
///   input. One of output replaces standard error where its descriptor is
///   2, standard output for any other descriptor. A later redirection of a
///   stream replaces an earlier one as the stream, but is resolved after
///   it, not in its place.
/// - The background marker sets the command apart.
/// - Anything else is passed over.
pub open spec fn absorb(so_far: Collected, item: Syntax, store: Store) -> Collected {
    match item {
        Syntax::String(text) => Collected { arguments: so_far.arguments.push(text), ..so_far },
        Syntax::Reference(name) => if store.contains_key(name) {
            Collected { arguments: so_far.arguments.push(store[name]), ..so_far }
        } else {
            so_far
        },
        Syntax::Redirect { kind, .. } => match redirection_of(item) {
            Some(redirection) => redirected(
                so_far,
                slot_of(kind, redirection.descriptor),
                redirection,
            ),
            None => so_far,
        },
        Syntax::Background(_) => Collected { background: true, ..so_far },
        _ => so_far,
    }
}

/// What the items of a suffix give, taken in order.
pub open spec fn collected(items: Seq<Syntax>, store: Store) -> Collected
    decreases items.len(),
{
    if items.len() == 0 {
        nothing_collected()
    } else {
        absorb(collected(items.drop_last(), store), items.last(), store)
    }
}

/// The name of the program that the prefix of a command names: a word as
/// it is, a reference as the store resolves it, and the empty name where the
/// store does not hold it. `None` for any other node.
pub open spec fn program_of(prefix: Syntax, store: Store) -> Option<Seq<char>> {
    match prefix {
        Syntax::String(text) => Some(text),
        Syntax::Reference(name) => if store.contains_key(name) {
            Some(store[name])
        } else {
            Some(Seq::empty())
        },
        _ => None,
    }
}

/// The stream of a slot: what a redirection names where there is one, the
/// pipe where the stage stands next to one, else the shell's own stream.
pub open spec fn stream_of(redirection: Option<RedirectionView>, pipe: Option<usize>)
    -> StreamView {
    match redirection {
        Some(redirection) => StreamView::Redirect(redirection),
        None => match pipe {
            Some(n) => StreamView::Pipe(n),
            None => StreamView::Inherit,
        },
    }
}

/// The message for a prefix that names no program.
pub open spec fn no_program() -> Seq<char> {
    "a string that cannot be interpreted as a command may have been entered"@
}

/// The message for an assignment whose sides are not both words.
pub open spec fn no_assignment() -> Seq<char> {
    "only words can be assigned"@
}

/// The pipe before the stage of number `stage`, if there is one.
pub open spec fn pipe_before(stage: usize) -> Option<usize> {
    if stage > 0 {
        Some((stage - 1) as usize)
    } else {
        None
    }
}

/// The pipe behind the stage of number `stage`, if a stage follows it.
pub open spec fn pipe_behind(stage: usize, follows: bool) -> Option<usize> {
    if follows {
        Some(stage)
    } else {
        None
    }
}

/// The step that the node `command` gives as the stage of number `stage`
/// of a pipeline once its redirections are resolved, where `follows` says
/// whether a stage comes after it.
///
/// - A node that is no command, a command without a prefix and one whose
///   program has the empty name give no step.
/// - A prefix that is neither a word nor a reference fails.
/// - `abort`, `exit` and `cd` are the builtins.
/// - Any other program is launched with the arguments of its suffix, the
///   store's `PATH` and its streams.
pub open spec fn stage_step(
    command: Syntax,
    store: Store,
    home: Seq<char>,
    stage: usize,
    follows: bool,
) -> Option<StepView> {
    if !(command is Command) || command->prefix is None {
        None
    } else {
        let found = collected(
            match command->suffix {
                Some(items) => items,
                None => Seq::empty(),
            },
            store,
        );
        match program_of(*command->prefix->0, store) {
            None => Some(StepView::Fail { kind: ErrorKind::ExecutionFailed, message: no_program() }),
            Some(program) => if program.len() == 0 {
                None
            } else {
                match builtin_of(program) {
                    Some(Builtin::Abort) => Some(StepView::Abort),
                    Some(Builtin::Exit) => Some(exit_step(found.arguments)),
                    Some(Builtin::Cd) => Some(cd_step(found.arguments, home)),
                    None => Some(
                        StepView::Launch {
                            stage,
                            command: LaunchView {
                                program,
                                arguments: found.arguments,
                                path: if store.contains_key("PATH"@) {
                                    Some(store["PATH"@])
                                } else {
                                    None
                                },
                                stdin: stream_of(found.stdin, pipe_before(stage)),
                                stdout: stream_of(found.stdout, pipe_behind(stage, follows)),
                                stderr: stream_of(found.stderr, None),
                                background: found.background,
                            },
                        },
                    ),
                }
            },
        }
    }
}

/// The steps that resolve the given redirections for the stage of number
/// `stage`, one for each, in order.
pub open spec fn open_steps(opens: Seq<Opening>, stage: usize) -> Seq<StepView> {
    opens.map_values(
        |opening: Opening|
            StepView::Open { stage, slot: opening.slot, redirection: opening.redirection },
    )
}

/// Whether the node is a command whose prefix names a program: a word or
/// a reference that gives a name that is not empty.
pub open spec fn names_program(command: Syntax, store: Store) -> bool {
    &&& command is Command
    &&& command->prefix is Some
    &&& program_of(*command->prefix->0, store) is Some
    &&& program_of(*command->prefix->0, store)->0.len() > 0
}

/// The redirections of a command: those of its suffix, in the order
/// written, where the prefix names a program; none where it does not.
pub open spec fn stage_opens(command: Syntax, store: Store) -> Seq<Opening> {
    if names_program(command, store) {
        collected(
            match command->suffix {
                Some(items) => items,
                None => Seq::empty(),
            },
            store,
        ).opens
    } else {
        Seq::empty()
    }
}

/// The steps of the stage of number `stage`: first one step for each
/// redirection of the suffix, in the order written, then the step of the
/// builtin or the launch. A builtin has its redirections resolved like any
/// other program.
pub open spec fn stage_steps(
    command: Syntax,
    store: Store,
    home: Seq<char>,
    stage: usize,
    follows: bool,
) -> Seq<StepView> {
    open_steps(stage_opens(command, store), stage) + match stage_step(
        command,
        store,
        home,
        stage,
        follows,
    ) {
        Some(step) => seq![step],
        None => Seq::empty(),
    }
}

/// Whether the step makes a process that the shell awaits: a launch in
/// the foreground.
pub open spec fn awaited(step: Option<StepView>) -> bool {
    step matches Some(StepView::Launch { command, .. }) && !command.background
}

/// The steps that start the stages from number `from` on: before each
/// stage that another one follows, its pipe is created; then come the
/// steps of the stage.
pub open spec fn start_steps(stages: Seq<Syntax>, store: Store, home: Seq<char>, from: int) -> Seq<
    StepView,
>
    decreases stages.len() - from,
{
    if from < 0 || from >= stages.len() || from >= usize::MAX {
        Seq::empty()
    } else {
        let follows = from + 1 < stages.len();
        let open = if follows {
            seq![StepView::OpenPipe(from as usize)]
        } else {
            Seq::empty()
        };
        let start = stage_steps(stages[from], store, home, from as usize, follows);
        open + start + start_steps(stages, store, home, from + 1)
    }
}

/// The steps that close the pipes from number `from` up to `count`.
pub open spec fn close_steps(from: int, count: int) -> Seq<StepView>
    decreases count - from,
{
    if from < 0 || from >= count || from >= usize::MAX {
        Seq::empty()
    } else {
        seq![StepView::ClosePipe(from as usize)] + close_steps(from + 1, count)
    }
}

/// The steps that await the stages from number `from` on: one for every
/// stage that was launched in the foreground.
pub open spec fn wait_steps(stages: Seq<Syntax>, store: Store, home: Seq<char>, from: int) -> Seq<
    StepView,
>
    decreases stages.len() - from,
{
    if from < 0 || from >= stages.len() || from >= usize::MAX {
        Seq::empty()
    } else {
        let step = stage_step(stages[from], store, home, from as usize, from + 1 < stages.len());
        let wait = if awaited(step) {
            seq![StepView::Wait(from as usize)]
        } else {
            Seq::empty()
        };
        wait + wait_steps(stages, store, home, from + 1)
    }
}

/// The steps of a pipeline: every stage is started, with a pipe between
/// each stage and the next; then the shell closes its own ends of every
/// pipe; then it awaits every stage that it launched in the foreground.
pub open spec fn pipeline_steps(stages: Seq<Syntax>, store: Store, home: Seq<char>) -> Seq<
    StepView,
> {
    start_steps(stages, store, home, 0) + close_steps(0, stages.len() - 1) + wait_steps(
        stages,
        store,
        home,
        0,
    )
}

/// The text of a side of an assignment, where the side is a word.
pub open spec fn side_of(side: Option<Box<Syntax>>) -> Option<Seq<char>> {
    match side {
        Some(node) => match *node {
            Syntax::String(text) => Some(text),
            _ => None,
        },
        None => None,
    }
}

/// The steps of a statement: those of a pipeline for a pipeline and for a
/// command, which is a pipeline of one stage; none for anything else, but
/// for an assignment with a side that is no word, which fails. The left
/// side is looked at first, and an assignment that lacks a side gives no
/// step once that side is looked for.
pub open spec fn plan_of(statement: Syntax, store: Store, home: Seq<char>) -> Seq<StepView> {
    match statement {
        Syntax::Command { .. } => pipeline_steps(seq![statement], store, home),
        Syntax::Pipe { stages, .. } => pipeline_steps(stages, store, home),
        Syntax::Insert { key, val } => if key is Some && (side_of(key) is None || (val is Some
            && side_of(val) is None)) {
            seq![StepView::Fail { kind: ErrorKind::ExecutionFailed, message: no_assignment() }]
        } else {
            Seq::empty()
        },
        _ => Seq::empty(),
    }
}

/// The store after a statement: an assignment of a word to a word gives
/// the name its value; any other statement leaves the store as it is.
pub open spec fn store_after(statement: Syntax, store: Store) -> Store {
    if statement is Insert && side_of(statement->key) is Some && side_of(statement->val) is Some {
        store.insert(side_of(statement->key)->0, side_of(statement->val)->0)
    } else {
        store
    }
}

/// What the suffix of a command has given so far, as the evaluator holds
/// it.
struct Found {
    arguments: Vec<String>,
    opens: Vec<(Slot, Redirection)>,
    stdin: Option<Redirection>,
    stdout: Option<Redirection>,
    stderr: Option<Redirection>,
    background: bool,
}

/// An optional redirection as a mathematical value.
pub open spec fn redirection_view(redirection: Option<Redirection>) -> Option<RedirectionView> {
    match redirection {
        Some(redirection) => Some(redirection@),
        None => None,
    }
}

/// The redirections of `opens` as mathematical values.
pub open spec fn openings(opens: Seq<(Slot, Redirection)>) -> Seq<Opening> {
    opens.map_values(|o: (Slot, Redirection)| Opening { slot: o.0, redirection: o.1@ })
}

impl Redirection {
    /// A copy of this redirection.
    pub fn copy(&self) -> (copy: Redirection)
        ensures
            copy@ == self@,
    {
        Redirection {
            descriptor: self.descriptor,
            target: match &self.target {
                Target::File(path) => Target::File(path.clone()),
                Target::Descriptor(n) => Target::Descriptor(*n),
            },
            duplicate: self.duplicate,
        }
    }
}

impl Found {
    /// What an empty suffix gives.
    fn new() -> (found: Self)
        ensures
            found@ == nothing_collected(),
    {
        let found = Found {
            arguments: Vec::new(),
            opens: Vec::new(),
            stdin: None,
            stdout: None,
            stderr: None,
            background: false,
        };
        assert(texts(found.arguments@) =~= Seq::<Seq<char>>::empty());
        assert(openings(found.opens@) =~= Seq::<Opening>::empty());
        found
    }
}

impl View for Found {
    type V = Collected;

    closed spec fn view(&self) -> Collected {
        Collected {
            arguments: texts(self.arguments@),
            opens: openings(self.opens@),
            stdin: redirection_view(self.stdin),
            stdout: redirection_view(self.stdout),
            stderr: redirection_view(self.stderr),
            background: self.background,
        }
    }
}

/// Reads a redirection node: its direction and what it asks for.
fn read_redirect(redirect: Redirect) -> (found: (RedirectKind, Option<Redirection>))
    ensures
        redirect@ is Redirect,
        found.0 == redirect@->kind,
        redirection_view(found.1) == redirection_of(redirect@),
{
    let mut redirect = redirect;
    let kind = *redirect.kind();
    let left = redirect.take_left();
    let right = redirect.take_right();
    proof {
        if left is Some {
            left->0.lemma_syntax_kind();
        }
        if right is Some {
            right->0.lemma_syntax_kind();
        }
    }
    let descriptor = match left {
        Some(node) => match *node {
            Node::FD(fd) => fd,
            _ => return (kind, None),
        },
        None => return (kind, None),
    };
    let target = match right {
        Some(node) => match *node {
            Node::String(path) => Target::File(path),
            Node::FD(fd) => Target::Descriptor(fd),
            _ => return (kind, None),
        },
        None => return (kind, None),
    };
    (kind, Some(Redirection { descriptor, target, duplicate: descriptor > 2 }))
}

/// Takes one more item of a suffix into what has been found.
fn absorb_item(found: &mut Found, item: Node, store: &Variable)
    ensures
        final(found)@ == absorb(old(found)@, item@, store@),
{
    proof {
        item.lemma_syntax_kind();
    }
    match item {
        Node::String(text) => {
            found.arguments.push(text);
            assert(texts(found.arguments@) =~= texts(old(found).arguments@).push(text@));
        },
        Node::Reference(name) => {
            match store.get(name) {
                Some(value) => {
                    let value = value.to_owned();
                    found.arguments.push(value);
                    assert(texts(found.arguments@) =~= texts(old(found).arguments@).push(value@));
                },
                None => {},
            }
        },
        Node::Redirect(redirect) => {
            let (kind, redirection) = read_redirect(redirect);
            match redirection {
                Some(redirection) => {
                    let slot = match kind {
                        RedirectKind::Input => Slot::Stdin,
                        RedirectKind::Output => if redirection.descriptor == 2 {
                            Slot::Stderr
                        } else {
                            Slot::Stdout
                        },
                    };
                    found.opens.push((slot, redirection.copy()));
                    assert(openings(found.opens@) =~= openings(old(found).opens@).push(
                        Opening { slot, redirection: redirection@ },
                    ));
                    match slot {
                        Slot::Stdin => {
                            found.stdin = Some(redirection);
                        },
                        Slot::Stdout => {
                            found.stdout = Some(redirection);
                        },
                        Slot::Stderr => {
                            found.stderr = Some(redirection);
                        },
                    }
                },
                None => {},
            }
        },
        Node::Background(_) => {
            found.background = true;
        },
        _ => {},
    }
}

/// Takes the items of a suffix in, in order.
fn collect(suffix: CommandSuffix, store: &Variable) -> (found: Found)
    ensures
        found@ == collected(suffix@, store@),
{
    let mut suffix = suffix;
    let mut found = Found::new();
    let ghost items = suffix@;
    let ghost mut done: int = 0;
    assert(items.take(0) =~= Seq::<Syntax>::empty());
    loop
        invariant
            0 <= done <= items.len(),
            suffix@ == items.skip(done),
            found@ == collected(items.take(done), store@),
        ensures
            found@ == collected(items, store@),
        decreases items.len() - done,
    {
        match suffix.take() {
            Some(item) => {
                proof {
                    assert(items.take(done + 1).drop_last() =~= items.take(done));
                    assert(items.take(done + 1).last() == item@);
                    assert(items.skip(done).drop_first() =~= items.skip(done + 1));
                }
                absorb_item(&mut found, item, store);
                proof {
                    done = done + 1;
                }
            },
            None => {
                assert(items.take(done) =~= items);
                break ;
            },
        }
    }
    found
}

/// The stream of a slot.
fn stream(redirection: Option<Redirection>, pipe: Option<usize>) -> (stream: Stream)
    ensures
        stream@ == stream_of(redirection_view(redirection), pipe),
{
    match redirection {
        Some(redirection) => Stream::Redirect(redirection),
        None => match pipe {
            Some(n) => Stream::Pipe(n),
            None => Stream::Inherit,
        },
    }
}

/// The steps that resolve the given redirections for a stage.
fn open_all(opens: Vec<(Slot, Redirection)>, stage: usize) -> (steps: Vec<Step>)
    ensures
        step_views(steps@) == open_steps(openings(opens@), stage),
{
    let mut steps: Vec<Step> = Vec::new();
    let mut i: usize = 0;
    while i < opens.len()
        invariant
            i <= opens@.len(),
            steps@.len() == i,
            forall|j: int|
                0 <= j < i ==> (#[trigger] steps@[j])@ == (StepView::Open {
                    stage,
                    slot: opens@[j].0,
                    redirection: opens@[j].1@,
                }),
        decreases opens@.len() - i,
    {
        steps.push(Step::Open { stage, slot: opens[i].0, redirection: opens[i].1.copy() });
        i += 1;
    }
    assert(step_views(steps@) =~= open_steps(openings(opens@), stage));
    steps
}

/// Turns a command into what it gives as the stage of number `stage` of a
/// pipeline: the steps that resolve its redirections, and the step of the
/// builtin or the launch.
fn expand(command: Command, store: &Variable, home: &str, stage: usize, follows: bool) -> (steps:
    (Vec<Step>, Option<Step>))
    ensures
        step_views(steps.0@) == open_steps(stage_opens(command@, store@), stage),
        match stage_step(command@, store@, home@, stage, follows) {
            Some(expected) => steps.1 matches Some(found) && found@ == expected,
            None => steps.1 is None,
        },
{
    let mut command = command;
    let none: Vec<Step> = Vec::new();
    assert(step_views(none@) =~= Seq::<StepView>::empty());
    assert(open_steps(Seq::<Opening>::empty(), stage) =~= Seq::<StepView>::empty());
    let prefix = match command.take_prefix() {
        Some(prefix) => prefix,
        None => return (none, None),
    };
    let found = match command.take_suffix() {
        Some(suffix) => collect(suffix, store),
        None => Found::new(),
    };
    proof {
        prefix.lemma_syntax_kind();
    }
    let program = match prefix {
        Node::String(text) => text,
        Node::Reference(name) => match store.get(name) {
            Some(value) => value.to_owned(),
            None => String::new(),
        },
        _ => {
            return (
                none,
                Some(
                    Step::Fail {
                        kind: ErrorKind::ExecutionFailed,
                        message: "a string that cannot be interpreted as a command may have been entered".to_owned(),
                    },
                ),
            );
        },
    };
    if program.as_str().is_empty() {
        return (none, None);
    }
    let opens = open_all(found.opens, stage);
    let step = match lookup(program.as_str()) {
        Some(Builtin::Abort) => abort(),
        Some(Builtin::Exit) => exit(found.arguments),
        Some(Builtin::Cd) => cd(found.arguments, home),
        None => {
            let path = match store.get("PATH".to_owned()) {
                Some(value) => Some(value.to_owned()),
                None => None,
            };
            let before = if stage > 0 {
                Some(stage - 1)
            } else {
                None
            };
            let behind = if follows {
                Some(stage)
            } else {
                None
            };
            Step::Launch {
                stage,
                command: Launch {
                    program,
                    arguments: found.arguments,
                    path,
                    stdin: stream(found.stdin, before),
                    stdout: stream(found.stdout, behind),
                    stderr: stream(found.stderr, None),
                    background: found.background,
                },
            }
        },
    };
    (opens, Some(step))
}

/// Turns a command into the steps that it gives as the stage of number
/// `stage` of a pipeline, where `follows` says whether a stage comes after
/// it: one step for each redirection, then the step of the builtin, which
/// is decided here, or the launch of any other program.
pub fn run_command(command: Command, store: &Variable, home: &str, stage: usize, follows: bool)
    -> (steps: Vec<Step>)
    ensures
        step_views(steps@) == stage_steps(command@, store@, home@, stage, follows),
{
    let (mut steps, step) = expand(command, store, home, stage, follows);
    let ghost opens = step_views(steps@);
    match step {
        Some(step) => {
            steps.push(step);
            assert(step_views(steps@) =~= opens + seq![step@]);
        },
        None => {
            assert(step_views(steps@) =~= opens + Seq::<StepView>::empty());
        },
    }
    steps
}

/// Whether the step makes a process that the shell awaits.
fn is_awaited(step: &Option<Step>) -> (b: bool)
    ensures
        b == awaited(
            match step {
                Some(step) => Some(step@),
                None => None,
            },
        ),
{
    match step {
        Some(Step::Launch { command, .. }) => !command.background,
        _ => false,
    }
}

/// Turns the stages of a pipeline into steps.
fn run_pipeline(pipe: Pipe, store: &Variable, home: &str) -> (steps: Vec<Step>)
    ensures
        pipe@ is Pipe,
        step_views(steps@) == pipeline_steps(pipe@->stages, store@, home@),
{
    let mut pipe = pipe;
    let count = pipe.len();
    let ghost stages = pipe@->stages;
    let mut steps: Vec<Step> = Vec::new();
    let mut waits: Vec<Step> = Vec::new();
    let mut stage: usize = 0;
    assert(step_views(steps@) =~= Seq::<StepView>::empty());
    assert(step_views(waits@) =~= Seq::<StepView>::empty());
    while stage < count
        invariant
            stage <= count == stages.len(),
            pipe@ is Pipe,
            pipe@->stages == stages.skip(stage as int),
            stage > 0 ==> pipe@->started,
            step_views(steps@) + start_steps(stages, store@, home@, stage as int) == start_steps(
                stages,
                store@,
                home@,
                0,
            ),
            step_views(waits@) + wait_steps(stages, store@, home@, stage as int) == wait_steps(
                stages,
                store@,
                home@,
                0,
            ),
        ensures
            stage == count,
        decreases count - stage,
    {
        let ghost started = step_views(steps@);
        let ghost awaiting = step_views(waits@);
        let node = match pipe.take() {
            Some(node) => node,
            None => {
                assert(false);
                break ;
            },
        };
        let follows = pipe.is_pipe();
        assert(follows == (stage + 1 < stages.len()));
        assert(node@ == stages[stage as int]);
        if follows {
            steps.push(Step::OpenPipe(stage));
        }
        proof {
            node.lemma_syntax_kind();
        }
        let ghost piped = step_views(steps@);
        let (mut opens, step) = match node {
            Node::Command(command) => expand(command, store, home, stage, follows),
            _ => {
                let none: Vec<Step> = Vec::new();
                assert(step_views(none@) =~= Seq::<StepView>::empty());
                assert(open_steps(Seq::<Opening>::empty(), stage) =~= Seq::<StepView>::empty());
                (none, None)
            },
        };
        let ghost expected = stage_step(stages[stage as int], store@, home@, stage, follows);
        let ghost resolved = step_views(opens@);
        assert(resolved == open_steps(stage_opens(stages[stage as int], store@), stage));
        assert(match expected {
            Some(view) => step matches Some(found) && found@ == view,
            None => step is None,
        });
        if is_awaited(&step) {
            waits.push(Step::Wait(stage));
        }
        steps.append(&mut opens);
        assert(step_views(steps@) =~= piped + resolved);
        match step {
            Some(step) => {
                steps.push(step);
            },
            None => {},
        }
        proof {
            let open = if follows {
                seq![StepView::OpenPipe(stage)]
            } else {
                Seq::empty()
            };
            let start = stage_steps(stages[stage as int], store@, home@, stage, follows);
            let wait = if awaited(expected) {
                seq![StepView::Wait(stage)]
            } else {
                Seq::empty()
            };
            assert(step_views(steps@) =~= started + open + start);
            assert(step_views(waits@) =~= awaiting + wait);
            assert(stages.skip(stage as int).drop_first() =~= stages.skip(stage + 1));
            let rest = start_steps(stages, store@, home@, stage + 1);
            assert(started + (open + start + rest) =~= (started + open + start) + rest);
            let later = wait_steps(stages, store@, home@, stage + 1);
            assert(awaiting + (wait + later) =~= (awaiting + wait) + later);
        }
        stage += 1;
    }
    assert(stage == count);
    assert(step_views(steps@) + Seq::<StepView>::empty() =~= step_views(steps@));
    assert(step_views(waits@) + Seq::<StepView>::empty() =~= step_views(waits@));
    let ghost started = step_views(steps@);
    let mut number: usize = 0;
    let pipes: usize = if count > 0 {
        count - 1
    } else {
        0
    };
    while number < pipes
        invariant
            number <= pipes,
            pipes == count - 1 || (pipes == 0 && count == 0),
            step_views(steps@) + close_steps(number as int, count - 1) == started + close_steps(
                0,
                count - 1,
            ),
        decreases pipes - number,
    {
        let ghost before = step_views(steps@);
        steps.push(Step::ClosePipe(number));
        proof {
            let rest = close_steps(number + 1, count - 1);
            assert(step_views(steps@) =~= before.push(StepView::ClosePipe(number)));
            assert(before + (seq![StepView::ClosePipe(number)] + rest) =~= before.push(
                StepView::ClosePipe(number),
            ) + rest);
        }
        number += 1;
    }
    assert(step_views(steps@) + Seq::<StepView>::empty() =~= step_views(steps@));
    let ghost closed = step_views(steps@);
    steps.append(&mut waits);
    assert(step_views(steps@) =~= closed + wait_steps(stages, store@, home@, 0));
    steps
}

/// Turns a statement into steps, and gives the store what an assignment
/// assigns.
pub fn run_statement(statement: Node, store: &mut Variable, home: &str) -> (steps: Vec<Step>)
    ensures
        step_views(steps@) == plan_of(statement@, old(store)@, home@),
        final(store)@ == store_after(statement@, old(store)@),
{
    proof {
        statement.lemma_syntax_kind();
    }
    match statement {
        Node::Pipe(pipe) => run_pipeline(pipe, store, home),
        Node::Command(command) => {
            let ghost stages = seq![statement@];
            let (mut steps, step) = expand(command, store, home, 0, false);
            let awaits = is_awaited(&step);
            let ghost expected = stage_step(statement@, store@, home@, 0, false);
            let ghost resolved = step_views(steps@);
            match step {
                Some(step) => {
                    steps.push(step);
                },
                None => {},
            }
            let ghost start = stage_steps(statement@, store@, home@, 0, false);
            assert(step_views(steps@) =~= start);
            if awaits {
                steps.push(Step::Wait(0));
            }
            proof {
                let wait = if awaited(expected) {
                    seq![StepView::Wait(0)]
                } else {
                    Seq::empty()
                };
                assert(start_steps(stages, store@, home@, 1) =~= Seq::<StepView>::empty());
                assert(wait_steps(stages, store@, home@, 1) =~= Seq::<StepView>::empty());
                assert(start_steps(stages, store@, home@, 0) =~= start);
                assert(wait_steps(stages, store@, home@, 0) =~= wait);
                assert(close_steps(0, 0) =~= Seq::<StepView>::empty());
                assert(step_views(steps@) =~= start + wait);
                assert(pipeline_steps(stages, store@, home@) =~= start + wait);
            }
            steps
        },
        Node::Insert(insert) => {
            let mut insert = insert;
            let mut steps: Vec<Step> = Vec::new();
            let key = insert.take_key();
            let val = insert.take_val();
            proof {
                if key is Some {
                    key->0.lemma_syntax_kind();
                }
                if val is Some {
                    val->0.lemma_syntax_kind();
                }
            }
            let failure = Step::Fail {
                kind: ErrorKind::ExecutionFailed,
                message: "only words can be assigned".to_owned(),
            };
            match key {
                None => {},
                Some(Node::String(name)) => match val {
                    None => {},
                    Some(Node::String(value)) => {
                        store.insert(name, value);
                    },
                    Some(_) => {
                        steps.push(failure);
                    },
                },
                Some(_) => {
                    steps.push(failure);
                },
            }
            assert(step_views(steps@) =~= plan_of(statement@, old(store)@, home@));
            steps
        },
        _ => {
            let steps: Vec<Step> = Vec::new();
            assert(step_views(steps@) =~= Seq::<StepView>::empty());
            steps
        },
    }
}

/// A reference to a name that the store does not hold gives no argument
/// at all, and nothing else either: the suffix with the reference at its
/// end gives what the suffix without it gives.
pub proof fn lemma_unset_reference_gives_nothing(items: Seq<Syntax>, name: Seq<char>, store: Store)
    requires
        !store.contains_key(name),
    ensures
        collected(items.push(Syntax::Reference(name)), store) == collected(items, store),
{
    assert(items.push(Syntax::Reference(name)).drop_last() =~= items);
}

/// A reference to a name that the store holds gives the value as one
/// more argument, whatever the value is.
pub proof fn lemma_set_reference_gives_its_value(items: Seq<Syntax>, name: Seq<char>, store: Store)
    requires
        store.contains_key(name),
    ensures
        collected(items.push(Syntax::Reference(name)), store).arguments == collected(
            items,
            store,
        ).arguments.push(store[name]),
{
    assert(items.push(Syntax::Reference(name)).drop_last() =~= items);
}

/// The order of the arguments is the order of the suffix: what two runs of
/// items give as arguments, one run after the other, is what the first
/// gives and then what the second gives.
pub proof fn lemma_arguments_keep_order(first: Seq<Syntax>, second: Seq<Syntax>, store: Store)
    ensures
        collected(first + second, store).arguments == collected(first, store).arguments
            + collected(second, store).arguments,
    decreases second.len(),
{
    if second.len() == 0 {
        assert(first + second =~= first);
        assert(collected(first, store).arguments + Seq::<Seq<char>>::empty() =~= collected(
            first,
            store,
        ).arguments);
    } else {
        let all = first + second;
        assert(all.drop_last() =~= first + second.drop_last());
        assert(all.last() == second.last());
        lemma_arguments_keep_order(first, second.drop_last(), store);
        let a = collected(first, store).arguments;
        let b = collected(second.drop_last(), store).arguments;
        let item = second.last();
        match item {
            Syntax::String(text) => {
                assert((a + b).push(text) =~= a + b.push(text));
            },
            Syntax::Reference(name) => {
                if store.contains_key(name) {
                    assert((a + b).push(store[name]) =~= a + b.push(store[name]));
                }
            },
            _ => {},
        }
    }
}

/// The streams of a launched stage. Without a redirection, standard input
/// is the read end of the pipe before the stage, standard output the write
/// end of the pipe behind it, and the first stage's input, the last stage's
/// output and every stage's standard error are the shell's own.
pub proof fn lemma_stage_streams(
    command: Syntax,
    store: Store,
    home: Seq<char>,
    stage: usize,
    follows: bool,
)
    ensures
        stage_step(command, store, home, stage, follows) matches Some(
            StepView::Launch { stage: number, command: launch },
        ) ==> {
            &&& number == stage
            &&& launch.stdin is Redirect || launch.stdin == if stage > 0 {
                StreamView::Pipe((stage - 1) as usize)
            } else {
                StreamView::Inherit
            }
            &&& launch.stdout is Redirect || launch.stdout == if follows {
                StreamView::Pipe(stage)
            } else {
                StreamView::Inherit
            }
            &&& launch.stderr is Redirect || launch.stderr is Inherit
        },
{
}

/// The step of a stage is never one of the steps that frame a pipeline: it
/// creates no pipe, closes none and awaits nothing.
pub proof fn lemma_stage_step_kind(
    command: Syntax,
    store: Store,
    home: Seq<char>,
    stage: usize,
    follows: bool,
)
    ensures
        stage_step(command, store, home, stage, follows) matches Some(step) ==> !(step
            is OpenPipe) && !(step is Open) && !(step is ClosePipe) && !(step is Wait),
{
}

/// The steps of a stage are one step for each of its redirections, in the
/// order written and under the stage's number, and behind them the step of
/// the builtin or the launch, which is there wherever a redirection is.
pub proof fn lemma_stage_steps(
    command: Syntax,
    store: Store,
    home: Seq<char>,
    stage: usize,
    follows: bool,
)
    ensures
        ({
            let all = stage_steps(command, store, home, stage, follows);
            let opens = stage_opens(command, store);
            let step = stage_step(command, store, home, stage, follows);
            &&& all.len() == opens.len() + if step is Some {
                1int
            } else {
                0int
            }
            &&& forall|i: int|
                0 <= i < opens.len() ==> #[trigger] all[i] == (StepView::Open {
                    stage,
                    slot: opens[i].slot,
                    redirection: opens[i].redirection,
                })
            &&& opens.len() > 0 ==> step is Some
            &&& step is Some ==> all[opens.len() as int] == step->0
            &&& forall|i: int|
                0 <= i < all.len() ==> !(#[trigger] all[i] is OpenPipe) && !(all[i] is ClosePipe)
                    && !(all[i] is Wait)
        }),
{
    lemma_stage_step_kind(command, store, home, stage, follows);
}

/// The redirection that the item `item` of a suffix asks to resolve.
pub open spec fn opening_of(item: Syntax) -> Opening {
    Opening {
        slot: slot_of(item->kind, redirection_of(item)->0.descriptor),
        redirection: redirection_of(item)->0,
    }
}

/// Every redirection of a suffix is among those to resolve, wherever it
/// stands and whatever stands behind it.
pub proof fn lemma_redirection_is_collected(items: Seq<Syntax>, store: Store, at: int)
    requires
        0 <= at < items.len(),
        redirection_of(items[at]) is Some,
    ensures
        exists|i: int|
            0 <= i < collected(items, store).opens.len() && collected(items, store).opens[i]
                == opening_of(items[at]),
    decreases items.len(),
{
    let before = collected(items.drop_last(), store).opens;
    let all = collected(items, store).opens;
    if at < items.len() - 1 {
        lemma_redirection_is_collected(items.drop_last(), store, at);
        let i = choose|i: int| 0 <= i < before.len() && before[i] == opening_of(items[at]);
        assert(all.len() >= before.len() && all[i] == before[i]);
    } else {
        assert(all == before.push(opening_of(items[at])));
        assert(all[before.len() as int] == opening_of(items[at]));
    }
}

/// Every redirection of a command is resolved, whatever the program: where
/// the prefix names a program, a builtin or not, the steps of the stage
/// hold one that resolves the redirection.
pub proof fn lemma_every_redirection_is_resolved(
    command: Syntax,
    store: Store,
    home: Seq<char>,
    stage: usize,
    follows: bool,
    at: int,
)
    requires
        names_program(command, store),
        command->suffix is Some,
        0 <= at < command->suffix->0.len(),
        redirection_of(command->suffix->0[at]) is Some,
    ensures
        holds(
            stage_steps(command, store, home, stage, follows),
            StepView::Open {
                stage,
                slot: opening_of(command->suffix->0[at]).slot,
                redirection: opening_of(command->suffix->0[at]).redirection,
            },
        ),
{
    let items = command->suffix->0;
    let opens = stage_opens(command, store);
    lemma_redirection_is_collected(items, store, at);
    lemma_stage_steps(command, store, home, stage, follows);
    let i = choose|i: int| 0 <= i < opens.len() && opens[i] == opening_of(items[at]);
    let all = stage_steps(command, store, home, stage, follows);
    assert(all[i] == (StepView::Open {
        stage,
        slot: opens[i].slot,
        redirection: opens[i].redirection,
    }));
}

/// The redirections are resolved in the order of the suffix: what two
/// runs of items give to resolve, one run after the other, is what the
/// first gives and then what the second gives. None is left out, and a
/// later redirection of a stream does not take the place of an earlier one.
pub proof fn lemma_opens_keep_order(first: Seq<Syntax>, second: Seq<Syntax>, store: Store)
    ensures
        collected(first + second, store).opens == collected(first, store).opens + collected(
            second,
            store,
        ).opens,
    decreases second.len(),
{
    if second.len() == 0 {
        assert(first + second =~= first);
        assert(collected(first, store).opens + Seq::<Opening>::empty() =~= collected(
            first,
            store,
        ).opens);
    } else {
        let all = first + second;
        assert(all.drop_last() =~= first + second.drop_last());
        assert(all.last() == second.last());
        lemma_opens_keep_order(first, second.drop_last(), store);
        let a = collected(first, store).opens;
        let b = collected(second.drop_last(), store).opens;
        match redirection_of(second.last()) {
            Some(redirection) => {
                if second.last() is Redirect {
                    let opening = Opening {
                        slot: slot_of(second.last()->kind, redirection.descriptor),
                        redirection,
                    };
                    assert((a + b).push(opening) =~= a + b.push(opening));
                }
            },
            None => {},
        }
    }
}

/// Among the steps that start the stages there is none that closes a pipe
/// and none that awaits a process.
pub proof fn lemma_start_steps(stages: Seq<Syntax>, store: Store, home: Seq<char>, from: int)
    ensures
        forall|i: int|
            0 <= i < start_steps(stages, store, home, from).len() ==> {
                let step = #[trigger] start_steps(stages, store, home, from)[i];
                !(step is ClosePipe) && !(step is Wait)
            },
    decreases stages.len() - from,
{
    if from < 0 || from >= stages.len() || from >= usize::MAX {
    } else {
        lemma_start_steps(stages, store, home, from + 1);
        lemma_stage_steps(stages[from], store, home, from as usize, from + 1 < stages.len());
    }
}

/// The steps that close the pipes do nothing else.
pub proof fn lemma_close_steps(from: int, count: int)
    ensures
        forall|i: int|
            0 <= i < close_steps(from, count).len() ==> (#[trigger] close_steps(from, count)[i])
                is ClosePipe,
    decreases count - from,
{
    if from < 0 || from >= count || from >= usize::MAX {
    } else {
        lemma_close_steps(from + 1, count);
    }
}

/// The steps that await the stages do nothing else.
pub proof fn lemma_wait_steps(stages: Seq<Syntax>, store: Store, home: Seq<char>, from: int)
    ensures
        forall|i: int|
            0 <= i < wait_steps(stages, store, home, from).len() ==> (#[trigger] wait_steps(
                stages,
                store,
                home,
                from,
            )[i]) is Wait,
    decreases stages.len() - from,
{
    if from < 0 || from >= stages.len() || from >= usize::MAX {
    } else {
        lemma_wait_steps(stages, store, home, from + 1);
    }
}

/// The steps of a pipeline are three runs, one after the other: the steps
/// that start the stages come first, those that close the pipes second and
/// those that await the stages last, and each step does what its run does.
pub proof fn lemma_pipeline_parts(stages: Seq<Syntax>, store: Store, home: Seq<char>)
    ensures
        ({
            let start = start_steps(stages, store, home, 0);
            let close = close_steps(0, stages.len() - 1);
            let wait = wait_steps(stages, store, home, 0);
            let steps = pipeline_steps(stages, store, home);
            &&& steps.len() == start.len() + close.len() + wait.len()
            &&& forall|i: int|
                0 <= i < steps.len() ==> #[trigger] steps[i] == if i < start.len() {
                    start[i]
                } else if i < start.len() + close.len() {
                    close[i - start.len()]
                } else {
                    wait[i - start.len() - close.len()]
                }
            &&& forall|i: int|
                0 <= i < start.len() ==> !(#[trigger] steps[i] is ClosePipe) && !(steps[i] is Wait)
            &&& forall|i: int|
                start.len() <= i < start.len() + close.len() ==> #[trigger] steps[i] is ClosePipe
            &&& forall|i: int|
                start.len() + close.len() <= i < steps.len() ==> #[trigger] steps[i] is Wait
        }),
{
    lemma_start_steps(stages, store, home, 0);
    lemma_close_steps(0, stages.len() - 1);
    lemma_wait_steps(stages, store, home, 0);
}

/// The order of a pipeline's steps: every stage is started before any pipe
/// is closed, and every pipe is closed before any process is awaited. So
/// behind a step that closes a pipe nothing is created or launched any
/// more, and behind a step that awaits a process come only steps that
/// await.
pub proof fn lemma_pipeline_order(
    stages: Seq<Syntax>,
    store: Store,
    home: Seq<char>,
    first: int,
    second: int,
)
    requires
        0 <= first < second < pipeline_steps(stages, store, home).len(),
    ensures
        pipeline_steps(stages, store, home)[first] is ClosePipe ==> {
            let later = pipeline_steps(stages, store, home)[second];
            later is ClosePipe || later is Wait
        },
        pipeline_steps(stages, store, home)[first] is Wait ==> pipeline_steps(
            stages,
            store,
            home,
        )[second] is Wait,
{
    lemma_pipeline_parts(stages, store, home);
}

/// Whether the steps hold the given step.
pub open spec fn holds(steps: Seq<StepView>, step: StepView) -> bool {
    exists|i: int| 0 <= i < steps.len() && steps[i] == step
}

/// The steps that start the stages from `from` on create the pipe of
/// number `pipe` exactly where `pipe` is the number of one of those stages
/// and a stage follows it.
pub proof fn lemma_pipes_created(
    stages: Seq<Syntax>,
    store: Store,
    home: Seq<char>,
    from: int,
    pipe: usize,
)
    requires
        0 <= from,
        stages.len() < usize::MAX,
    ensures
        holds(start_steps(stages, store, home, from), StepView::OpenPipe(pipe)) <==> from <= pipe
            && pipe + 1 < stages.len(),
    decreases stages.len() - from,
{
    let steps = start_steps(stages, store, home, from);
    if from >= stages.len() {
    } else {
        let follows = from + 1 < stages.len();
        let open = if follows {
            seq![StepView::OpenPipe(from as usize)]
        } else {
            Seq::empty()
        };
        let start = stage_steps(stages[from], store, home, from as usize, follows);
        let rest = start_steps(stages, store, home, from + 1);
        lemma_pipes_created(stages, store, home, from + 1, pipe);
        lemma_stage_steps(stages[from], store, home, from as usize, follows);
        assert(steps == open + start + rest);
        if from <= pipe && pipe + 1 < stages.len() {
            if pipe == from {
                assert(steps[0] == StepView::OpenPipe(pipe));
            } else {
                let i = choose|i: int| 0 <= i < rest.len() && rest[i] == StepView::OpenPipe(pipe);
                assert(steps[open.len() + start.len() + i] == StepView::OpenPipe(pipe));
            }
        }
        if holds(steps, StepView::OpenPipe(pipe)) {
            let i = choose|i: int| 0 <= i < steps.len() && steps[i] == StepView::OpenPipe(pipe);
            if i < open.len() {
            } else if i < open.len() + start.len() {
                assert(steps[i] == start[i - open.len()]);
            } else {
                assert(rest[i - open.len() - start.len()] == StepView::OpenPipe(pipe));
            }
        }
    }
}

/// The steps that close the pipes from `from` up to `count` close the
/// pipe of number `pipe` exactly where `pipe` is one of them.
pub proof fn lemma_pipes_closed(from: int, count: int, pipe: usize)
    requires
        0 <= from,
        count < usize::MAX,
    ensures
        holds(close_steps(from, count), StepView::ClosePipe(pipe)) <==> from <= pipe < count,
    decreases count - from,
{
    let steps = close_steps(from, count);
    if from >= count {
    } else {
        let rest = close_steps(from + 1, count);
        lemma_pipes_closed(from + 1, count, pipe);
        if from <= pipe < count {
            if pipe == from {
                assert(steps[0] == StepView::ClosePipe(pipe));
            } else {
                let i = choose|i: int| 0 <= i < rest.len() && rest[i] == StepView::ClosePipe(pipe);
                assert(steps[1 + i] == StepView::ClosePipe(pipe));
            }
        }
        if holds(steps, StepView::ClosePipe(pipe)) {
            let i = choose|i: int| 0 <= i < steps.len() && steps[i] == StepView::ClosePipe(pipe);
            if i >= 1 {
                assert(rest[i - 1] == StepView::ClosePipe(pipe));
            }
        }
    }
}

/// The steps that await the stages from `from` on await the stage of
/// number `stage` exactly where it is one of those stages and is launched
/// in the foreground.
pub proof fn lemma_stages_awaited(
    stages: Seq<Syntax>,
    store: Store,
    home: Seq<char>,
    from: int,
    stage: usize,
)
    requires
        0 <= from,
        stages.len() < usize::MAX,
    ensures
        holds(wait_steps(stages, store, home, from), StepView::Wait(stage)) <==> from <= stage
            < stages.len() && awaited(
            stage_step(stages[stage as int], store, home, stage, stage + 1 < stages.len()),
        ),
    decreases stages.len() - from,
{
    let steps = wait_steps(stages, store, home, from);
    if from >= stages.len() {
    } else {
        let step = stage_step(stages[from], store, home, from as usize, from + 1 < stages.len());
        let wait = if awaited(step) {
            seq![StepView::Wait(from as usize)]
        } else {
            Seq::empty()
        };
        let rest = wait_steps(stages, store, home, from + 1);
        lemma_stages_awaited(stages, store, home, from + 1, stage);
        assert(steps == wait + rest);
        if from <= stage < stages.len() && awaited(
            stage_step(stages[stage as int], store, home, stage, stage + 1 < stages.len()),
        ) {
            if stage == from {
                assert(steps[0] == StepView::Wait(stage));
            } else {
                let i = choose|i: int| 0 <= i < rest.len() && rest[i] == StepView::Wait(stage);
                assert(steps[wait.len() + i] == StepView::Wait(stage));
            }
        }
        if holds(steps, StepView::Wait(stage)) {
            let i = choose|i: int| 0 <= i < steps.len() && steps[i] == StepView::Wait(stage);
            if i >= wait.len() {
                assert(rest[i - wait.len()] == StepView::Wait(stage));
            }
        }
    }
}

/// What a pipeline frames its stages with. The shell creates a pipe
/// between each stage and the next and no other, closes its own ends of
/// exactly the pipes that it creates, and awaits exactly the stages that it
/// launches in the foreground: a stage in the background is never awaited.
pub proof fn lemma_pipeline_frame(stages: Seq<Syntax>, store: Store, home: Seq<char>, number: usize)
    requires
        stages.len() < usize::MAX,
    ensures
        holds(pipeline_steps(stages, store, home), StepView::OpenPipe(number)) <==> number + 1
            < stages.len(),
        holds(pipeline_steps(stages, store, home), StepView::ClosePipe(number)) <==> number + 1
            < stages.len(),
        holds(pipeline_steps(stages, store, home), StepView::Wait(number)) <==> number
            < stages.len() && awaited(
            stage_step(stages[number as int], store, home, number, number + 1 < stages.len()),
        ),
{
    lemma_pipeline_parts(stages, store, home);
    lemma_pipes_created(stages, store, home, 0, number);
    lemma_pipes_closed(0, stages.len() - 1, number);
    lemma_stages_awaited(stages, store, home, 0, number);
    let start = start_steps(stages, store, home, 0);
    let close = close_steps(0, stages.len() - 1);
    let wait = wait_steps(stages, store, home, 0);
    lemma_holds_in_parts(start, close, wait, StepView::OpenPipe(number));
    lemma_holds_in_parts(start, close, wait, StepView::ClosePipe(number));
    lemma_holds_in_parts(start, close, wait, StepView::Wait(number));
}

/// Three runs of steps together hold a step exactly where one of them
/// holds it.
pub proof fn lemma_holds_in_parts(
    a: Seq<StepView>,
    b: Seq<StepView>,
    c: Seq<StepView>,
    step: StepView,
)
    ensures
        holds(a + b + c, step) <==> holds(a, step) || holds(b, step) || holds(c, step),
{
    let all = a + b + c;
    if holds(a, step) {
        let i = choose|i: int| 0 <= i < a.len() && a[i] == step;
        assert(all[i] == step);
    }
    if holds(b, step) {
        let i = choose|i: int| 0 <= i < b.len() && b[i] == step;
        assert(all[a.len() + i] == step);
    }
    if holds(c, step) {
        let i = choose|i: int| 0 <= i < c.len() && c[i] == step;
        assert(all[a.len() + b.len() + i] == step);
    }
    if holds(all, step) {
        let i = choose|i: int| 0 <= i < all.len() && all[i] == step;
        if i < a.len() {
            assert(a[i] == step);
        } else if i < a.len() + b.len() {
            assert(b[i - a.len()] == step);
        } else {
            assert(c[i - a.len() - b.len()] == step);
        }
    }
}

/// The background marker anywhere in a suffix sets the command apart.
pub proof fn lemma_background_marks(items: Seq<Syntax>, store: Store, at: int)
    requires
        0 <= at < items.len(),
        items[at] is Background,
    ensures
        collected(items, store).background,
    decreases items.len(),
{
    if at < items.len() - 1 {
        lemma_background_marks(items.drop_last(), store, at);
    }
}

/// A command in the background is never awaited: where the suffix of a
/// command holds the background marker, no step of the command awaits a
/// process, so that the caller has control back once the program is
/// launched.
pub proof fn lemma_background_is_not_awaited(
    command: Syntax,
    store: Store,
    home: Seq<char>,
    at: int,
    stage: usize,
)
    requires
        command is Command,
        command->suffix is Some,
        0 <= at < command->suffix->0.len(),
        command->suffix->0[at] is Background,
    ensures
        !holds(plan_of(command, store, home), StepView::Wait(stage)),
{
    lemma_background_marks(command->suffix->0, store, at);
    lemma_pipeline_frame(seq![command], store, home, stage);
}

/// An assignment of a word to a word gives the name its value: after the
/// statement the store holds the value under the name, whatever it held
/// before, and every other name is as it was.
pub proof fn lemma_assignment_is_stored(
    name: Seq<char>,
    value: Seq<char>,
    store: Store,
    home: Seq<char>,
)
    ensures
        ({
            let statement = Syntax::Insert {
                key: Some(Box::new(Syntax::String(name))),
                val: Some(Box::new(Syntax::String(value))),
            };
            &&& store_after(statement, store) == store.insert(name, value)
            &&& store_after(statement, store).contains_key(name)
            &&& store_after(statement, store)[name] == value
            &&& plan_of(statement, store, home) == Seq::<StepView>::empty()
        }),
{
}

} // verus!
