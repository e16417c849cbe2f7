//! From the syntax tree to what the caller does.
//!
//! The evaluator decides and the caller acts. Each call of
//! [`Evaluator::eval`] takes how the step handed out last went, and hands
//! out what to do next: a step to perform, an error to report, or nothing
//! more. The evaluator never touches the operating system itself.

pub mod plan;

use self::plan::{
    close_steps, lemma_stage_steps, plan_of, run_statement, stage_opens, stage_steps, start_steps,
    step_views, store_after, wait_steps, Step, StepView, Store,
};
use crate::error::{Error, ErrorKind};
use crate::parser::node::{Node, Syntax, Tree};
use crate::variable::Variable;
use vstd::prelude::*;

verus! {

/// How the step that was handed out last went.
#[derive(Debug, Clone, PartialEq, Eq)]
pub enum Outcome {
    /// It was done. This is also what the first call is given.
    Done,
    /// The program to launch was not found.
    NotFound,
    /// The target of a redirection could not be opened, for this reason.
    OpenFailed(String),
    /// The operating system refused, for this reason.
    Failed(String),
}

/// What the caller does next.
#[derive(Debug, Clone, PartialEq, Eq)]
pub enum Action {
    /// Nothing: every statement has been evaluated.
    Finished,
    /// Report the error, then call again.
    Report(Error),
    /// Perform the step, then call again with its outcome.
    Perform(Step),
}

/// The step whose outcome is due.
enum Awaiting {
    /// None.
    Nothing,
    /// The resolving of a redirection of the stage of this number.
    Open { stage: usize },
    /// The launch of this program as the stage of this number.
    Launch { stage: usize, program: String },
    /// A step that launches nothing.
    Other,
}

/// An outcome as a mathematical value.
pub enum OutcomeView {
    Done,
    NotFound,
    OpenFailed(Seq<char>),
    Failed(Seq<char>),
}

/// An action as a mathematical value.
pub enum ActionView {
    Finished,
    Report { kind: ErrorKind, message: Seq<char> },
    Perform(StepView),
}

/// The step whose outcome is due, as a mathematical value.
pub enum AwaitingView {
    Nothing,
    Open { stage: usize },
    Launch { stage: usize, program: Seq<char> },
    Other,
}

impl View for Outcome {
    type V = OutcomeView;

    open spec fn view(&self) -> OutcomeView {
        match self {
            Outcome::Done => OutcomeView::Done,
            Outcome::NotFound => OutcomeView::NotFound,
            Outcome::OpenFailed(reason) => OutcomeView::OpenFailed(reason@),
            Outcome::Failed(reason) => OutcomeView::Failed(reason@),
        }
    }
}

impl View for Action {
    type V = ActionView;

    open spec fn view(&self) -> ActionView {
        match self {
            Action::Finished => ActionView::Finished,
            Action::Report(error) => ActionView::Report {
                kind: error.spec_kind(),
                message: error.spec_message(),
            },
            Action::Perform(step) => ActionView::Perform(step@),
        }
    }
}

impl View for Awaiting {
    type V = AwaitingView;

    closed spec fn view(&self) -> AwaitingView {
        match self {
            Awaiting::Nothing => AwaitingView::Nothing,
            Awaiting::Open { stage } => AwaitingView::Open { stage: *stage },
            Awaiting::Launch { stage, program } => AwaitingView::Launch {
                stage: *stage,
                program: program@,
            },
            Awaiting::Other => AwaitingView::Other,
        }
    }
}

/// The state of an evaluator.
pub struct Machine {
    /// The statements that have not been started, in order.
    pub statements: Seq<Syntax>,
    /// The variable store.
    pub store: Store,
    /// The directory that `cd` without an argument changes to.
    pub home: Seq<char>,
    /// The steps of the current statement that have not been handed out.
    pub steps: Seq<StepView>,
    /// The stages of the current statement whose launch was done.
    pub launched: Seq<usize>,
    /// The step whose outcome is due.
    pub awaiting: AwaitingView,
}

/// The message for a program that was not found.
pub open spec fn not_found(program: Seq<char>) -> Seq<char> {
    "nsh command not found: "@ + program
}

/// The error that an outcome stands for, if it stands for one, where
/// `program` is the program that was to be launched.
pub open spec fn failure_of(outcome: OutcomeView, program: Seq<char>) -> Option<
    (ErrorKind, Seq<char>),
> {
    match outcome {
        OutcomeView::Done => None,
        OutcomeView::NotFound => Some((ErrorKind::NotFound, not_found(program))),
        OutcomeView::OpenFailed(reason) => Some((ErrorKind::OpenFailed, reason)),
        OutcomeView::Failed(reason) => Some((ErrorKind::ExecutionFailed, reason)),
    }
}

/// What is left of `steps` once the command of the stage of number `stage`
/// is given up: the steps that resolve more of its redirections go, and so
/// does the step behind them, which is the command's builtin or launch.
pub open spec fn after_command(steps: Seq<StepView>, stage: usize) -> Seq<StepView>
    decreases steps.len(),
{
    if steps.len() == 0 {
        steps
    } else if steps[0] is Open && steps[0]->Open_stage == stage {
        after_command(steps.drop_first(), stage)
    } else {
        steps.drop_first()
    }
}

/// The state once the outcome of the step that is due has come in, and the
/// error to report, if the outcome stands for one. With no step due the
/// outcome counts for nothing. A launch that was done is remembered. A
/// redirection that could not be resolved ends its command: the steps of
/// that command that are left are given up.
pub open spec fn settle(m: Machine, outcome: OutcomeView) -> (Machine, Option<
    (ErrorKind, Seq<char>),
>) {
    match m.awaiting {
        AwaitingView::Nothing => (m, None),
        AwaitingView::Open { stage } => (
            Machine {
                awaiting: AwaitingView::Nothing,
                steps: if outcome is Done {
                    m.steps
                } else {
                    after_command(m.steps, stage)
                },
                ..m
            },
            failure_of(outcome, Seq::empty()),
        ),
        AwaitingView::Launch { stage, program } => (
            Machine {
                awaiting: AwaitingView::Nothing,
                launched: if outcome is Done {
                    m.launched.push(stage)
                } else {
                    m.launched
                },
                ..m
            },
            failure_of(outcome, program),
        ),
        AwaitingView::Other => (
            Machine { awaiting: AwaitingView::Nothing, ..m },
            failure_of(outcome, Seq::empty()),
        ),
    }
}

/// The state with the first of its steps taken away.
pub open spec fn past_step(m: Machine, awaiting: AwaitingView) -> Machine {
    Machine { steps: m.steps.drop_first(), awaiting, ..m }
}

/// The state at the start of the first of its statements: the store has
/// what the statement assigns, the steps are the statement's, and no
/// stage is launched.
pub open spec fn begin(m: Machine) -> Machine {
    Machine {
        statements: m.statements.drop_first(),
        store: store_after(m.statements[0], m.store),
        steps: plan_of(m.statements[0], m.store, m.home),
        launched: Seq::empty(),
        ..m
    }
}

/// What the evaluator hands out next, and its state then.
///
/// - A failure among the steps is reported.
/// - The wait for a stage whose launch was not done is passed over.
/// - Any other step is handed out to be performed; of a redirection and of
///   a launch the evaluator remembers the stage, to act on the outcome.
/// - With no step left the next statement begins, and with no statement
///   left the evaluation is finished.
pub open spec fn advance(m: Machine) -> (Machine, ActionView)
    decreases m.statements.len(), m.steps.len(),
{
    if m.steps.len() > 0 {
        match m.steps[0] {
            StepView::Fail { kind, message } => (
                past_step(m, AwaitingView::Nothing),
                ActionView::Report { kind, message },
            ),
            StepView::Wait(stage) => if m.launched.contains(stage) {
                (past_step(m, AwaitingView::Other), ActionView::Perform(m.steps[0]))
            } else {
                advance(past_step(m, AwaitingView::Nothing))
            },
            StepView::Open { stage, .. } => (
                past_step(m, AwaitingView::Open { stage }),
                ActionView::Perform(m.steps[0]),
            ),
            StepView::Launch { stage, command } => (
                past_step(m, AwaitingView::Launch { stage, program: command.program }),
                ActionView::Perform(m.steps[0]),
            ),
            _ => (past_step(m, AwaitingView::Other), ActionView::Perform(m.steps[0])),
        }
    } else if m.statements.len() > 0 {
        advance(begin(m))
    } else {
        (m, ActionView::Finished)
    }
}

/// What the evaluator does when it is told how the last step went: it
/// reports the error that the outcome stands for, or goes on.
pub open spec fn react(m: Machine, outcome: OutcomeView) -> (Machine, ActionView) {
    let (settled, failure) = settle(m, outcome);
    match failure {
        Some((kind, message)) => (settled, ActionView::Report { kind, message }),
        None => advance(settled),
    }
}

/// The statements that a node stands for: those of a tree, in order, and
/// any other node as the one statement.
pub open spec fn statements_of(node: Syntax) -> Seq<Syntax> {
    match node {
        Syntax::Tree(statements) => statements,
        _ => seq![node],
    }
}

/// An evaluator: the statements of a line, the variable store, and how far
/// the evaluation has come.
pub struct Evaluator {
    node: Tree,
    variable: Variable,
    home: String,
    steps: Vec<Step>,
    launched: Vec<usize>,
    awaiting: Awaiting,
}

impl View for Evaluator {
    type V = Machine;

    closed spec fn view(&self) -> Machine {
        Machine {
            statements: self.node@->Tree_0,
            store: self.variable@,
            home: self.home@,
            steps: step_views(self.steps@),
            launched: self.launched@,
            awaiting: self.awaiting@,
        }
    }
}

/// The error that an outcome stands for, if it stands for one.
pub fn failure(outcome: Outcome, program: &str) -> (error: Option<Error>)
    ensures
        match failure_of(outcome@, program@) {
            Some((kind, message)) => error matches Some(e) && e.spec_kind() == kind
                && e.spec_message() == message,
            None => error is None,
        },
{
    match outcome {
        Outcome::Done => None,
        Outcome::NotFound => {
            let mut message = "nsh command not found: ".to_owned();
            message.append(program);
            Some(Error::new(ErrorKind::NotFound, message))
        },
        Outcome::OpenFailed(reason) => Some(Error::new(ErrorKind::OpenFailed, reason)),
        Outcome::Failed(reason) => Some(Error::new(ErrorKind::ExecutionFailed, reason)),
    }
}

impl Evaluator {
    /// An evaluator for the statements of `node`, with an empty store and
    /// `/` as the home directory.
    pub fn new(node: Node) -> (evaluator: Self)
        ensures
            evaluator@ == (Machine {
                statements: statements_of(node@),
                store: Map::empty(),
                home: "/"@,
                steps: Seq::empty(),
                launched: Seq::empty(),
                awaiting: AwaitingView::Nothing,
            }),
    {
        proof {
            node.lemma_syntax_kind();
        }
        let tree = match node {
            Node::Tree(tree) => {
                proof {
                    tree.lemma_syntax_is_tree();
                }
                tree
            },
            _ => {
                let mut tree = Tree::new();
                tree.insert(node);
                assert(tree@->Tree_0 =~= seq![node@]);
                tree
            },
        };
        let evaluator = Self {
            node: tree,
            variable: Variable::new(),
            home: "/".to_owned(),
            steps: Vec::new(),
            launched: Vec::new(),
            awaiting: Awaiting::Nothing,
        };
        assert(step_views(evaluator.steps@) =~= Seq::<StepView>::empty());
        evaluator
    }

    /// Puts `variable` in the place of the store.
    pub fn set_variable(&mut self, variable: Variable)
        ensures
            final(self)@ == (Machine { store: variable@, ..old(self)@ }),
    {
        self.variable = variable
    }

    /// Sets the directory that `cd` without an argument changes to.
    pub fn set_home(&mut self, home: String)
        ensures
            final(self)@ == (Machine { home: home@, ..old(self)@ }),
    {
        self.home = home
    }

    /// The store.
    pub fn variable(&self) -> (variable: &Variable)
        ensures
            variable@ == self@.store,
    {
        &self.variable
    }

    /// Hands out the store and leaves an empty one behind.
    pub fn take_variable(&mut self) -> (variable: Variable)
        ensures
            variable@ == old(self)@.store,
            final(self)@ == (Machine { store: Map::empty(), ..old(self)@ }),
    {
        let mut variable = Variable::new();
        std::mem::swap(&mut self.variable, &mut variable);
        variable
    }

    /// Whether the launch of the stage of this number was done.
    fn was_launched(&self, stage: usize) -> (b: bool)
        ensures
            b == self@.launched.contains(stage),
    {
        let mut i: usize = 0;
        while i < self.launched.len()
            invariant
                i <= self.launched@.len(),
                forall|j: int| 0 <= j < i ==> self.launched@[j] != stage,
            decreases self.launched@.len() - i,
        {
            if self.launched[i] == stage {
                return true;
            }
            i += 1;
        }
        false
    }

    /// Gives up what is left of the command of the stage of this number.
    fn give_up(&mut self, stage: usize)
        ensures
            final(self)@ == (Machine {
                steps: after_command(old(self)@.steps, stage),
                ..old(self)@
            }),
    {
        loop
            invariant_except_break
                after_command(self@.steps, stage) == after_command(old(self)@.steps, stage),
            invariant
                self@ == (Machine { steps: self@.steps, ..old(self)@ }),
            ensures
                self@ == (Machine {
                    steps: after_command(old(self)@.steps, stage),
                    ..old(self)@
                }),
            decreases self@.steps.len(),
        {
            if self.steps.len() == 0 {
                break ;
            }
            let ghost before = self@.steps;
            let step = self.steps.remove(0);
            assert(step_views(self.steps@) =~= before.drop_first());
            assert(step@ == before[0]);
            let more = match step {
                Step::Open { stage: number, .. } => number == stage,
                _ => false,
            };
            if !more {
                break ;
            }
        }
    }

    /// Hands out what comes next.
    fn advance(&mut self) -> (action: Action)
        ensures
            (final(self)@, action@) == advance(old(self)@),
    {
        loop
            invariant
                advance(self@) == advance(old(self)@),
            decreases self@.statements.len(), self@.steps.len(),
        {
            let ghost m = self@;
            if self.steps.len() > 0 {
                let step = self.steps.remove(0);
                assert(step_views(self.steps@) =~= m.steps.drop_first());
                assert(step@ == m.steps[0]);
                match step {
                    Step::Fail { kind, message } => {
                        self.awaiting = Awaiting::Nothing;
                        return Action::Report(Error::new(kind, message));
                    },
                    Step::Wait(stage) => {
                        if self.was_launched(stage) {
                            self.awaiting = Awaiting::Other;
                            return Action::Perform(Step::Wait(stage));
                        }
                        self.awaiting = Awaiting::Nothing;
                    },
                    Step::Open { stage, slot, redirection } => {
                        self.awaiting = Awaiting::Open { stage };
                        return Action::Perform(Step::Open { stage, slot, redirection });
                    },
                    Step::Launch { stage, command } => {
                        self.awaiting = Awaiting::Launch { stage, program: command.program.clone() };
                        return Action::Perform(Step::Launch { stage, command });
                    },
                    other => {
                        self.awaiting = Awaiting::Other;
                        return Action::Perform(other);
                    },
                }
            } else {
                match self.node.take() {
                    Some(statement) => {
                        self.steps = run_statement(*statement, &mut self.variable, self.home.as_str());
                        self.launched = Vec::new();
                    },
                    None => {
                        return Action::Finished;
                    },
                }
            }
        }
    }

    /// Takes how the step handed out last went, and hands out what the
    /// caller does next. The first call is given `Outcome::Done`.
    pub fn eval(&mut self, outcome: Outcome) -> (action: Action)
        ensures
            (final(self)@, action@) == react(old(self)@, outcome@),
    {
        let mut awaiting = Awaiting::Nothing;
        std::mem::swap(&mut self.awaiting, &mut awaiting);
        match awaiting {
            Awaiting::Nothing => {},
            Awaiting::Open { stage } => {
                proof {
                    reveal_strlit("");
                    assert(""@ =~= Seq::<char>::empty());
                }
                match failure(outcome, "") {
                    Some(error) => {
                        self.give_up(stage);
                        return Action::Report(error);
                    },
                    None => {},
                }
            },
            Awaiting::Launch { stage, program } => {
                match failure(outcome, program.as_str()) {
                    Some(error) => {
                        return Action::Report(error);
                    },
                    None => {
                        self.launched.push(stage);
                    },
                }
            },
            Awaiting::Other => {
                proof {
                    reveal_strlit("");
                    assert(""@ =~= Seq::<char>::empty());
                }
                match failure(outcome, "") {
                    Some(error) => {
                        return Action::Report(error);
                    },
                    None => {},
                }
            },
        }
        self.advance()
    }
}

/// The steps that are left once a failure has come in: those behind the
/// command where the step that failed resolves a redirection, all that were
/// left for any other step.
pub open spec fn left_after_failure(m: Machine) -> Seq<StepView> {
    match m.awaiting {
        AwaitingView::Open { stage } => after_command(m.steps, stage),
        _ => m.steps,
    }
}

/// No failure is dropped, and a failure drops no more than the command
/// that it ends. When the outcome of the step that is due is a failure, the
/// evaluator reports the error that the outcome stands for. It keeps the
/// statements that are left, the store and the stages that it knows as
/// launched, and the steps that are left, but for those of a command whose
/// redirection could not be resolved.
pub proof fn lemma_failure_is_reported(m: Machine, outcome: OutcomeView)
    requires
        !(m.awaiting is Nothing),
        !(outcome is Done),
    ensures
        react(m, outcome).0 == (Machine {
            awaiting: AwaitingView::Nothing,
            steps: left_after_failure(m),
            ..m
        }),
        react(m, outcome).1 is Report,
        outcome is NotFound ==> react(m, outcome).1->kind == ErrorKind::NotFound,
        outcome is OpenFailed ==> react(m, outcome).1 == (ActionView::Report {
            kind: ErrorKind::OpenFailed,
            message: outcome->OpenFailed_0,
        }),
        outcome is Failed ==> react(m, outcome).1 == (ActionView::Report {
            kind: ErrorKind::ExecutionFailed,
            message: outcome->Failed_0,
        }),
{
}

/// A redirection that cannot be resolved ends its command. When the step
/// that is due resolves a redirection of a command, and the steps that are
/// left begin with what is left of that command's steps, then on a failure
/// the error is reported and all of those steps are given up: what is
/// handed out from then on comes from the steps behind them. So no launch
/// and no `exit`, `cd` or `abort` of that command is handed out, whether
/// the program is a builtin or not, and the store is as it was.
pub proof fn lemma_failed_open_ends_the_command(
    m: Machine,
    outcome: OutcomeView,
    command: Syntax,
    follows: bool,
    done: int,
    others: Seq<StepView>,
)
    requires
        m.awaiting is Open,
        !(outcome is Done),
        0 < done <= stage_opens(command, m.store).len(),
        m.steps == stage_steps(command, m.store, m.home, m.awaiting->Open_stage, follows).skip(
            done,
        ) + others,
    ensures
        react(m, outcome).0 == (Machine { awaiting: AwaitingView::Nothing, steps: others, ..m }),
        react(m, outcome).1 is Report,
        outcome is OpenFailed ==> react(m, outcome).1 == (ActionView::Report {
            kind: ErrorKind::OpenFailed,
            message: outcome->OpenFailed_0,
        }),
{
    let stage = m.awaiting->Open_stage;
    let all = stage_steps(command, m.store, m.home, stage, follows);
    lemma_stage_steps(command, m.store, m.home, stage, follows);
    lemma_after_rest(all, stage_opens(command, m.store).len() as int, stage, done, others);
}

/// A command whose redirection cannot be resolved does nothing more. When
/// the step that is due resolves a redirection of a command that is a
/// statement of its own, then on a failure the error is reported, and the
/// call after that goes on with the next statement: nothing is launched,
/// no builtin is run and nothing is awaited.
pub proof fn lemma_failed_open_of_a_statement(
    m: Machine,
    outcome: OutcomeView,
    next: OutcomeView,
    command: Syntax,
    done: int,
)
    requires
        command is Command,
        m.awaiting == (AwaitingView::Open { stage: 0 }),
        !(outcome is Done),
        !m.launched.contains(0),
        0 < done <= stage_opens(command, m.store).len(),
        m.steps == plan_of(command, m.store, m.home).skip(done),
    ensures
        react(m, outcome).1 is Report,
        react(react(m, outcome).0, next) == advance(
            Machine { awaiting: AwaitingView::Nothing, steps: Seq::empty(), ..m },
        ),
{
    let stages = seq![command];
    let all = stage_steps(command, m.store, m.home, 0, false);
    let wait = wait_steps(stages, m.store, m.home, 0);
    lemma_stage_steps(command, m.store, m.home, 0, false);
    assert(start_steps(stages, m.store, m.home, 1) =~= Seq::<StepView>::empty());
    assert(wait_steps(stages, m.store, m.home, 1) =~= Seq::<StepView>::empty());
    assert(start_steps(stages, m.store, m.home, 0) =~= all);
    assert(close_steps(0, 0) =~= Seq::<StepView>::empty());
    assert(plan_of(command, m.store, m.home) =~= all + wait);
    assert((all + wait).skip(done) =~= all.skip(done) + wait);
    lemma_failed_open_ends_the_command(m, outcome, command, false, done, wait);
    let left = Machine { awaiting: AwaitingView::Nothing, steps: wait, ..m };
    let none = Machine { awaiting: AwaitingView::Nothing, steps: Seq::empty(), ..m };
    assert(react(m, outcome).0 == left);
    if wait.len() > 0 {
        assert(wait =~= seq![StepView::Wait(0)]);
        assert(past_step(left, AwaitingView::Nothing) == none) by {
            assert(wait.drop_first() =~= Seq::<StepView>::empty());
        }
    } else {
        assert(left == none) by {
            assert(wait =~= Seq::<StepView>::empty());
        }
    }
}

/// Where the first `opens` of the steps `all` resolve redirections of one
/// stage and one more step stands behind them, giving up the command from
/// any of its steps on leaves what stands behind that one step.
proof fn lemma_after_rest(
    all: Seq<StepView>,
    opens: int,
    stage: usize,
    done: int,
    others: Seq<StepView>,
)
    requires
        0 <= done <= opens,
        all.len() == opens + 1,
        forall|i: int| 0 <= i < opens ==> (#[trigger] all[i]) is Open && all[i]->Open_stage == stage,
        !(all[opens] is Open),
    ensures
        after_command(all.skip(done) + others, stage) == others,
    decreases opens - done,
{
    let steps = all.skip(done) + others;
    assert(steps[0] == all[done]);
    if done < opens {
        assert(steps.drop_first() =~= all.skip(done + 1) + others);
        lemma_after_rest(all, opens, stage, done + 1, others);
    } else {
        assert(steps.drop_first() =~= others);
    }
}

/// A program that is not found is reported by its name.
pub proof fn lemma_not_found_names_the_program(m: Machine)
    requires
        m.awaiting is Launch,
    ensures
        react(m, OutcomeView::NotFound).1 == (ActionView::Report {
            kind: ErrorKind::NotFound,
            message: not_found(m.awaiting->program),
        }),
{
}

/// After a failure the evaluation goes on. The call that follows the
/// report of a failure hands out what would have come next had the step
/// been done, but that a stage whose launch failed is not counted as
/// launched, so that it is not awaited, and that a command whose
/// redirection could not be resolved is given up.
pub proof fn lemma_evaluation_goes_on(m: Machine, outcome: OutcomeView, next: OutcomeView)
    requires
        !(m.awaiting is Nothing),
        !(outcome is Done),
    ensures
        react(react(m, outcome).0, next) == advance(
            Machine { awaiting: AwaitingView::Nothing, steps: left_after_failure(m), ..m },
        ),
{
}

/// A launch that was done is remembered, and nothing else changes before
/// the evaluation goes on.
pub proof fn lemma_launch_is_remembered(m: Machine)
    requires
        m.awaiting is Launch,
    ensures
        react(m, OutcomeView::Done) == advance(
            Machine {
                awaiting: AwaitingView::Nothing,
                launched: m.launched.push(m.awaiting->Launch_stage),
                ..m
            },
        ),
{
}

/// A failure among the steps is reported and ends nothing: the steps
/// behind it and the statements that are left stay, and so does the
/// store.
pub proof fn lemma_failed_step_is_reported(m: Machine)
    requires
        m.steps.len() > 0,
        m.steps[0] is Fail,
    ensures
        advance(m) == (
            Machine { steps: m.steps.drop_first(), awaiting: AwaitingView::Nothing, ..m },
            ActionView::Report { kind: m.steps[0]->kind, message: m.steps[0]->message },
        ),
{
}

/// The evaluation is finished only when nothing is left: no statement and
/// no step.
pub proof fn lemma_finished_leaves_nothing(m: Machine)
    ensures
        advance(m).1 is Finished ==> advance(m).0.statements.len() == 0 && advance(
            m,
        ).0.steps.len() == 0,
    decreases m.statements.len(), m.steps.len(),
{
    if m.steps.len() > 0 {
        match m.steps[0] {
            StepView::Wait(stage) => {
                if !m.launched.contains(stage) {
                    lemma_finished_leaves_nothing(past_step(m, AwaitingView::Nothing));
                }
            },
            _ => {},
        }
    } else if m.statements.len() > 0 {
        lemma_finished_leaves_nothing(begin(m));
    }
}

/// A statement begins when the steps of the one before it are used up:
/// the store then has what the statement assigns, and the steps are the
/// statement's own.
pub proof fn lemma_next_statement_begins(m: Machine)
    requires
        m.steps.len() == 0,
        m.statements.len() > 0,
    ensures
        advance(m) == advance(
            Machine {
                statements: m.statements.drop_first(),
                store: store_after(m.statements[0], m.store),
                steps: plan_of(m.statements[0], m.store, m.home),
                launched: Seq::empty(),
                ..m
            },
        ),
{
}

} // verus!
