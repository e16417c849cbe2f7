//! The builtins: the commands that the shell runs itself.
//!
//! A builtin is known by the name of the program once the name has been
//! expanded; the names are no reserved words. What a builtin does to the
//! process is a step for the caller to perform.

pub mod crypto;

use crate::error::ErrorKind;
use crate::evaluator::plan::{texts, Step, StepView};
use crate::text::{integer, integer_of};
use vstd::prelude::*;

verus! {

/// A builtin.
#[derive(Debug, Clone, Copy, PartialEq, Eq, Structural)]
pub enum Builtin {
    /// `cd`: change the current directory.
    Cd,
    /// `exit`: end the shell with a status.
    Exit,
    /// `abort`: end the shell at once.
    Abort,
}

/// The builtin of this name, if the name is one of `cd`, `exit` and
/// `abort`.
pub open spec fn builtin_of(name: Seq<char>) -> Option<Builtin> {
    if name == "abort"@ {
        Some(Builtin::Abort)
    } else if name == "exit"@ {
        Some(Builtin::Exit)
    } else if name == "cd"@ {
        Some(Builtin::Cd)
    } else {
        None
    }
}

/// Whether the two texts are the same.
pub fn same(a: &str, b: &str) -> (r: bool)
    ensures
        r == (a@ == b@),
{
    a.to_owned() == b.to_owned()
}

/// Looks the name of a program up among the builtins.
pub fn lookup(name: &str) -> (builtin: Option<Builtin>)
    ensures
        builtin == builtin_of(name@),
{
    if same(name, "abort") {
        Some(Builtin::Abort)
    } else if same(name, "exit") {
        Some(Builtin::Exit)
    } else if same(name, "cd") {
        Some(Builtin::Cd)
    } else {
        None
    }
}

/// The message for an argument of `exit` that is no integer.
pub open spec fn no_status() -> Seq<char> {
    "only i32 is allowed for the exit argument"@
}

/// What `exit` does with the given arguments: it ends the shell with the
/// status that the last argument denotes, with 0 where there is no
/// argument, and fails where the last argument denotes no integer.
pub open spec fn exit_step(arguments: Seq<Seq<char>>) -> StepView {
    if arguments.len() == 0 {
        StepView::Exit(0)
    } else {
        match integer_of(arguments.last()) {
            Some(code) => StepView::Exit(code),
            None => StepView::Fail { kind: ErrorKind::ExecutionFailed, message: no_status() },
        }
    }
}

/// What `cd` does with the given arguments: it changes to the directory
/// that the last argument names, to `home` where there is no argument.
pub open spec fn cd_step(arguments: Seq<Seq<char>>, home: Seq<char>) -> StepView {
    StepView::ChangeDirectory(
        if arguments.len() == 0 {
            home
        } else {
            arguments.last()
        },
    )
}

/// `exit` ends the shell exactly where its last argument denotes an
/// integer or there is no argument; with any other argument it fails with
/// `ExecutionFailed` and the shell goes on.
pub proof fn lemma_exit_status(arguments: Seq<Seq<char>>)
    ensures
        arguments.len() == 0 ==> exit_step(arguments) == StepView::Exit(0),
        arguments.len() > 0 && integer_of(arguments.last()) is Some ==> exit_step(arguments)
            == StepView::Exit(integer_of(arguments.last())->0),
        arguments.len() > 0 && integer_of(arguments.last()) is None ==> exit_step(arguments) == (
        StepView::Fail { kind: ErrorKind::ExecutionFailed, message: no_status() }),
{
}

/// The last of the arguments, if there is one.
fn last_argument(mut arguments: Vec<String>) -> (last: Option<String>)
    ensures
        match last {
            Some(text) => arguments@.len() > 0 && text@ == texts(arguments@).last(),
            None => arguments@.len() == 0,
        },
{
    arguments.pop()
}

/// The step of `exit` with these arguments.
pub fn exit(arguments: Vec<String>) -> (step: Step)
    ensures
        step@ == exit_step(texts(arguments@)),
{
    match last_argument(arguments) {
        Some(text) => match integer(text.as_str()) {
            Some(code) => Step::Exit(code),
            None => Step::Fail {
                kind: ErrorKind::ExecutionFailed,
                message: "only i32 is allowed for the exit argument".to_owned(),
            },
        },
        None => Step::Exit(0),
    }
}

/// The step of `abort`.
pub fn abort() -> (step: Step)
    ensures
        step@ == StepView::Abort,
{
    Step::Abort
}

/// The step of `cd` with these arguments, where `home` is the directory
/// to change to without an argument.
pub fn cd(arguments: Vec<String>, home: &str) -> (step: Step)
    ensures
        step@ == cd_step(texts(arguments@), home@),
{
    match last_argument(arguments) {
        Some(path) => Step::ChangeDirectory(path),
        None => Step::ChangeDirectory(home.to_owned()),
    }
}

} // verus!
