//! A line of source on its way to the evaluator.

use crate::error::Error;
use crate::evaluator::{AwaitingView, Evaluator, Machine};
use crate::parser::grammar::parse_of;
use crate::parser::is_fault;
use crate::parser::lexer::{tokens_of, Lexer};
use crate::parser::node::{Node, Syntax};
use crate::parser::Parser;
use crate::text::characters;
use crate::variable::Variable;
use std::collections::VecDeque;
use vstd::prelude::*;

verus! {

/// What stands for the character `c` of the source when the source is
/// read: the home directory for `~`, a line feed and `;` for a line
/// feed, so that a line ends both a comment and a statement, and `c`
/// itself for any other character.
pub open spec fn piece(c: char, home: Seq<char>) -> Seq<char> {
    if c == '~' {
        home
    } else if c == '\n' {
        seq!['\n', ';']
    } else {
        seq![c]
    }
}

/// The text that is read for `source`: each character gives its piece.
pub open spec fn prepared(source: Seq<char>, home: Seq<char>) -> Seq<char>
    decreases source.len(),
{
    if source.len() == 0 {
        Seq::empty()
    } else {
        prepared(source.drop_last(), home) + piece(source.last(), home)
    }
}

/// What reading `source` gives: its statements, or the reason why it is
/// malformed.
pub open spec fn reading_of(source: Seq<char>, home: Seq<char>) -> Result<Seq<Syntax>, Seq<char>> {
    parse_of(tokens_of(prepared(source, home)))
}

/// Prepares `source` for the lexer.
pub fn preprocess(source: &str, home: &str) -> (input: VecDeque<char>)
    ensures
        input@ == prepared(source@, home@),
{
    let source = characters(source);
    let home = characters(home);
    let mut input: VecDeque<char> = VecDeque::new();
    let mut i: usize = 0;
    assert(source@.take(0) =~= Seq::<char>::empty());
    while i < source.len()
        invariant
            i <= source@.len(),
            input@ == prepared(source@.take(i as int), home@),
        decreases source@.len() - i,
    {
        let c = source[i];
        let ghost before = input@;
        proof {
            assert(source@.take(i + 1).drop_last() =~= source@.take(i as int));
            assert(source@.take(i + 1).last() == c);
        }
        if c == '~' {
            let mut j: usize = 0;
            while j < home.len()
                invariant
                    j <= home@.len(),
                    input@ == before + home@.take(j as int),
                decreases home@.len() - j,
            {
                input.push_back(home[j]);
                assert(home@.take(j + 1) =~= home@.take(j as int).push(home@[j as int]));
                j += 1;
            }
            assert(home@.take(j as int) =~= home@);
        } else if c == '\n' {
            input.push_back('\n');
            input.push_back(';');
            assert(input@ =~= before + seq!['\n', ';']);
        } else {
            input.push_back(c);
            assert(input@ =~= before + seq![c]);
        }
        i += 1;
    }
    assert(source@.take(i as int) =~= source@);
    input
}

/// Reads `source` into the tree of its statements, with `home` in the
/// place of every `~`.
pub fn parse(source: String, home: &str) -> (node: Result<Node, Error>)
    ensures
        match reading_of(source@, home@) {
            Ok(statements) => node matches Ok(tree) && tree@ == Syntax::Tree(statements),
            Err(message) => node matches Err(error) && is_fault(error, message),
        },
{
    let mut parser = Parser::new(Lexer::new(preprocess(source.as_str(), home)));
    match parser.parse() {
        Ok(tree) => Ok(Node::Tree(tree)),
        Err(error) => Err(error),
    }
}

/// A shell: it owns the one variable store, lends it to the evaluator of
/// each line and takes it back.
pub struct Shell {
    variable: Variable,
}

impl View for Shell {
    type V = Map<Seq<char>, Seq<char>>;

    /// The store.
    closed spec fn view(&self) -> Map<Seq<char>, Seq<char>> {
        self.variable@
    }
}

impl Shell {
    /// A shell with an empty store.
    pub fn new() -> (shell: Self)
        ensures
            shell@ == Map::<Seq<char>, Seq<char>>::empty(),
    {
        Self { variable: Variable::new() }
    }

    /// The store.
    pub fn variable(&self) -> (variable: &Variable)
        ensures
            variable@ == self@,
    {
        &self.variable
    }

    /// Reads `source` and hands out the evaluator of its statements, which
    /// holds the store from now on. Malformed source leaves the store where
    /// it is.
    pub fn begin(&mut self, source: String, home: String) -> (evaluator: Result<Evaluator, Error>)
        ensures
            match reading_of(source@, home@) {
                Ok(statements) => evaluator matches Ok(e) && e@ == (Machine {
                    statements,
                    store: old(self)@,
                    home: home@,
                    steps: Seq::empty(),
                    launched: Seq::empty(),
                    awaiting: AwaitingView::Nothing,
                }) && final(self)@ == Map::<Seq<char>, Seq<char>>::empty(),
                Err(message) => evaluator matches Err(error) && is_fault(error, message) && final(self)@ == old(self)@,
            },
    {
        match parse(source, home.as_str()) {
            Ok(node) => {
                let mut evaluator = Evaluator::new(node);
                let mut variable = Variable::new();
                std::mem::swap(&mut self.variable, &mut variable);
                evaluator.set_variable(variable);
                evaluator.set_home(home);
                Ok(evaluator)
            },
            Err(error) => Err(error),
        }
    }

    /// Takes the store back from the evaluator of a line.
    pub fn end(&mut self, evaluator: Evaluator)
        ensures
            final(self)@ == evaluator@.store,
    {
        let mut evaluator = evaluator;
        self.variable = evaluator.take_variable();
    }
}

} // verus!
