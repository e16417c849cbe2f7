//! From tokens to the syntax tree.

pub mod grammar;
pub mod lexer;
pub mod node;
pub mod prompt;
pub mod token;

pub use self::node::{Command, CommandSuffix, Insert, Node, Pipe, Redirect, RedirectKind, Tree};

use self::grammar::{
    angle_at, boundary_at, close_at, command_at, descriptor_at, insert_at, lemma_stages_from,
    lemma_suffix_from, redirect_at, reference_at, stages_from, statement_of, statements_from,
    string_at, suffix_from, unknown_token,
};
use self::lexer::Lexer;
use self::node::Syntax;
use self::token::{lexemes, Lexeme, Token};
use crate::error::{Error, ErrorKind};
use vstd::prelude::*;

verus! {

/// A parser: the tokens of a line and how many of them have been read.
pub struct Parser {
    tokens: Vec<Token>,
    cursor: usize,
}

/// What `front` and a reading of the tokens behind it give together.
pub open spec fn with_front(front: Seq<Syntax>, reading: Result<(Seq<Syntax>, int), Seq<char>>)
    -> Result<(Seq<Syntax>, int), Seq<char>> {
    match reading {
        Ok((rest, next)) => Ok((front + rest, next)),
        Err(message) => Err(message),
    }
}

/// What `front` and the statements behind it give together.
pub open spec fn with_statements(front: Seq<Syntax>, reading: Result<Seq<Syntax>, Seq<char>>)
    -> Result<Seq<Syntax>, Seq<char>> {
    match reading {
        Ok(rest) => Ok(front + rest),
        Err(message) => Err(message),
    }
}

/// Whether `error` reports malformed syntax with the given message.
pub open spec fn is_fault(error: Error, message: Seq<char>) -> bool {
    error.spec_kind() == ErrorKind::WrongSyntax && error.spec_message() == message
}

/// The error for malformed syntax.
fn fault(message: String) -> (error: Error)
    ensures
        is_fault(error, message@),
{
    Error::new(ErrorKind::WrongSyntax, message)
}

impl Parser {
    #[verifier::type_invariant]
    spec fn within_tokens(&self) -> bool {
        self.cursor <= self.tokens@.len()
    }

    /// The tokens of the line.
    pub closed spec fn tokens(&self) -> Seq<Lexeme> {
        lexemes(self.tokens@)
    }

    /// The number of tokens that have been read.
    pub closed spec fn position(&self) -> int {
        self.cursor as int
    }

    /// A parser for the tokens that `lexer` has yet to hand out.
    pub fn new(lexer: Lexer) -> (parser: Self)
        ensures
            parser.tokens() == lexer.remaining(),
            parser.position() == 0,
    {
        let mut lexer = lexer;
        let tokens = lexer.tokenize();
        Self { tokens, cursor: 0 }
    }

    /// A parser for the given tokens.
    pub fn from_tokens(tokens: Vec<Token>) -> (parser: Self)
        ensures
            parser.tokens() == lexemes(tokens@),
            parser.position() == 0,
    {
        Self { tokens, cursor: 0 }
    }

    /// Reads a word, if one is next.
    fn parse_string(&mut self) -> (node: Option<Node>)
        ensures
            final(self).tokens() == old(self).tokens(),
            match string_at(old(self).tokens(), old(self).position()) {
                Some(word) => node matches Some(n) && n@ == word && final(self).position() == old(self).position() + 1,
                None => node is None && final(self).position() == old(self).position(),
            },
    {
        proof {
            use_type_invariant(&*self);
        }
        if self.cursor < self.tokens.len() {
            match &self.tokens[self.cursor] {
                Token::String(string) => {
                    let node = Node::String(string.clone());
                    self.cursor += 1;
                    Some(node)
                },
                _ => None,
            }
        } else {
            None
        }
    }

    /// Reads a reference, if one is next.
    fn parse_reference(&mut self) -> (node: Option<Node>)
        ensures
            final(self).tokens() == old(self).tokens(),
            match reference_at(old(self).tokens(), old(self).position()) {
                Some(reference) => node matches Some(n) && n@ == reference && final(self).position() == old(self).position() + 1,
                None => node is None && final(self).position() == old(self).position(),
            },
    {
        proof {
            use_type_invariant(&*self);
        }
        if self.cursor < self.tokens.len() {
            match &self.tokens[self.cursor] {
                Token::Reference(name) => {
                    let node = Node::Reference(name.clone());
                    self.cursor += 1;
                    Some(node)
                },
                _ => None,
            }
        } else {
            None
        }
    }

    /// Reads a descriptor, if one that is not negative is next.
    fn parse_fd(&mut self) -> (node: Option<Node>)
        ensures
            final(self).tokens() == old(self).tokens(),
            match descriptor_at(old(self).tokens(), old(self).position()) {
                Some(descriptor) => node matches Some(n) && n@ == descriptor && final(self).position() == old(self).position() + 1,
                None => node is None && final(self).position() == old(self).position(),
            },
    {
        proof {
            use_type_invariant(&*self);
        }
        if self.cursor < self.tokens.len() {
            match &self.tokens[self.cursor] {
                Token::FD(fd) => {
                    if *fd >= 0 {
                        let node = Node::FD(*fd as u32);
                        self.cursor += 1;
                        Some(node)
                    } else {
                        None
                    }
                },
                _ => None,
            }
        } else {
            None
        }
    }

    /// Reads a close request, if a negative descriptor is next.
    fn parse_close_fd(&mut self) -> (node: Option<Node>)
        ensures
            final(self).tokens() == old(self).tokens(),
            match close_at(old(self).tokens(), old(self).position()) {
                Some(request) => node matches Some(n) && n@ == request && final(self).position()
                    == old(self).position() + 1,
                None => node is None && final(self).position() == old(self).position(),
            },
    {
        proof {
            use_type_invariant(&*self);
        }
        if self.cursor < self.tokens.len() {
            match &self.tokens[self.cursor] {
                Token::FD(fd) => {
                    if *fd < 0 {
                        let wide: i64 = *fd as i64;
                        let node = Node::CloseFD((-wide) as u32);
                        self.cursor += 1;
                        Some(node)
                    } else {
                        None
                    }
                },
                _ => None,
            }
        } else {
            None
        }
    }

    /// Reads the background marker, if `&` is next.
    fn parse_background(&mut self) -> (node: Option<Node>)
        ensures
            final(self).tokens() == old(self).tokens(),
            match node {
                Some(n) => n@ == Syntax::Background(true) && 0 <= old(self).position() < old(self).tokens().len() && old(self).tokens()[old(self).position()] is Ampersand
                    && final(self).position() == old(self).position() + 1,
                None => final(self).position() == old(self).position() && !(0 <= old(self).position() < old(self).tokens().len() && old(self).tokens()[old(self).position()] is Ampersand),
            },
    {
        proof {
            use_type_invariant(&*self);
        }
        if self.cursor < self.tokens.len() {
            match &self.tokens[self.cursor] {
                Token::Ampersand => {
                    self.cursor += 1;
                    Some(Node::Background(true))
                },
                _ => None,
            }
        } else {
            None
        }
    }

    /// The direction of the angle that is next, if one is; nothing is read.
    fn peek_angle(&self) -> (kind: Option<RedirectKind>)
        ensures
            kind == angle_at(self.tokens(), self.position()),
    {
        proof {
            use_type_invariant(self);
        }
        if self.cursor < self.tokens.len() {
            match &self.tokens[self.cursor] {
                Token::Gt => Some(RedirectKind::Output),
                Token::Lt => Some(RedirectKind::Input),
                _ => None,
            }
        } else {
            None
        }
    }

    /// Whether a descriptor that is not negative is next; nothing is read.
    fn at_descriptor(&self) -> (b: bool)
        ensures
            b == descriptor_at(self.tokens(), self.position()) is Some,
    {
        proof {
            use_type_invariant(self);
        }
        if self.cursor < self.tokens.len() {
            match &self.tokens[self.cursor] {
                Token::FD(fd) => *fd >= 0,
                _ => false,
            }
        } else {
            false
        }
    }

    /// Whether the suffix of a command ends here; nothing is read.
    fn at_boundary(&self) -> (b: bool)
        ensures
            b == boundary_at(self.tokens(), self.position()),
    {
        proof {
            use_type_invariant(self);
        }
        if self.cursor < self.tokens.len() {
            match &self.tokens[self.cursor] {
                Token::Pipe => true,
                Token::Semicolon => true,
                _ => false,
            }
        } else {
            true
        }
    }

    /// The error for the token that is next and cannot stand there.
    fn unknown(&self) -> (error: Error)
        requires
            0 <= self.position() < self.tokens().len(),
        ensures
            is_fault(error, unknown_token(self.tokens()[self.position()])),
    {
        let mut message = "unknown token: ".to_owned();
        let text = self.tokens[self.cursor].to_string();
        message.append(text.as_str());
        fault(message)
    }

    /// Reads a redirection, if a descriptor or an angle is next.
    fn parse_redirect(&mut self) -> (node: Result<Option<Node>, Error>)
        ensures
            final(self).tokens() == old(self).tokens(),
            match redirect_at(old(self).tokens(), old(self).position()) {
                Ok(Some((redirect, next))) => node matches Ok(Some(n)) && n@ == redirect && final(self).position() == next,
                Ok(None) => node matches Ok(None) && final(self).position() == old(self).position(),
                Err(message) => node matches Err(error) && is_fault(error, message),
            },
    {
        proof {
            use_type_invariant(&*self);
        }
        let left = match self.parse_fd() {
            Some(fd) => fd,
            None => match self.peek_angle() {
                Some(RedirectKind::Input) => Node::FD(0),
                Some(RedirectKind::Output) => Node::FD(1),
                None => return Ok(None),
            },
        };
        proof {
            use_type_invariant(&*self);
        }
        if self.cursor >= self.tokens.len() {
            return Err(fault("redirect direction is not specified".to_owned()));
        }
        let kind = match self.peek_angle() {
            Some(kind) => kind,
            None => {
                let mut message = self.tokens[self.cursor].to_string();
                message.append(" token cannot be used");
                return Err(fault(message));
            },
        };
        self.cursor += 1;
        let right = match self.parse_fd() {
            Some(fd) => fd,
            None => match self.parse_string() {
                Some(string) => string,
                None => return Err(fault("no redirect destination specified".to_owned())),
            },
        };
        let mut redirect = Redirect::new(kind);
        redirect.insert_left(left);
        redirect.insert_right(right);
        Ok(Some(Node::Redirect(redirect)))
    }

    /// Reads the suffix of a command: arguments and redirections up to a
    /// boundary, or up to `&`, which ends the suffix at once.
    fn parse_command_suffix(&mut self) -> (suffix: Result<CommandSuffix, Error>)
        ensures
            final(self).tokens() == old(self).tokens(),
            match suffix_from(old(self).tokens(), old(self).position()) {
                Ok((items, next)) => suffix matches Ok(s) && s@ == items && final(self).position()
                    == next,
                Err(message) => suffix matches Err(error) && is_fault(error, message),
            },
    {
        let mut suffix = CommandSuffix::new();
        let ghost t = self.tokens();
        let ghost start = self.position();
        proof {
            use_type_invariant(&*self);
            assert(Seq::<Syntax>::empty() + suffix_from(t, start)->Ok_0.0 =~= suffix_from(
                t,
                start,
            )->Ok_0.0);
        }
        loop
            invariant_except_break
                suffix_from(t, start) == with_front(suffix@, suffix_from(t, self.position())),
            invariant
                t == old(self).tokens(),
                start == old(self).position(),
                self.tokens() == t,
                0 <= self.position() <= t.len(),
            ensures
                suffix_from(t, start) == Ok::<(Seq<Syntax>, int), Seq<char>>(
                    (suffix@, self.position()),
                ),
            decreases t.len() - self.position(),
        {
            let ghost here = self.position();
            let ghost done = suffix@;
            proof {
                lemma_suffix_from(t, here);
            }
            if self.at_boundary() {
                assert(done + Seq::<Syntax>::empty() =~= done);
                break ;
            }
            if let Some(node) = self.parse_background() {
                suffix.insert(node);
                assert(done + seq![Syntax::Background(true)] =~= suffix@);
                break ;
            }
            let word = match self.parse_reference() {
                Some(node) => Some(node),
                None => self.parse_string(),
            };
            if let Some(node) = word {
                suffix.insert(node);
                proof {
                    let rest = suffix_from(t, here + 1);
                    if let Ok((items, next)) = rest {
                        assert(done + (seq![node@] + items) =~= suffix@ + items);
                    }
                }
                continue ;
            }
            match self.parse_redirect() {
                Ok(Some(node)) => {
                    suffix.insert(node);
                    proof {
                        use_type_invariant(&*self);
                        let rest = suffix_from(t, self.position());
                        if let Ok((items, next)) = rest {
                            assert(done + (seq![node@] + items) =~= suffix@ + items);
                        }
                    }
                },
                Ok(None) => {
                    return Err(self.unknown());
                },
                Err(error) => {
                    return Err(error);
                },
            }
        }
        Ok(suffix)
    }

    /// Reads a command, if a word is next: the word is the program's name,
    /// what follows is its suffix.
    fn parse_command(&mut self) -> (node: Result<Option<Node>, Error>)
        ensures
            final(self).tokens() == old(self).tokens(),
            match command_at(old(self).tokens(), old(self).position()) {
                Ok(Some((command, next))) => node matches Ok(Some(n)) && n@ == command && final(self).position() == next,
                Ok(None) => node matches Ok(None) && final(self).position() == old(self).position(),
                Err(message) => node matches Err(error) && is_fault(error, message),
            },
    {
        let prefix = match self.parse_reference() {
            Some(prefix) => prefix,
            None => match self.parse_string() {
                Some(prefix) => prefix,
                None => return Ok(None),
            },
        };
        let suffix = match self.parse_command_suffix() {
            Ok(suffix) => suffix,
            Err(error) => return Err(error),
        };
        let mut command = Command::new();
        command.insert_prefix(prefix);
        command.insert_suffix(suffix);
        Ok(Some(Node::Command(command)))
    }

    /// Reads an assignment, if a word and `=` are next.
    fn parse_insert(&mut self) -> (node: Result<Option<Node>, Error>)
        ensures
            final(self).tokens() == old(self).tokens(),
            match insert_at(old(self).tokens(), old(self).position()) {
                Ok(Some((insert, next))) => node matches Ok(Some(n)) && n@ == insert && final(self).position() == next,
                Ok(None) => node matches Ok(None) && final(self).position() == old(self).position(),
                Err(message) => node matches Err(error) && is_fault(error, message),
            },
    {
        proof {
            use_type_invariant(&*self);
        }
        let followed = self.cursor < self.tokens.len() && self.cursor + 1 < self.tokens.len()
            && match &self.tokens[self.cursor + 1] {
            Token::Equal => true,
            _ => false,
        };
        if !followed {
            return Ok(None);
        }
        let left = match self.parse_string() {
            Some(node) => node,
            None => return Ok(None),
        };
        self.cursor += 1;
        let right = match self.parse_string() {
            Some(node) => node,
            None => return Err(
                fault("the suffix of = in the assignment was not found".to_owned()),
            ),
        };
        let mut insert = Insert::new();
        insert.insert_key(left);
        insert.insert_val(right);
        Ok(Some(Node::Insert(insert)))
    }

    /// Whether `|` is next; nothing is read.
    fn at_pipe(&self) -> (b: bool)
        ensures
            b == (0 <= self.position() < self.tokens().len() && self.tokens()[self.position()]
                is Pipe),
    {
        proof {
            use_type_invariant(self);
        }
        if self.cursor < self.tokens.len() {
            match &self.tokens[self.cursor] {
                Token::Pipe => true,
                _ => false,
            }
        } else {
            false
        }
    }

    /// Whether `;` is next; nothing is read.
    fn at_semicolon(&self) -> (b: bool)
        ensures
            b == (0 <= self.position() < self.tokens().len() && self.tokens()[self.position()]
                is Semicolon),
    {
        proof {
            use_type_invariant(self);
        }
        if self.cursor < self.tokens.len() {
            match &self.tokens[self.cursor] {
                Token::Semicolon => true,
                _ => false,
            }
        } else {
            false
        }
    }

    /// Reads the command that must be next as a stage of a pipeline.
    fn parse_stage(&mut self) -> (node: Result<Node, Error>)
        ensures
            final(self).tokens() == old(self).tokens(),
            0 <= old(self).position() <= old(self).tokens().len(),
            match node {
                Ok(n) => command_at(old(self).tokens(), old(self).position()) == Ok::<
                    Option<(Syntax, int)>,
                    Seq<char>,
                >(Some((n@, final(self).position()))) && old(self).position() < final(self).position() <= old(self).tokens().len(),
                Err(error) => stages_from(old(self).tokens(), old(self).position()) matches Err(
                    message,
                ) && is_fault(error, message),
            },
    {
        proof {
            use_type_invariant(&*self);
        }
        if self.cursor >= self.tokens.len() {
            return Err(fault("no command after |".to_owned()));
        }
        proof {
            lemma_suffix_from(self.tokens(), self.position() + 1);
        }
        match self.parse_command() {
            Ok(Some(node)) => Ok(node),
            Ok(None) => {
                if self.at_descriptor() || self.peek_angle().is_some() {
                    Err(fault("no command to redirect".to_owned()))
                } else {
                    Err(self.unknown())
                }
            },
            Err(error) => Err(error),
        }
    }

    /// Reads a command and the commands that `|` joins to it: one command
    /// stays as it is, several make a pipeline.
    fn parse_stages(&mut self) -> (node: Result<Node, Error>)
        ensures
            final(self).tokens() == old(self).tokens(),
            match stages_from(old(self).tokens(), old(self).position()) {
                Ok((stages, next)) => node matches Ok(n) && n@ == statement_of(stages) && final(self).position() == next,
                Err(message) => node matches Err(error) && is_fault(error, message),
            },
    {
        let ghost t = self.tokens();
        let ghost start = self.position();
        let first = match self.parse_stage() {
            Ok(node) => node,
            Err(error) => return Err(error),
        };
        if !self.at_pipe() {
            assert(statement_of(seq![first@]) == first@);
            return Ok(first);
        }
        let mut pipe = Pipe::new();
        pipe.insert(first);
        assert(pipe@->stages =~= seq![first@]);
        loop
            invariant_except_break
                0 <= self.position() < t.len(),
                t[self.position()] is Pipe,
                stages_from(t, start) == with_front(
                    pipe@->stages,
                    stages_from(t, self.position() + 1),
                ),
            invariant
                t == old(self).tokens(),
                start == old(self).position(),
                self.tokens() == t,
                pipe@ is Pipe,
                pipe@->started == false,
                pipe@->stages.len() >= 1,
            ensures
                pipe@->stages.len() >= 2,
                stages_from(t, start) == Ok::<(Seq<Syntax>, int), Seq<char>>(
                    (pipe@->stages, self.position()),
                ),
            decreases t.len() - self.position(),
        {
            let ghost done = pipe@->stages;
            let len = self.tokens.len();
            assert(self.cursor < len);
            self.cursor += 1;
            let ghost here = self.position();
            let stage = match self.parse_stage() {
                Ok(node) => node,
                Err(error) => return Err(error),
            };
            pipe.insert(stage);
            if !self.at_pipe() {
                assert(done + seq![stage@] =~= pipe@->stages);
                break ;
            }
            proof {
                let rest = stages_from(t, self.position() + 1);
                if let Ok((stages, next)) = rest {
                    assert(done + (seq![stage@] + stages) =~= pipe@->stages + stages);
                }
            }
        }
        Ok(Node::Pipe(pipe))
    }

    /// Reads the statements of the line, from the next token to the last.
    ///
    /// The result is the tree of the statements that the grammar finds in
    /// the tokens, or the error `WrongSyntax` with the grammar's message
    /// where the tokens are malformed.
    pub fn parse(&mut self) -> (tree: Result<Tree, Error>)
        ensures
            final(self).tokens() == old(self).tokens(),
            match statements_from(old(self).tokens(), old(self).position()) {
                Ok(statements) => tree matches Ok(found) && found@ == Syntax::Tree(statements)
                    && final(self).position() == final(self).tokens().len(),
                Err(message) => tree matches Err(error) && is_fault(error, message),
            },
    {
        let mut tree = Tree::new();
        let ghost t = self.tokens();
        let ghost start = self.position();
        proof {
            use_type_invariant(&*self);
            assert(Seq::<Syntax>::empty() + statements_from(t, start)->Ok_0 =~= statements_from(
                t,
                start,
            )->Ok_0);
        }
        loop
            invariant_except_break
                statements_from(t, start) == with_statements(
                    tree@->Tree_0,
                    statements_from(t, self.position()),
                ),
            invariant
                t == old(self).tokens(),
                start == old(self).position(),
                self.tokens() == t,
                0 <= self.position() <= t.len(),
                tree@ is Tree,
            ensures
                self.position() == t.len(),
                statements_from(t, start) == Ok::<Seq<Syntax>, Seq<char>>(tree@->Tree_0),
            decreases t.len() - self.position(),
        {
            let ghost here = self.position();
            let ghost done = tree@->Tree_0;
            proof {
                use_type_invariant(&*self);
            }
            if self.cursor >= self.tokens.len() {
                assert(done + Seq::<Syntax>::empty() =~= done);
                break ;
            }
            if self.at_semicolon() {
                self.cursor += 1;
                continue ;
            }
            let node = match self.parse_close_fd() {
                Some(node) => node,
                None => match self.parse_insert() {
                    Ok(Some(node)) => node,
                    Ok(None) => {
                        proof {
                            lemma_stages_from(t, here);
                        }
                        match self.parse_stages() {
                            Ok(node) => node,
                            Err(error) => return Err(error),
                        }
                    },
                    Err(error) => return Err(error),
                },
            };
            tree.insert(node);
            proof {
                use_type_invariant(&*self);
                let rest = statements_from(t, self.position());
                if let Ok(statements) = rest {
                    assert(done + (seq![node@] + statements) =~= tree@->Tree_0 + statements);
                }
            }
        }
        Ok(tree)
    }
}

} // verus!
