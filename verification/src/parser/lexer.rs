//! From characters to tokens.
//!
//! White space separates tokens. `#` starts a comment that runs to the end
//! of the line. A word runs up to the next white space or delimiter; between
//! double quotes it runs up to the closing quote, and a quote that is never
//! closed runs to the end of the input. No backslash escapes anything.
//! Every angle comes with the descriptor that it redirects: the one written
//! directly before it, or 1 for `>` and 0 for `<`.

use crate::parser::token::{lexemes, Lexeme, Token};
use crate::text::{blank, digit, integer, integer_of, is_blank, is_digit};
use std::collections::VecDeque;
use vstd::prelude::*;

verus! {

/// Where a run of characters ends.
#[derive(Debug, Clone, Copy, PartialEq, Eq, Structural)]
pub enum Stop {
    /// Before white space or one of `; = | > < & $ "`.
    Delimiter,
    /// Before a double quote.
    Quote,
    /// Before a line feed.
    LineEnd,
}

/// Whether `c` ends an unquoted word.
pub open spec fn is_delimiter(c: char) -> bool {
    is_blank(c) || c == ';' || c == '=' || c == '|' || c == '>' || c == '<' || c == '&' || c == '$'
        || c == '"'
}

impl Stop {
    /// Whether a run of this kind ends before `c`.
    pub open spec fn at(self, c: char) -> bool {
        match self {
            Stop::Delimiter => is_delimiter(c),
            Stop::Quote => c == '"',
            Stop::LineEnd => c == '\n',
        }
    }

    /// Tests whether a run of this kind ends before `c`.
    pub fn stops(self, c: char) -> (b: bool)
        ensures
            b == self.at(c),
    {
        match self {
            Stop::Delimiter => blank(c) || c == ';' || c == '=' || c == '|' || c == '>' || c == '<'
                || c == '&' || c == '$' || c == '"',
            Stop::Quote => c == '"',
            Stop::LineEnd => c == '\n',
        }
    }
}

/// The end of the run that starts at `from`: the first position from there
/// on before whose character the run stops, or the end of `s`.
pub open spec fn run_end(s: Seq<char>, from: int, stop: Stop) -> int
    decreases s.len() - from,
{
    if 0 <= from < s.len() && !stop.at(s[from]) {
        run_end(s, from + 1, stop)
    } else {
        from
    }
}

/// The run from `from` to `run_end` holds no character that stops it, and
/// the character at `run_end`, if there is one, does.
pub proof fn lemma_run_end(s: Seq<char>, from: int, stop: Stop)
    requires
        0 <= from <= s.len(),
    ensures
        from <= run_end(s, from, stop) <= s.len(),
        forall|j: int| from <= j < run_end(s, from, stop) ==> !stop.at(#[trigger] s[j]),
        run_end(s, from, stop) < s.len() ==> stop.at(s[run_end(s, from, stop)]),
    decreases s.len() - from,
{
    if from < s.len() && !stop.at(s[from]) {
        lemma_run_end(s, from + 1, stop);
    }
}

/// The tokens that one construct gives, and where the next one is looked for.
pub struct Scan {
    pub tokens: Seq<Lexeme>,
    pub next: int,
}

/// The token for an angle: `>` or `<`.
pub open spec fn angle(c: char) -> Lexeme {
    if c == '>' {
        Lexeme::Gt
    } else {
        Lexeme::Lt
    }
}

/// The construct that starts at position `i` of `s`, where `s[i]` is
/// neither white space nor `#`.
///
/// - A word that starts with a digit, denotes an integer and stands
///   directly before `>` or `<` gives that descriptor and the angle.
/// - `>` alone gives descriptor 1 and `Gt`, `<` alone descriptor 0 and `Lt`:
///   an angle token always follows the descriptor that it redirects.
/// - `&` with a word directly behind it that denotes an integer gives that
///   descriptor; any other `&` gives `Ampersand` and nothing of what follows
///   is used up.
/// - `$` before white space or at the end gives the word `$`; before a
///   double quote it gives a reference to the name between the quotes; else
///   a reference to the word that follows.
/// - `"` gives the word up to the closing quote.
/// - `|`, `;` and `=` give their tokens.
/// - Any other character starts a word.
pub open spec fn scan_at(s: Seq<char>, i: int) -> Scan {
    let c = s[i];
    let end = run_end(s, i + 1, Stop::Delimiter);
    let close = run_end(s, i + 1, Stop::Quote);
    if c == '|' {
        Scan { tokens: seq![Lexeme::Pipe], next: i + 1 }
    } else if c == ';' {
        Scan { tokens: seq![Lexeme::Semicolon], next: i + 1 }
    } else if c == '=' {
        Scan { tokens: seq![Lexeme::Equal], next: i + 1 }
    } else if c == '>' {
        Scan { tokens: seq![Lexeme::FD(1), Lexeme::Gt], next: i + 1 }
    } else if c == '<' {
        Scan { tokens: seq![Lexeme::FD(0), Lexeme::Lt], next: i + 1 }
    } else if c == '&' {
        if i + 1 < s.len() && !is_blank(s[i + 1]) && integer_of(s.subrange(i + 1, end)) is Some {
            Scan { tokens: seq![Lexeme::FD(integer_of(s.subrange(i + 1, end))->0)], next: end }
        } else {
            Scan { tokens: seq![Lexeme::Ampersand], next: i + 1 }
        }
    } else if c == '$' {
        if i + 1 >= s.len() || is_blank(s[i + 1]) {
            Scan { tokens: seq![Lexeme::String(seq!['$'])], next: i + 1 }
        } else if s[i + 1] == '"' {
            let close = run_end(s, i + 2, Stop::Quote);
            Scan {
                tokens: seq![Lexeme::Reference(s.subrange(i + 2, close))],
                next: if close < s.len() {
                    close + 1
                } else {
                    close
                },
            }
        } else {
            Scan { tokens: seq![Lexeme::Reference(s.subrange(i + 1, end))], next: end }
        }
    } else if c == '"' {
        Scan {
            tokens: seq![Lexeme::String(s.subrange(i + 1, close))],
            next: if close < s.len() {
                close + 1
            } else {
                close
            },
        }
    } else if is_digit(c) && integer_of(s.subrange(i, end)) is Some && end < s.len() && (s[end]
        == '>' || s[end] == '<') {
        Scan {
            tokens: seq![Lexeme::FD(integer_of(s.subrange(i, end))->0), angle(s[end])],
            next: end + 1,
        }
    } else {
        Scan { tokens: seq![Lexeme::String(s.subrange(i, end))], next: end }
    }
}

/// A construct gives one or two tokens and ends behind its first character,
/// within the input.
pub proof fn lemma_scan_at(s: Seq<char>, i: int)
    requires
        0 <= i < s.len(),
    ensures
        i < scan_at(s, i).next <= s.len(),
        1 <= scan_at(s, i).tokens.len() <= 2,
{
    lemma_run_end(s, i + 1, Stop::Delimiter);
    lemma_run_end(s, i + 1, Stop::Quote);
    if i + 2 <= s.len() {
        lemma_run_end(s, i + 2, Stop::Quote);
    }
}

/// The tokens of `s` from position `from` on.
pub open spec fn tokens_from(s: Seq<char>, from: int) -> Seq<Lexeme>
    decreases s.len() - from,
{
    if from < 0 || from >= s.len() {
        Seq::empty()
    } else if is_blank(s[from]) {
        tokens_from(s, from + 1)
    } else if s[from] == '#' {
        proof {
            lemma_run_end(s, from + 1, Stop::LineEnd);
        }
        tokens_from(s, run_end(s, from + 1, Stop::LineEnd))
    } else {
        proof {
            lemma_scan_at(s, from);
        }
        scan_at(s, from).tokens + tokens_from(s, scan_at(s, from).next)
    }
}

/// The tokens of the text `s`.
pub open spec fn tokens_of(s: Seq<char>) -> Seq<Lexeme> {
    tokens_from(s, 0)
}

/// Whether every angle among the tokens stands directly behind a
/// descriptor that is not negative.
pub open spec fn angles_follow_descriptors(tokens: Seq<Lexeme>) -> bool {
    forall|i: int|
        0 <= i < tokens.len() && (#[trigger] tokens[i] is Gt || tokens[i] is Lt) ==> i > 0
            && tokens[i - 1] is FD && tokens[i - 1]->FD_0 >= 0
}

/// The lexer never hands out an angle alone: before every `Gt` and `Lt`
/// among the tokens of a text stands the descriptor that the angle
/// redirects, written or by default.
pub proof fn lemma_angles_follow_descriptors(s: Seq<char>, from: int)
    ensures
        angles_follow_descriptors(tokens_from(s, from)),
    decreases s.len() - from,
{
    if from < 0 || from >= s.len() {
    } else if is_blank(s[from]) {
        lemma_angles_follow_descriptors(s, from + 1);
    } else if s[from] == '#' {
        lemma_run_end(s, from + 1, Stop::LineEnd);
        lemma_angles_follow_descriptors(s, run_end(s, from + 1, Stop::LineEnd));
    } else {
        lemma_scan_at(s, from);
        let scan = scan_at(s, from);
        let rest = tokens_from(s, scan.next);
        lemma_angles_follow_descriptors(s, scan.next);
        let tokens = scan.tokens + rest;
        assert forall|i: int|
            0 <= i < tokens.len() && (#[trigger] tokens[i] is Gt || tokens[i] is Lt) implies i > 0
            && tokens[i - 1] is FD && tokens[i - 1]->FD_0 >= 0 by {
            if i < scan.tokens.len() {
                assert(tokens[i] == scan.tokens[i]);
                assert(i == 1);
                assert(tokens[0] == scan.tokens[0]);
            } else {
                let k = i - scan.tokens.len();
                assert(tokens[i] == rest[k]);
                assert(rest[k] is Gt || rest[k] is Lt);
                assert(k > 0);
                assert(tokens[i - 1] == rest[k - 1]);
            }
        }
    }
}

/// The input and how far it has been read.
struct Cursor {
    input: VecDeque<char>,
    position: usize,
}

impl Cursor {
    #[verifier::type_invariant]
    spec fn within_input(&self) -> bool {
        self.position <= self.input@.len()
    }

    /// The tokens from the current position on.
    closed spec fn ahead(&self) -> Seq<Lexeme> {
        tokens_from(self.input@, self.position as int)
    }

    /// The end of the run that starts at `from`.
    fn run(&self, from: usize, stop: Stop) -> (end: usize)
        requires
            from <= self.input@.len(),
        ensures
            end == run_end(self.input@, from as int, stop),
            from <= end <= self.input@.len(),
    {
        let len = self.input.len();
        let mut end: usize = from;
        while end < len && !stop.stops(self.input[end])
            invariant
                from <= end <= len,
                len == self.input@.len(),
                run_end(self.input@, end as int, stop) == run_end(self.input@, from as int, stop),
            decreases len - end,
        {
            end += 1;
        }
        end
    }

    /// The characters from `from` up to `to`, as a string.
    fn text(&self, from: usize, to: usize) -> (w: String)
        requires
            from <= to <= self.input@.len(),
        ensures
            w@ == self.input@.subrange(from as int, to as int),
    {
        let mut w = String::new();
        let mut i: usize = from;
        while i < to
            invariant
                from <= i <= to <= self.input@.len(),
                w@ == self.input@.subrange(from as int, i as int),
            decreases to - i,
        {
            w.push(self.input[i]);
            i += 1;
            assert(self.input@.subrange(from as int, i as int) == self.input@.subrange(
                from as int,
                i - 1,
            ).push(self.input@[i - 1]));
        }
        w
    }

    /// Reads the run that starts at the current position: with `esc`, the
    /// text up to the next double quote, which is used up too; without, the
    /// text up to the next delimiter, which is left in the input.
    fn read_string(&mut self, esc: bool) -> (string: String)
        ensures
            final(self).input == old(self).input,
            ({
                let s = old(self).input@;
                let from = old(self).position as int;
                let end = run_end(
                    s,
                    from,
                    if esc {
                        Stop::Quote
                    } else {
                        Stop::Delimiter
                    },
                );
                &&& from <= end <= s.len()
                &&& string@ == s.subrange(from, end)
                &&& final(self).position == if esc && end < s.len() {
                    end + 1
                } else {
                    end
                }
            }),
    {
        proof {
            use_type_invariant(&*self);
        }
        let end = self.run(
            self.position,
            if esc {
                Stop::Quote
            } else {
                Stop::Delimiter
            },
        );
        let string = self.text(self.position, end);
        self.position = if esc && end < self.input.len() {
            end + 1
        } else {
            end
        };
        string
    }

    /// Moves over white space and comments.
    fn skip(&mut self)
        ensures
            final(self).input == old(self).input,
            old(self).position <= final(self).position <= final(self).input@.len(),
            final(self).ahead() == old(self).ahead(),
            final(self).position < final(self).input@.len() ==> !is_blank(
                final(self).input@[final(self).position as int],
            ) && final(self).input@[final(self).position as int] != '#',
    {
        proof {
            use_type_invariant(&*self);
        }
        let len = self.input.len();
        let mut at: usize = self.position;
        while at < len && (blank(self.input[at]) || self.input[at] == '#')
            invariant
                self.position <= at <= len,
                len == self.input@.len(),
                tokens_from(self.input@, at as int) == tokens_from(
                    self.input@,
                    self.position as int,
                ),
            decreases len - at,
        {
            if blank(self.input[at]) {
                at += 1;
            } else {
                at = self.run(at + 1, Stop::LineEnd);
            }
        }
        self.position = at;
    }

    /// Reads the next construct of the input and hands out its tokens: the
    /// first one, and the second one if it has two.
    fn scan(&mut self) -> (tokens: (Option<Token>, Option<Token>))
        ensures
            match tokens.0 {
                Some(first) => old(self).ahead() == (match tokens.1 {
                    Some(second) => seq![first@, second@],
                    None => seq![first@],
                }) + final(self).ahead(),
                None => tokens.1 is None && old(self).ahead().len() == 0 && final(self).ahead().len() == 0,
            },
    {
        self.skip();
        let len = self.input.len();
        let at = self.position;
        if at >= len {
            return (None, None);
        }
        let c = self.input[at];
        let ghost s = self.input@;
        proof {
            lemma_scan_at(s, at as int);
        }
        let ghost scan = scan_at(s, at as int);
        assert(old(self).ahead() == scan.tokens + tokens_from(s, scan.next));
        self.position = at + 1;
        let mut second: Option<Token> = None;
        let first = if c == '|' {
            Token::Pipe
        } else if c == ';' {
            Token::Semicolon
        } else if c == '=' {
            Token::Equal
        } else if c == '>' {
            second = Some(Token::Gt);
            Token::FD(1)
        } else if c == '<' {
            second = Some(Token::Lt);
            Token::FD(0)
        } else if c == '&' {
            let end = self.run(at + 1, Stop::Delimiter);
            let word = self.text(at + 1, end);
            let number = if at + 1 < len && !blank(self.input[at + 1]) {
                integer(word.as_str())
            } else {
                None
            };
            match number {
                Some(n) => {
                    self.position = end;
                    Token::FD(n)
                },
                None => Token::Ampersand,
            }
        } else if c == '$' {
            if at + 1 >= len || blank(self.input[at + 1]) {
                let mut dollar = String::new();
                dollar.push('$');
                assert(dollar@ =~= seq!['$']);
                Token::String(dollar)
            } else if self.input[at + 1] == '"' {
                self.position = at + 2;
                Token::Reference(self.read_string(true))
            } else {
                Token::Reference(self.read_string(false))
            }
        } else if c == '"' {
            Token::String(self.read_string(true))
        } else {
            let end = self.run(at + 1, Stop::Delimiter);
            let word = self.text(at, end);
            let number = if digit(c) && end < len && (self.input[end] == '>' || self.input[end]
                == '<') {
                integer(word.as_str())
            } else {
                None
            };
            match number {
                Some(n) => {
                    second = Some(
                        if self.input[end] == '>' {
                            Token::Gt
                        } else {
                            Token::Lt
                        },
                    );
                    self.position = end + 1;
                    Token::FD(n)
                },
                None => {
                    self.position = end;
                    Token::String(word)
                },
            }
        };
        assert(self.input@ == s);
        assert(first@ == scan.tokens[0]);
        assert(self.position == scan.next);
        assert(match second {
            Some(token) => scan.tokens =~= seq![first@, token@],
            None => scan.tokens =~= seq![first@],
        });
        (Some(first), second)
    }
}

/// A lexer: it hands out the tokens of its input one by one, and reads the
/// input no further than the token that it hands out needs.
pub struct Lexer {
    cursor: Cursor,
    peek_token: Option<Token>,
}

impl Lexer {
    /// The tokens that this lexer has yet to hand out, in order.
    pub closed spec fn remaining(&self) -> Seq<Lexeme> {
        match self.peek_token {
            Some(token) => seq![token@] + self.cursor.ahead(),
            None => self.cursor.ahead(),
        }
    }

    /// A lexer at the start of `input`.
    pub fn new(input: VecDeque<char>) -> (lexer: Self)
        ensures
            lexer.remaining() == tokens_of(input@),
    {
        Self { cursor: Cursor { input, position: 0 }, peek_token: None }
    }

    /// Reads the next construct of the input: hands out its first token and
    /// keeps its second one, if it has one, for the next call.
    fn pop_front(&mut self) -> (token: Option<Token>)
        requires
            old(self).peek_token is None,
        ensures
            match token {
                Some(first) => old(self).remaining().len() > 0 && first@ == old(self).remaining()[0] && final(self).remaining() == old(self).remaining().drop_first(),
                None => old(self).remaining().len() == 0 && final(self).remaining().len() == 0,
            },
    {
        let (first, second) = self.cursor.scan();
        self.peek_token = second;
        assert(first is Some ==> self.remaining() =~= old(self).remaining().drop_first());
        first
    }

    /// Hands out the next token, if one is left.
    pub fn next(&mut self) -> (token: Option<Token>)
        ensures
            match token {
                Some(first) => old(self).remaining().len() > 0 && first@ == old(self).remaining()[0] && final(self).remaining() == old(self).remaining().drop_first(),
                None => old(self).remaining().len() == 0 && final(self).remaining().len() == 0,
            },
    {
        match self.peek_token.take() {
            Some(token) => {
                assert(self.remaining() =~= old(self).remaining().drop_first());
                Some(token)
            },
            None => self.pop_front(),
        }
    }

    /// Hands out all the tokens that are left, in order.
    pub fn tokenize(&mut self) -> (tokens: Vec<Token>)
        ensures
            lexemes(tokens@) == old(self).remaining(),
            final(self).remaining().len() == 0,
    {
        let mut tokens: Vec<Token> = Vec::new();
        loop
            invariant
                lexemes(tokens@) + self.remaining() == old(self).remaining(),
            ensures
                lexemes(tokens@) == old(self).remaining(),
                self.remaining().len() == 0,
            decreases self.remaining().len(),
        {
            let ghost before = self.remaining();
            let ghost done = tokens@;
            match self.next() {
                Some(token) => {
                    tokens.push(token);
                    assert(lexemes(tokens@) =~= lexemes(done).push(token@));
                    assert(lexemes(tokens@) + self.remaining() =~= lexemes(done) + before);
                },
                None => {
                    assert(lexemes(tokens@) + self.remaining() =~= lexemes(tokens@));
                    break ;
                },
            }
        }
        tokens
    }
}

} // verus!
