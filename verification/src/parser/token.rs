//! The tokens of the shell language.

use crate::text::{decimal, integer_text};
use vstd::prelude::*;

verus! {

/// A token, as the lexer hands it to the parser.
#[derive(Debug, Clone, Eq, PartialEq, Ord, PartialOrd)]
pub enum Token {
    /// A word, quoted or not.
    String(String),
    /// A file descriptor: a number that is not negative names the
    /// descriptor, a negative one asks to close a descriptor.
    FD(i32),
    /// The name of a variable, written after `$`.
    Reference(String),
    /// `=`
    Equal,
    /// `&`
    Ampersand,
    /// `>`
    Gt,
    /// `<`
    Lt,
    /// `|`
    Pipe,
    /// `;`
    Semicolon,
}

/// A token as a mathematical value: its text is a sequence of characters.
pub enum Lexeme {
    String(Seq<char>),
    FD(i32),
    Reference(Seq<char>),
    Equal,
    Ampersand,
    Gt,
    Lt,
    Pipe,
    Semicolon,
}

impl View for Token {
    type V = Lexeme;

    open spec fn view(&self) -> Lexeme {
        match self {
            Token::String(text) => Lexeme::String(text@),
            Token::FD(n) => Lexeme::FD(*n),
            Token::Reference(name) => Lexeme::Reference(name@),
            Token::Equal => Lexeme::Equal,
            Token::Ampersand => Lexeme::Ampersand,
            Token::Gt => Lexeme::Gt,
            Token::Lt => Lexeme::Lt,
            Token::Pipe => Lexeme::Pipe,
            Token::Semicolon => Lexeme::Semicolon,
        }
    }
}

/// The tokens of `tokens` as mathematical values.
pub open spec fn lexemes(tokens: Seq<Token>) -> Seq<Lexeme> {
    tokens.map_values(|t: Token| t@)
}

impl Lexeme {
    /// The text that shows this token to the user: a word or a name as it
    /// is, a descriptor in decimal notation, any other token as the
    /// character that it is written with.
    pub open spec fn text(self) -> Seq<char> {
        match self {
            Lexeme::String(text) => text,
            Lexeme::FD(n) => integer_text(n as int),
            Lexeme::Reference(name) => name,
            Lexeme::Equal => seq!['='],
            Lexeme::Ampersand => seq!['&'],
            Lexeme::Gt => seq!['>'],
            Lexeme::Lt => seq!['<'],
            Lexeme::Pipe => seq!['|'],
            Lexeme::Semicolon => seq![';'],
        }
    }
}

/// The string that holds `c` alone.
fn single(c: char) -> (s: String)
    ensures
        s@ == seq![c],
{
    let mut s = String::new();
    s.push(c);
    assert(s@ =~= seq![c]);
    s
}

impl Token {
    /// The text that shows this token to the user.
    pub fn to_string(&self) -> (text: String)
        ensures
            text@ == self@.text(),
    {
        match self {
            Token::String(text) => text.clone(),
            Token::FD(n) => decimal(*n),
            Token::Reference(name) => name.clone(),
            Token::Equal => single('='),
            Token::Ampersand => single('&'),
            Token::Gt => single('>'),
            Token::Lt => single('<'),
            Token::Pipe => single('|'),
            Token::Semicolon => single(';'),
        }
    }
}

} // verus!
