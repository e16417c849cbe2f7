use nsh::parser::lexer::Lexer;
use nsh::parser::token::Token;

fn tokens(source: &str) -> Vec<Token> {
    Lexer::new(source.chars().collect()).tokenize()
}

fn word(text: &str) -> Token {
    Token::String(text.to_owned())
}

fn reference(name: &str) -> Token {
    Token::Reference(name.to_owned())
}

#[test]
fn tokenizes_redirections_of_a_listing() {
    assert_eq!(
        tokens("ls -a > out.txt 2> err.txt"),
        vec![
            word("ls"),
            word("-a"),
            Token::FD(1),
            Token::Gt,
            word("out.txt"),
            Token::FD(2),
            Token::Gt,
            word("err.txt"),
        ]
    );
}

#[test]
fn hands_out_tokens_one_by_one() {
    let mut lexer = Lexer::new("a 2> b".chars().collect());
    assert_eq!(lexer.next(), Some(word("a")));
    assert_eq!(lexer.next(), Some(Token::FD(2)));
    assert_eq!(lexer.next(), Some(Token::Gt));
    assert_eq!(lexer.next(), Some(word("b")));
    assert_eq!(lexer.next(), None);
    assert_eq!(lexer.next(), None);
}

#[test]
fn empty_and_blank_input_have_no_tokens() {
    assert_eq!(tokens(""), vec![]);
    assert_eq!(tokens("  \t \n "), vec![]);
}

#[test]
fn a_comment_runs_to_the_end_of_the_line() {
    assert_eq!(tokens("a # b c\nd"), vec![word("a"), word("d")]);
    assert_eq!(tokens("# only a comment"), vec![]);
    assert_eq!(tokens("a#b"), vec![word("a#b")]);
}

#[test]
fn punctuation_gives_its_tokens() {
    assert_eq!(
        tokens("a|b;c=d&"),
        vec![
            word("a"),
            Token::Pipe,
            word("b"),
            Token::Semicolon,
            word("c"),
            Token::Equal,
            word("d"),
            Token::Ampersand,
        ]
    );
}

#[test]
fn a_bare_angle_names_its_default_descriptor() {
    assert_eq!(tokens(">"), vec![Token::FD(1), Token::Gt]);
    assert_eq!(tokens("<"), vec![Token::FD(0), Token::Lt]);
    assert_eq!(
        tokens("sort<in"),
        vec![word("sort"), Token::FD(0), Token::Lt, word("in")]
    );
}

#[test]
fn digits_before_an_angle_are_a_descriptor() {
    assert_eq!(tokens("2>"), vec![Token::FD(2), Token::Gt]);
    assert_eq!(tokens("12<"), vec![Token::FD(12), Token::Lt]);
    assert_eq!(tokens("2 >"), vec![word("2"), Token::FD(1), Token::Gt]);
    assert_eq!(tokens("2"), vec![word("2")]);
    assert_eq!(tokens("2a>"), vec![word("2a"), Token::FD(1), Token::Gt]);
    assert_eq!(tokens("42 x"), vec![word("42"), word("x")]);
    assert_eq!(
        tokens("99999999999>"),
        vec![word("99999999999"), Token::FD(1), Token::Gt]
    );
}

#[test]
fn an_ampersand_before_a_number_is_a_descriptor() {
    assert_eq!(tokens("&2"), vec![Token::FD(2)]);
    assert_eq!(tokens("&-1"), vec![Token::FD(-1)]);
    assert_eq!(tokens("& 2"), vec![Token::Ampersand, word("2")]);
    assert_eq!(tokens("&x"), vec![Token::Ampersand, word("x")]);
    assert_eq!(tokens("&"), vec![Token::Ampersand]);
    assert_eq!(tokens("&&"), vec![Token::Ampersand, Token::Ampersand]);
    assert_eq!(
        tokens("cmd 2>&1"),
        vec![word("cmd"), Token::FD(2), Token::Gt, Token::FD(1)]
    );
}

#[test]
fn a_dollar_starts_a_reference() {
    assert_eq!(tokens("$X"), vec![reference("X")]);
    assert_eq!(tokens("echo $HOME/bin"), vec![word("echo"), reference("HOME/bin")]);
    assert_eq!(tokens("$\"a b\" c"), vec![reference("a b"), word("c")]);
    assert_eq!(tokens("$ x"), vec![word("$"), word("x")]);
    assert_eq!(tokens("$"), vec![word("$")]);
    assert_eq!(tokens("$;"), vec![reference(""), Token::Semicolon]);
    assert_eq!(tokens("a$b"), vec![word("a"), reference("b")]);
}

#[test]
fn quotes_keep_blanks_and_delimiters() {
    assert_eq!(tokens("\"a b\""), vec![word("a b")]);
    assert_eq!(tokens("\"a;b|c\" d"), vec![word("a;b|c"), word("d")]);
    assert_eq!(tokens("\"\""), vec![word("")]);
    assert_eq!(tokens("\"never closed"), vec![word("never closed")]);
    assert_eq!(tokens("\"a\\\" b"), vec![word("a\\"), word("b")]);
    assert_eq!(tokens("a\"b\""), vec![word("a"), word("b")]);
}

#[test]
fn unicode_white_space_separates_words() {
    assert_eq!(tokens("a\u{3000}b\u{a0}c"), vec![word("a"), word("b"), word("c")]);
}

#[test]
fn a_token_shows_as_it_is_written() {
    assert_eq!(word("ls").to_string(), "ls");
    assert_eq!(reference("X").to_string(), "X");
    assert_eq!(Token::FD(12).to_string(), "12");
    assert_eq!(Token::FD(-3).to_string(), "-3");
    assert_eq!(Token::Equal.to_string(), "=");
    assert_eq!(Token::Ampersand.to_string(), "&");
    assert_eq!(Token::Gt.to_string(), ">");
    assert_eq!(Token::Lt.to_string(), "<");
    assert_eq!(Token::Pipe.to_string(), "|");
    assert_eq!(Token::Semicolon.to_string(), ";");
}
