//! The grammar of a line, as functions from tokens to syntax.
//!
//! ```text
//! line      := { ";" | statement }
//! statement := close | insert | command { "|" command }
//! close     := FD            (negative)
//! insert    := String "=" String
//! command   := word { word | redirect } [ "&" ]
//! word      := String | Reference
//! redirect  := [ FD ] ( "<" | ">" ) ( FD | String )      (FD not negative)
//! ```
//!
//! Every function reads the tokens `t` from a position on and says what it
//! read and where it stopped, or why the tokens are malformed.

use crate::parser::node::{is_suffix, RedirectKind, Syntax};
use crate::parser::token::Lexeme;
use vstd::prelude::*;

verus! {

/// The message for a token that cannot stand where it stands.
pub open spec fn unknown_token(token: Lexeme) -> Seq<char> {
    "unknown token: "@ + token.text()
}

/// The message for a token that stands where the angle of a redirection
/// is due.
pub open spec fn unusable_token(token: Lexeme) -> Seq<char> {
    token.text() + " token cannot be used"@
}

/// The message for a descriptor at the end of the tokens.
pub open spec fn no_direction() -> Seq<char> {
    "redirect direction is not specified"@
}

/// The message for a redirection without a target.
pub open spec fn no_destination() -> Seq<char> {
    "no redirect destination specified"@
}

/// The message for an assignment without a value.
pub open spec fn no_value() -> Seq<char> {
    "the suffix of = in the assignment was not found"@
}

/// The message for a redirection that no command stands before.
pub open spec fn no_command() -> Seq<char> {
    "no command to redirect"@
}

/// The message for a `|` at the end of the tokens.
pub open spec fn no_stage() -> Seq<char> {
    "no command after |"@
}

/// The word at position `i`, if a `String` token stands there.
pub open spec fn string_at(t: Seq<Lexeme>, i: int) -> Option<Syntax> {
    if 0 <= i < t.len() && t[i] is String {
        Some(Syntax::String(t[i]->String_0))
    } else {
        None
    }
}

/// The reference at position `i`, if a `Reference` token stands there.
pub open spec fn reference_at(t: Seq<Lexeme>, i: int) -> Option<Syntax> {
    if 0 <= i < t.len() && t[i] is Reference {
        Some(Syntax::Reference(t[i]->Reference_0))
    } else {
        None
    }
}

/// The word or reference at position `i`.
pub open spec fn word_at(t: Seq<Lexeme>, i: int) -> Option<Syntax> {
    if reference_at(t, i) is Some {
        reference_at(t, i)
    } else {
        string_at(t, i)
    }
}

/// The descriptor at position `i`, if an `FD` token that is not negative
/// stands there.
pub open spec fn descriptor_at(t: Seq<Lexeme>, i: int) -> Option<Syntax> {
    if 0 <= i < t.len() && t[i] is FD && t[i]->FD_0 >= 0 {
        Some(Syntax::FD(t[i]->FD_0 as u32))
    } else {
        None
    }
}

/// The descriptor that a close request names: the negative number `n`
/// without its sign.
pub open spec fn closed_descriptor(n: i32) -> u32 {
    (-(n as int)) as u32
}

/// The close request at position `i`, if a negative `FD` token stands
/// there.
pub open spec fn close_at(t: Seq<Lexeme>, i: int) -> Option<Syntax> {
    if 0 <= i < t.len() && t[i] is FD && t[i]->FD_0 < 0 {
        Some(Syntax::CloseFD(closed_descriptor(t[i]->FD_0)))
    } else {
        None
    }
}

/// The direction at position `i`, if an angle stands there.
pub open spec fn angle_at(t: Seq<Lexeme>, i: int) -> Option<RedirectKind> {
    if 0 <= i < t.len() && t[i] is Gt {
        Some(RedirectKind::Output)
    } else if 0 <= i < t.len() && t[i] is Lt {
        Some(RedirectKind::Input)
    } else {
        None
    }
}

/// The descriptor that an angle redirects where none is written: 0 for
/// input, 1 for output.
pub open spec fn default_descriptor(kind: RedirectKind) -> u32 {
    match kind {
        RedirectKind::Input => 0,
        RedirectKind::Output => 1,
    }
}

/// The target of a redirection at position `i`: a descriptor or a word.
pub open spec fn target_at(t: Seq<Lexeme>, i: int) -> Option<Syntax> {
    if descriptor_at(t, i) is Some {
        descriptor_at(t, i)
    } else {
        string_at(t, i)
    }
}

/// The redirection that starts at position `i`, and the position behind
/// it; `None` where neither a descriptor nor an angle stands at `i`.
///
/// A descriptor must be followed by an angle, and the angle by a target.
pub open spec fn redirect_at(t: Seq<Lexeme>, i: int) -> Result<Option<(Syntax, int)>, Seq<char>> {
    let k = if descriptor_at(t, i) is Some {
        i + 1
    } else {
        i
    };
    if descriptor_at(t, i) is None && angle_at(t, i) is None {
        Ok(None)
    } else if k >= t.len() {
        Err(no_direction())
    } else if angle_at(t, k) is None {
        Err(unusable_token(t[k]))
    } else if target_at(t, k + 1) is None {
        Err(no_destination())
    } else {
        Ok(
            Some(
                (
                    Syntax::Redirect {
                        kind: angle_at(t, k)->0,
                        left: Some(
                            Box::new(
                                if descriptor_at(t, i) is Some {
                                    descriptor_at(t, i)->0
                                } else {
                                    Syntax::FD(default_descriptor(angle_at(t, k)->0))
                                },
                            ),
                        ),
                        right: Some(Box::new(target_at(t, k + 1)->0)),
                    },
                    k + 2,
                ),
            ),
        )
    }
}

/// Whether the suffix of a command ends before position `i`: at the end of
/// the tokens, before `|` and before `;`.
pub open spec fn boundary_at(t: Seq<Lexeme>, i: int) -> bool {
    i < 0 || i >= t.len() || t[i] is Pipe || t[i] is Semicolon
}

/// The items of the suffix that starts at position `i`, and the position
/// behind it. The suffix ends at a boundary, or with `&`, which gives the
/// background marker as the last item.
pub open spec fn suffix_from(t: Seq<Lexeme>, i: int) -> Result<(Seq<Syntax>, int), Seq<char>>
    decreases t.len() - i,
{
    if boundary_at(t, i) {
        Ok((Seq::empty(), i))
    } else if t[i] is Ampersand {
        Ok((seq![Syntax::Background(true)], i + 1))
    } else if word_at(t, i) is Some {
        match suffix_from(t, i + 1) {
            Ok((rest, next)) => Ok((seq![word_at(t, i)->0] + rest, next)),
            Err(message) => Err(message),
        }
    } else {
        match redirect_at(t, i) {
            Ok(Some((redirect, behind))) => match suffix_from(t, behind) {
                Ok((rest, next)) => Ok((seq![redirect] + rest, next)),
                Err(message) => Err(message),
            },
            Ok(None) => Err(unknown_token(t[i])),
            Err(message) => Err(message),
        }
    }
}

/// The command that starts at position `i`, and the position behind it;
/// `None` where no word stands at `i`.
pub open spec fn command_at(t: Seq<Lexeme>, i: int) -> Result<Option<(Syntax, int)>, Seq<char>> {
    if word_at(t, i) is None {
        Ok(None)
    } else {
        match suffix_from(t, i + 1) {
            Ok((suffix, next)) => Ok(
                Some(
                    (
                        Syntax::Command {
                            prefix: Some(Box::new(word_at(t, i)->0)),
                            suffix: Some(suffix),
                        },
                        next,
                    ),
                ),
            ),
            Err(message) => Err(message),
        }
    }
}

/// The assignment that starts at position `i`, and the position behind
/// it; `None` where no word followed by `=` stands at `i`.
pub open spec fn insert_at(t: Seq<Lexeme>, i: int) -> Result<Option<(Syntax, int)>, Seq<char>> {
    if string_at(t, i) is None || i + 1 >= t.len() || !(t[i + 1] is Equal) {
        Ok(None)
    } else if string_at(t, i + 2) is None {
        Err(no_value())
    } else {
        Ok(
            Some(
                (
                    Syntax::Insert {
                        key: Some(Box::new(string_at(t, i)->0)),
                        val: Some(Box::new(string_at(t, i + 2)->0)),
                    },
                    i + 3,
                ),
            ),
        )
    }
}

/// A suffix ends behind where it starts, within the tokens.
pub proof fn lemma_suffix_from(t: Seq<Lexeme>, i: int)
    requires
        0 <= i <= t.len(),
    ensures
        suffix_from(t, i) matches Ok((_, next)) ==> i <= next <= t.len(),
    decreases t.len() - i,
{
    if boundary_at(t, i) {
    } else if t[i] is Ampersand {
    } else if word_at(t, i) is Some {
        lemma_suffix_from(t, i + 1);
    } else {
        match redirect_at(t, i) {
            Ok(Some((_, behind))) => {
                lemma_suffix_from(t, behind);
            },
            _ => {},
        }
    }
}

/// The message for the token at position `i`, where a command is due and
/// none starts: a redirection there lacks its command, any other token is
/// unknown.
pub open spec fn stray_at(t: Seq<Lexeme>, i: int) -> Seq<char> {
    if descriptor_at(t, i) is Some || angle_at(t, i) is Some {
        no_command()
    } else {
        unknown_token(t[i])
    }
}

/// The stages of the pipeline whose first command starts at position `i`,
/// and the position behind the pipeline. After every `|` a command must
/// follow. A redirection that no command stands before is rejected.
pub open spec fn stages_from(t: Seq<Lexeme>, i: int) -> Result<(Seq<Syntax>, int), Seq<char>>
    decreases t.len() - i,
{
    if i < 0 || i >= t.len() {
        Err(no_stage())
    } else {
        match command_at(t, i) {
            Ok(Some((command, next))) => {
                if 0 <= next < t.len() && t[next] is Pipe {
                    proof {
                        lemma_suffix_from(t, i + 1);
                    }
                    match stages_from(t, next + 1) {
                        Ok((rest, end)) => Ok((seq![command] + rest, end)),
                        Err(message) => Err(message),
                    }
                } else {
                    Ok((seq![command], next))
                }
            },
            Ok(None) => Err(stray_at(t, i)),
            Err(message) => Err(message),
        }
    }
}

/// The statement that some stages make: the command itself where there is
/// one stage, a pipeline of the stages where there are more.
pub open spec fn statement_of(stages: Seq<Syntax>) -> Syntax {
    if stages.len() == 1 {
        stages[0]
    } else {
        Syntax::Pipe { stages, started: false }
    }
}

/// A pipeline has at least one stage and ends behind where it starts,
/// within the tokens.
pub proof fn lemma_stages_from(t: Seq<Lexeme>, i: int)
    requires
        0 <= i <= t.len(),
    ensures
        stages_from(t, i) matches Ok((stages, next)) ==> i < next <= t.len() && stages.len() >= 1,
    decreases t.len() - i,
{
    if i < t.len() {
        lemma_suffix_from(t, i + 1);
        match command_at(t, i) {
            Ok(Some((_, next))) => {
                if next < t.len() && t[next] is Pipe {
                    lemma_stages_from(t, next + 1);
                }
            },
            _ => {},
        }
    }
}

/// The statements from position `i` on. `;` separates statements and may
/// stand alone; a statement also ends where the next one starts.
pub open spec fn statements_from(t: Seq<Lexeme>, i: int) -> Result<Seq<Syntax>, Seq<char>>
    decreases t.len() - i,
{
    if i < 0 || i >= t.len() {
        Ok(Seq::empty())
    } else if t[i] is Semicolon {
        statements_from(t, i + 1)
    } else if close_at(t, i) is Some {
        match statements_from(t, i + 1) {
            Ok(rest) => Ok(seq![close_at(t, i)->0] + rest),
            Err(message) => Err(message),
        }
    } else {
        match insert_at(t, i) {
            Ok(Some((insert, next))) => match statements_from(t, next) {
                Ok(rest) => Ok(seq![insert] + rest),
                Err(message) => Err(message),
            },
            Ok(None) => match stages_from(t, i) {
                Ok((stages, next)) => {
                    proof {
                        lemma_stages_from(t, i);
                    }
                    match statements_from(t, next) {
                        Ok(rest) => Ok(seq![statement_of(stages)] + rest),
                        Err(message) => Err(message),
                    }
                },
                Err(message) => Err(message),
            },
            Err(message) => Err(message),
        }
    }
}

/// The statements of the tokens `t`, or the reason why `t` is malformed.
pub open spec fn parse_of(t: Seq<Lexeme>) -> Result<Seq<Syntax>, Seq<char>> {
    statements_from(t, 0)
}

/// Every suffix that the grammar reads holds arguments and redirections,
/// and the background marker at its end only.
pub proof fn lemma_suffix_is_suffix(t: Seq<Lexeme>, i: int)
    requires
        0 <= i <= t.len(),
    ensures
        suffix_from(t, i) matches Ok((items, _)) ==> is_suffix(items),
    decreases t.len() - i,
{
    if boundary_at(t, i) {
    } else if t[i] is Ampersand {
    } else if word_at(t, i) is Some {
        lemma_suffix_is_suffix(t, i + 1);
        if let Ok((rest, _)) = suffix_from(t, i + 1) {
            let items = seq![word_at(t, i)->0] + rest;
            assert forall|k: int| 0 <= k < items.len() implies {
                ||| (#[trigger] items[k]).is_word()
                ||| items[k].is_redirection()
                ||| items[k] is Background && k == items.len() - 1
            } by {
                if k > 0 {
                    assert(items[k] == rest[k - 1]);
                }
            }
        }
    } else {
        if let Ok(Some((redirect, behind))) = redirect_at(t, i) {
            lemma_suffix_is_suffix(t, behind);
            if let Ok((rest, _)) = suffix_from(t, behind) {
                let items = seq![redirect] + rest;
                assert forall|k: int| 0 <= k < items.len() implies {
                    ||| (#[trigger] items[k]).is_word()
                    ||| items[k].is_redirection()
                    ||| items[k] is Background && k == items.len() - 1
                } by {
                    if k > 0 {
                        assert(items[k] == rest[k - 1]);
                    }
                }
            }
        }
    }
}

/// Every stage that the grammar reads is a command.
pub proof fn lemma_stages_are_commands(t: Seq<Lexeme>, i: int)
    requires
        0 <= i <= t.len(),
    ensures
        stages_from(t, i) matches Ok((stages, _)) ==> forall|k: int|
            0 <= k < stages.len() ==> (#[trigger] stages[k]).is_command(),
    decreases t.len() - i,
{
    if i < t.len() {
        lemma_suffix_from(t, i + 1);
        lemma_suffix_is_suffix(t, i + 1);
        if let Ok(Some((command, next))) = command_at(t, i) {
            if next < t.len() && t[next] is Pipe {
                lemma_stages_are_commands(t, next + 1);
                if let Ok((rest, _)) = stages_from(t, next + 1) {
                    let stages = seq![command] + rest;
                    assert forall|k: int| 0 <= k < stages.len() implies (#[trigger] stages[k])
                        .is_command() by {
                        if k > 0 {
                            assert(stages[k] == rest[k - 1]);
                        }
                    }
                }
            }
        }
    }
}

/// The statements that the grammar reads from position `i` on are
/// commands, pipelines of two commands or more, assignments of a word to a
/// word, and close requests.
pub proof fn lemma_statements_are_statements(t: Seq<Lexeme>, i: int)
    requires
        0 <= i <= t.len(),
    ensures
        statements_from(t, i) matches Ok(statements) ==> forall|k: int|
            0 <= k < statements.len() ==> (#[trigger] statements[k]).is_statement(),
    decreases t.len() - i,
{
    if i >= t.len() {
    } else if t[i] is Semicolon {
        lemma_statements_are_statements(t, i + 1);
    } else if close_at(t, i) is Some {
        lemma_statements_are_statements(t, i + 1);
        if let Ok(rest) = statements_from(t, i + 1) {
            let statements = seq![close_at(t, i)->0] + rest;
            assert forall|k: int| 0 <= k < statements.len() implies (#[trigger] statements[k])
                .is_statement() by {
                if k > 0 {
                    assert(statements[k] == rest[k - 1]);
                }
            }
        }
    } else {
        match insert_at(t, i) {
            Ok(Some((insert, next))) => {
                lemma_statements_are_statements(t, next);
                if let Ok(rest) = statements_from(t, next) {
                    let statements = seq![insert] + rest;
                    assert forall|k: int| 0 <= k < statements.len() implies (
                    #[trigger] statements[k]).is_statement() by {
                        if k > 0 {
                            assert(statements[k] == rest[k - 1]);
                        }
                    }
                }
            },
            Ok(None) => {
                lemma_stages_from(t, i);
                lemma_stages_are_commands(t, i);
                if let Ok((stages, next)) = stages_from(t, i) {
                    lemma_statements_are_statements(t, next);
                    if let Ok(rest) = statements_from(t, next) {
                        let statements = seq![statement_of(stages)] + rest;
                        assert(stages[0].is_command());
                        assert forall|k: int| 0 <= k < statements.len() implies (
                        #[trigger] statements[k]).is_statement() by {
                            if k > 0 {
                                assert(statements[k] == rest[k - 1]);
                            }
                        }
                    }
                }
            },
            Err(_) => {},
        }
    }
}

/// The parser builds nothing but statements: whatever tokens it is given,
/// each node of the tree that it gives is a command whose program is named
/// by a word or a reference, a pipeline of two commands or more, an
/// assignment of a word to a word, or a close request.
pub proof fn lemma_parse_gives_statements(t: Seq<Lexeme>)
    ensures
        parse_of(t) matches Ok(statements) ==> forall|k: int|
            0 <= k < statements.len() ==> (#[trigger] statements[k]).is_statement(),
{
    lemma_statements_are_statements(t, 0);
}

/// The command that is a program's name and nothing else.
pub open spec fn bare_command(name: Seq<char>) -> Syntax {
    Syntax::Command { prefix: Some(Box::new(Syntax::String(name))), suffix: Some(Seq::empty()) }
}

/// The tokens of the commands `names`, each a word alone, with `|` between
/// each command and the next.
pub open spec fn piped(names: Seq<Seq<char>>) -> Seq<Lexeme>
    decreases names.len(),
{
    if names.len() == 0 {
        Seq::empty()
    } else if names.len() == 1 {
        seq![Lexeme::String(names[0])]
    } else {
        seq![Lexeme::String(names[0]), Lexeme::Pipe] + piped(names.drop_first())
    }
}

/// Where the tokens from position `i` on are words with `|` between them,
/// the grammar reads one stage for each word, in the order written.
proof fn lemma_piped_stages(t: Seq<Lexeme>, i: int, names: Seq<Seq<char>>)
    requires
        0 <= i <= t.len(),
        names.len() >= 1,
        t.skip(i) == piped(names),
    ensures
        stages_from(t, i) == Ok::<(Seq<Syntax>, int), Seq<char>>(
            (names.map_values(|name: Seq<char>| bare_command(name)), t.len() as int),
        ),
    decreases names.len(),
{
    let stages = names.map_values(|name: Seq<char>| bare_command(name));
    assert(piped(names).len() >= 1);
    assert(piped(names)[0] == Lexeme::String(names[0]));
    assert(t.skip(i).len() == t.len() - i);
    assert(t[i] == t.skip(i)[0]);
    assert(word_at(t, i) == Some(Syntax::String(names[0])));
    if names.len() == 1 {
        assert(t.skip(i).len() == 1);
        assert(suffix_from(t, i + 1) == Ok::<(Seq<Syntax>, int), Seq<char>>(
            (Seq::empty(), i + 1),
        ));
        assert(stages =~= seq![bare_command(names[0])]);
    } else {
        let rest = names.drop_first();
        assert(t.skip(i).len() >= 2);
        assert(t[i + 1] == t.skip(i)[1]);
        assert(t[i + 1] is Pipe);
        assert(suffix_from(t, i + 1) == Ok::<(Seq<Syntax>, int), Seq<char>>(
            (Seq::empty(), i + 1),
        ));
        assert(t.skip(i + 2) =~= t.skip(i).skip(2));
        assert(t.skip(i).skip(2) =~= piped(rest));
        lemma_piped_stages(t, i + 2, rest);
        assert(stages =~= seq![bare_command(names[0])] + rest.map_values(
            |name: Seq<char>| bare_command(name),
        ));
    }
}

/// Commands joined by `|` make one statement with one stage for each
/// command, in the order written: a pipeline where there are two commands
/// or more, the command itself where there is one.
pub proof fn lemma_piped_commands(names: Seq<Seq<char>>)
    requires
        names.len() >= 1,
    ensures
        parse_of(piped(names)) == Ok::<Seq<Syntax>, Seq<char>>(
            seq![statement_of(names.map_values(|name: Seq<char>| bare_command(name)))],
        ),
{
    let t = piped(names);
    let stages = names.map_values(|name: Seq<char>| bare_command(name));
    assert(t.skip(0) =~= t);
    lemma_piped_stages(t, 0, names);
    assert(t.len() >= 1);
    assert(t[0] == Lexeme::String(names[0]));
    if names.len() >= 2 {
        assert(t[1] is Pipe);
    }
    assert(insert_at(t, 0) == Ok::<Option<(Syntax, int)>, Seq<char>>(None));
    assert(statements_from(t, t.len() as int) == Ok::<Seq<Syntax>, Seq<char>>(Seq::empty()));
    assert(seq![statement_of(stages)] + Seq::<Syntax>::empty() =~= seq![statement_of(stages)]);
}

/// A word, `=` and a word make an assignment of the second word to the
/// first.
pub proof fn lemma_assignment_tokens(key: Seq<char>, value: Seq<char>)
    ensures
        parse_of(seq![Lexeme::String(key), Lexeme::Equal, Lexeme::String(value)]) == Ok::<
            Seq<Syntax>,
            Seq<char>,
        >(
            seq![
                Syntax::Insert {
                    key: Some(Box::new(Syntax::String(key))),
                    val: Some(Box::new(Syntax::String(value))),
                },
            ],
        ),
{
    let t = seq![Lexeme::String(key), Lexeme::Equal, Lexeme::String(value)];
    let insert = Syntax::Insert {
        key: Some(Box::new(Syntax::String(key))),
        val: Some(Box::new(Syntax::String(value))),
    };
    assert(insert_at(t, 0) == Ok::<Option<(Syntax, int)>, Seq<char>>(Some((insert, 3))));
    assert(statements_from(t, 3) == Ok::<Seq<Syntax>, Seq<char>>(Seq::empty()));
    assert(seq![insert] + Seq::<Syntax>::empty() =~= seq![insert]);
}

/// A command, a descriptor, an angle and a word make a command with one
/// redirection in its suffix: of that descriptor, in the direction of the
/// angle, to the file that the word names.
pub proof fn lemma_redirection_tokens(
    name: Seq<char>,
    descriptor: i32,
    output: bool,
    path: Seq<char>,
)
    requires
        descriptor >= 0,
    ensures
        parse_of(
            seq![
                Lexeme::String(name),
                Lexeme::FD(descriptor),
                if output {
                    Lexeme::Gt
                } else {
                    Lexeme::Lt
                },
                Lexeme::String(path),
            ],
        ) == Ok::<Seq<Syntax>, Seq<char>>(
            seq![
                Syntax::Command {
                    prefix: Some(Box::new(Syntax::String(name))),
                    suffix: Some(
                        seq![
                            Syntax::Redirect {
                                kind: if output {
                                    RedirectKind::Output
                                } else {
                                    RedirectKind::Input
                                },
                                left: Some(Box::new(Syntax::FD(descriptor as u32))),
                                right: Some(Box::new(Syntax::String(path))),
                            },
                        ],
                    ),
                },
            ],
        ),
{
    let angle = if output {
        Lexeme::Gt
    } else {
        Lexeme::Lt
    };
    let t = seq![Lexeme::String(name), Lexeme::FD(descriptor), angle, Lexeme::String(path)];
    let redirect = Syntax::Redirect {
        kind: if output {
            RedirectKind::Output
        } else {
            RedirectKind::Input
        },
        left: Some(Box::new(Syntax::FD(descriptor as u32))),
        right: Some(Box::new(Syntax::String(path))),
    };
    let command = Syntax::Command {
        prefix: Some(Box::new(Syntax::String(name))),
        suffix: Some(seq![redirect]),
    };
    assert(redirect_at(t, 1) == Ok::<Option<(Syntax, int)>, Seq<char>>(Some((redirect, 4))));
    assert(suffix_from(t, 4) == Ok::<(Seq<Syntax>, int), Seq<char>>((Seq::empty(), 4)));
    assert(seq![redirect] + Seq::<Syntax>::empty() =~= seq![redirect]);
    assert(suffix_from(t, 1) == Ok::<(Seq<Syntax>, int), Seq<char>>((seq![redirect], 4)));
    assert(stages_from(t, 0) == Ok::<(Seq<Syntax>, int), Seq<char>>((seq![command], 4)));
    assert(insert_at(t, 0) == Ok::<Option<(Syntax, int)>, Seq<char>>(None));
    assert(statements_from(t, 4) == Ok::<Seq<Syntax>, Seq<char>>(Seq::empty()));
    assert(seq![command] + Seq::<Syntax>::empty() =~= seq![command]);
}

/// A command and `&` make a command whose suffix is the background marker.
pub proof fn lemma_background_tokens(name: Seq<char>)
    ensures
        parse_of(seq![Lexeme::String(name), Lexeme::Ampersand]) == Ok::<Seq<Syntax>, Seq<char>>(
            seq![
                Syntax::Command {
                    prefix: Some(Box::new(Syntax::String(name))),
                    suffix: Some(seq![Syntax::Background(true)]),
                },
            ],
        ),
{
    let t = seq![Lexeme::String(name), Lexeme::Ampersand];
    let command = Syntax::Command {
        prefix: Some(Box::new(Syntax::String(name))),
        suffix: Some(seq![Syntax::Background(true)]),
    };
    assert(suffix_from(t, 1) == Ok::<(Seq<Syntax>, int), Seq<char>>(
        (seq![Syntax::Background(true)], 2),
    ));
    assert(stages_from(t, 0) == Ok::<(Seq<Syntax>, int), Seq<char>>((seq![command], 2)));
    assert(insert_at(t, 0) == Ok::<Option<(Syntax, int)>, Seq<char>>(None));
    assert(statements_from(t, 2) == Ok::<Seq<Syntax>, Seq<char>>(Seq::empty()));
    assert(seq![command] + Seq::<Syntax>::empty() =~= seq![command]);
}

} // verus!
