//! The escapes of a prompt: a backslash and a letter stand for a value.

use crate::text::characters;
use vstd::prelude::*;

verus! {

/// The text `source` with `value` in the place of every escape made of a
/// backslash and `letter`, read from left to right.
pub open spec fn replaced(source: Seq<char>, letter: char, value: Seq<char>) -> Seq<char>
    decreases source.len(),
{
    if source.len() == 0 {
        source
    } else if source.len() >= 2 && source[0] == '\\' && source[1] == letter {
        value + replaced(source.skip(2), letter, value)
    } else {
        seq![source[0]] + replaced(source.skip(1), letter, value)
    }
}

/// Puts `value` in the place of every escape made of a backslash and
/// `letter`.
pub fn replace(source: &str, letter: char, value: &str) -> (text: String)
    ensures
        text@ == replaced(source@, letter, value@),
{
    let source = characters(source);
    let mut text = String::new();
    let mut i: usize = 0;
    assert(source@.skip(0) =~= source@);
    assert(text@ + replaced(source@, letter, value@) =~= replaced(source@, letter, value@));
    while i < source.len()
        invariant
            i <= source@.len(),
            text@ + replaced(source@.skip(i as int), letter, value@) == replaced(
                source@,
                letter,
                value@,
            ),
        decreases source@.len() - i,
    {
        let ghost before = text@;
        let ghost here = source@.skip(i as int);
        if source[i] == '\\' && i + 1 < source.len() && source[i + 1] == letter {
            text.append(value);
            proof {
                assert(here.skip(2) =~= source@.skip(i + 2));
                let rest = replaced(source@.skip(i + 2), letter, value@);
                assert(before + (value@ + rest) =~= (before + value@) + rest);
            }
            i += 2;
        } else {
            text.push(source[i]);
            proof {
                assert(here.skip(1) =~= source@.skip(i + 1));
                let rest = replaced(source@.skip(i + 1), letter, value@);
                assert(before + (seq![source@[i as int]] + rest) =~= before.push(
                    source@[i as int],
                ) + rest);
            }
            i += 1;
        }
    }
    assert(text@ + Seq::<char>::empty() =~= text@);
    text
}

/// Whether `source` holds the escape made of a backslash and `letter`.
pub open spec fn has_escape(source: Seq<char>, letter: char) -> bool {
    exists|i: int|
        0 <= i < source.len() - 1 && (#[trigger] source[i]) == '\\' && source[i + 1] == letter
}

/// Tests whether `source` holds the escape made of a backslash and
/// `letter`.
pub fn escapes(source: &str, letter: char) -> (b: bool)
    ensures
        b == has_escape(source@, letter),
{
    let chars = characters(source);
    let mut i: usize = 0;
    while i < chars.len()
        invariant
            chars@ == source@,
            i <= chars@.len(),
            forall|j: int|
                0 <= j < i && j < chars@.len() - 1 ==> !((#[trigger] chars@[j]) == '\\'
                    && chars@[j + 1] == letter),
        decreases chars@.len() - i,
    {
        if chars[i] == '\\' && i + 1 < chars.len() && chars[i + 1] == letter {
            assert(chars@[i as int] == '\\' && chars@[i + 1] == letter);
            return true;
        }
        i += 1;
    }
    false
}

/// `text` with the escape replaced, where `source` holds the escape, and
/// `text` itself where it does not.
pub open spec fn replaced_if(
    source: Seq<char>,
    text: Seq<char>,
    letter: char,
    value: Seq<char>,
) -> Seq<char> {
    if has_escape(source, letter) {
        replaced(text, letter, value)
    } else {
        text
    }
}

/// The prompt that `source` stands for: `\u` is the user's name, `\s` the
/// shell's name, `\v` its version, `\w` the name of the current directory
/// and `\W` its full path. The escapes are replaced in this order, each in
/// what the ones before it have left, and only those that `source` itself
/// holds.
pub open spec fn decoded(
    source: Seq<char>,
    user: Seq<char>,
    shell: Seq<char>,
    version: Seq<char>,
    name: Seq<char>,
    directory: Seq<char>,
) -> Seq<char> {
    let first = replaced_if(source, source, 'u', user);
    let second = replaced_if(source, first, 's', shell);
    let third = replaced_if(source, second, 'v', version);
    let fourth = replaced_if(source, third, 'w', name);
    replaced_if(source, fourth, 'W', directory)
}

/// Replaces the escape in `text` where `source` holds it.
fn replace_if(source: &str, text: String, letter: char, value: &str) -> (out: String)
    ensures
        out@ == replaced_if(source@, text@, letter, value@),
{
    if escapes(source, letter) {
        replace(text.as_str(), letter, value)
    } else {
        text
    }
}

/// Writes the prompt that `source` stands for.
pub fn decode(source: String, user: &str, shell: &str, version: &str, name: &str, directory: &str)
    -> (prompt: String)
    ensures
        prompt@ == decoded(source@, user@, shell@, version@, name@, directory@),
{
    let prompt = replace_if(source.as_str(), source.clone(), 'u', user);
    let prompt = replace_if(source.as_str(), prompt, 's', shell);
    let prompt = replace_if(source.as_str(), prompt, 'v', version);
    let prompt = replace_if(source.as_str(), prompt, 'w', name);
    replace_if(source.as_str(), prompt, 'W', directory)
}

} // verus!
