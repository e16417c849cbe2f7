//! The prompt as the shell's variable describes it.

use crate::prompt::{replace, replaced};
use vstd::prelude::*;

verus! {

/// The prompt that `source` stands for: first every `\W` is replaced by
/// the full path of the current directory, then every `\w` by its name.
pub open spec fn prompt_of(source: Seq<char>, directory: Seq<char>, name: Seq<char>) -> Seq<char> {
    replaced(replaced(source, 'W', directory), 'w', name)
}

/// Writes the prompt that `source` stands for, where `directory` is the
/// full path of the current directory and `name` its last component.
pub fn parse(source: &str, directory: &str, name: &str) -> (prompt: String)
    ensures
        prompt@ == prompt_of(source@, directory@, name@),
{
    let prompt = replace(source, 'W', directory);
    replace(prompt.as_str(), 'w', name)
}

} // verus!
