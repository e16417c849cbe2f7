//! The lines that were entered, and a place among them.

use crate::text::characters;
use vstd::prelude::*;

verus! {

/// The history of a shell: the lines entered so far, oldest first, and
/// the place of the line that is handed out next.
pub struct History(usize, Vec<String>);

/// A history as a mathematical value.
pub struct Past {
    /// The place of the line that is handed out next.
    pub place: nat,
    /// The lines, oldest first.
    pub lines: Seq<Seq<char>>,
}

/// The lines of a text: what stands between its line feeds. A text without
/// a line feed is one line, and so is the empty text.
pub open spec fn lines_of(text: Seq<char>) -> Seq<Seq<char>>
    decreases text.len(),
{
    if text.len() == 0 {
        seq![Seq::empty()]
    } else {
        let before = lines_of(text.drop_last());
        if text.last() == '\n' {
            before.push(Seq::empty())
        } else {
            before.drop_last().push(before.last().push(text.last()))
        }
    }
}

/// The text of some lines: the lines with a line feed between each line
/// and the next.
pub open spec fn joined(lines: Seq<Seq<char>>) -> Seq<char>
    decreases lines.len(),
{
    if lines.len() == 0 {
        Seq::empty()
    } else if lines.len() == 1 {
        lines[0]
    } else {
        joined(lines.drop_last()).push('\n') + lines.last()
    }
}

/// A text has at least one line.
pub proof fn lemma_lines_of_len(text: Seq<char>)
    ensures
        lines_of(text).len() >= 1,
    decreases text.len(),
{
    if text.len() > 0 {
        lemma_lines_of_len(text.drop_last());
    }
}

/// The lines of a text, joined again, are the text.
pub proof fn lemma_joined_lines(text: Seq<char>)
    ensures
        joined(lines_of(text)) == text,
    decreases text.len(),
{
    if text.len() == 0 {
        assert(joined(lines_of(text)) =~= text);
    } else {
        let before = lines_of(text.drop_last());
        lemma_lines_of_len(text.drop_last());
        lemma_joined_lines(text.drop_last());
        let lines = lines_of(text);
        if text.last() == '\n' {
            assert(lines.drop_last() =~= before);
            assert(joined(lines) =~= text.drop_last().push('\n'));
        } else if before.len() == 1 {
            assert(joined(lines) =~= before[0].push(text.last()));
        } else {
            assert(lines.drop_last() =~= before.drop_last());
            assert(joined(lines) =~= (joined(before.drop_last()).push('\n') + before.last()).push(
                text.last(),
            ));
        }
        assert(text.drop_last().push(text.last()) =~= text);
    }
}

/// The texts of `lines`, in order.
pub open spec fn line_texts(lines: Seq<String>) -> Seq<Seq<char>> {
    lines.map_values(|line: String| line@)
}

impl View for History {
    type V = Past;

    closed spec fn view(&self) -> Past {
        Past { place: self.0 as nat, lines: line_texts(self.1@) }
    }
}

impl History {
    /// A history without lines.
    pub fn new() -> (history: Self)
        ensures
            history@ == (Past { place: 0, lines: Seq::empty() }),
    {
        let history = Self(0, Vec::new());
        assert(line_texts(history.1@) =~= Seq::<Seq<char>>::empty());
        history
    }

    /// The history of the lines of `string`, at its first line.
    pub fn from(string: &str) -> (history: Self)
        ensures
            history@ == (Past { place: 0, lines: lines_of(string@) }),
    {
        let text = characters(string);
        let mut lines: Vec<String> = Vec::new();
        let mut line = String::new();
        let mut i: usize = 0;
        assert(text@.take(0) =~= Seq::<char>::empty());
        assert(line_texts(lines@).push(line@) =~= seq![Seq::<char>::empty()]);
        while i < text.len()
            invariant
                i <= text@.len(),
                line_texts(lines@).push(line@) == lines_of(text@.take(i as int)),
            decreases text@.len() - i,
        {
            let c = text[i];
            let ghost before = lines_of(text@.take(i as int));
            proof {
                assert(text@.take(i + 1).drop_last() =~= text@.take(i as int));
                assert(text@.take(i + 1).last() == c);
                assert(before.drop_last() =~= line_texts(lines@));
            }
            if c == '\n' {
                let ghost done = lines@;
                lines.push(line);
                assert(line_texts(lines@) =~= line_texts(done).push(line@));
                line = String::new();
            } else {
                line.push(c);
            }
            i += 1;
        }
        assert(text@.take(i as int) =~= text@);
        let ghost done = lines@;
        lines.push(line);
        assert(line_texts(lines@) =~= line_texts(done).push(line@));
        Self(0, lines)
    }

    /// The lines as one text, with a line feed between each line and the
    /// next.
    pub fn to_string(&self) -> (text: String)
        ensures
            text@ == joined(self@.lines),
    {
        let mut buffer = String::new();
        let len = self.1.len();
        let mut i: usize = 0;
        let ghost lines = line_texts(self.1@);
        assert(lines.take(0) =~= Seq::<Seq<char>>::empty());
        while i < len
            invariant
                i <= len == self.1@.len(),
                lines == line_texts(self.1@),
                buffer@ == joined(lines.take(i as int)),
            decreases len - i,
        {
            proof {
                assert(lines.take(i + 1).drop_last() =~= lines.take(i as int));
                assert(lines.take(i + 1).last() == self.1@[i as int]@);
            }
            if i > 0 {
                buffer.push('\n');
            }
            buffer.append(self.1[i].as_str());
            proof {
                if i == 0 {
                    assert(buffer@ =~= self.1@[0]@);
                }
            }
            i += 1;
        }
        assert(lines.take(i as int) =~= lines);
        buffer
    }

    /// Adds `command` as the newest line.
    pub fn insert(&mut self, command: String)
        ensures
            final(self)@ == (Past {
                place: old(self)@.place,
                lines: old(self)@.lines.push(command@),
            }),
    {
        self.1.push(command);
        assert(line_texts(self.1@) =~= line_texts(old(self).1@).push(command@));
    }

    /// Hands out the line at the place and moves the place on by one; at
    /// the end of the lines there is none to hand out and the place stays.
    pub fn next(&mut self) -> (line: Option<&str>)
        ensures
            match line {
                Some(text) => old(self)@.place < old(self)@.lines.len() && text@ == old(self)@.lines[old(self)@.place as int] && final(self)@ == (Past {
                    place: old(self)@.place + 1,
                    lines: old(self)@.lines,
                }),
                None => old(self)@.place >= old(self)@.lines.len() && final(self)@ == old(self)@,
            },
    {
        let place = self.0;
        if place < self.1.len() {
            self.0 = place + 1;
            Some(self.1[place].as_str())
        } else {
            None
        }
    }

    /// Moves the place back by one, unless it is at the first line, and
    /// hands out the line there, if there is one.
    pub fn prev(&mut self) -> (line: Option<&str>)
        ensures
            final(self)@ == (Past {
                place: if old(self)@.place > 0 {
                    (old(self)@.place - 1) as nat
                } else {
                    0
                },
                lines: old(self)@.lines,
            }),
            match line {
                Some(text) => final(self)@.place < final(self)@.lines.len() && text@ == final(self)@.lines[final(self)@.place as int],
                None => final(self)@.place >= final(self)@.lines.len(),
            },
    {
        if self.0 > 0 {
            self.0 -= 1;
        }
        let place = self.0;
        if place < self.1.len() {
            Some(self.1[place].as_str())
        } else {
            None
        }
    }
}

} // verus!
