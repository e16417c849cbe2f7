//! The line that is being typed, and the keys that change it.
//!
//! Reading the terminal and drawing on it are the caller's part. Here is
//! what a key means and what it does to the line.

use vstd::prelude::*;

verus! {

/// What the bytes that the terminal sends mean.
#[derive(Debug, Clone, Copy, PartialEq, Eq, Structural)]
pub enum Key {
    /// Nothing.
    Ignore,
    /// Give up the line and leave.
    Interrupt,
    /// The line is finished.
    Enter,
    /// The arrow keys.
    Up,
    Down,
    Right,
    Left,
    /// Delete the byte before the cursor.
    Backspace,
    /// Put this byte at the cursor.
    Byte(u8),
}

/// How far an escape sequence has been read.
#[derive(Debug, Clone, Copy, PartialEq, Eq, Structural)]
pub enum Decoder {
    /// Not within one.
    Start,
    /// Behind the escape byte.
    Escape,
    /// Behind the escape byte and `[`.
    Bracket,
}

/// The state behind `byte`, and the key that `byte` completes, if it
/// completes one; `None` stands for a byte that did not come.
///
/// The escape byte, `[` and one of `A` to `D` make an arrow key. An escape
/// sequence that goes on in any other way means nothing.
pub open spec fn decoded(state: Decoder, byte: Option<u8>) -> (Decoder, Option<Key>) {
    match state {
        Decoder::Start => match byte {
            None => (Decoder::Start, Some(Key::Ignore)),
            Some(b) => if b == 27 {
                (Decoder::Escape, None)
            } else if b == 0 {
                (Decoder::Start, Some(Key::Ignore))
            } else if b == 3 {
                (Decoder::Start, Some(Key::Interrupt))
            } else if b == 10 {
                (Decoder::Start, Some(Key::Enter))
            } else if b == 127 {
                (Decoder::Start, Some(Key::Backspace))
            } else {
                (Decoder::Start, Some(Key::Byte(b)))
            },
        },
        Decoder::Escape => if byte == Some(91u8) {
            (Decoder::Bracket, None)
        } else {
            (Decoder::Start, Some(Key::Ignore))
        },
        Decoder::Bracket => (
            Decoder::Start,
            Some(
                if byte == Some(65u8) {
                    Key::Up
                } else if byte == Some(66u8) {
                    Key::Down
                } else if byte == Some(67u8) {
                    Key::Right
                } else if byte == Some(68u8) {
                    Key::Left
                } else {
                    Key::Ignore
                },
            ),
        ),
    }
}

impl Decoder {
    /// A decoder that is not within an escape sequence.
    pub fn new() -> (decoder: Self)
        ensures
            decoder == Decoder::Start,
    {
        Decoder::Start
    }

    /// Takes the next byte, or `None` where none came, and hands out the
    /// key that it completes, if it completes one.
    pub fn feed(&mut self, byte: Option<u8>) -> (key: Option<Key>)
        ensures
            (*final(self), key) == decoded(*old(self), byte),
    {
        match *self {
            Decoder::Start => match byte {
                None => Some(Key::Ignore),
                Some(b) => {
                    if b == 27 {
                        *self = Decoder::Escape;
                        None
                    } else if b == 0 {
                        Some(Key::Ignore)
                    } else if b == 3 {
                        Some(Key::Interrupt)
                    } else if b == 10 {
                        Some(Key::Enter)
                    } else if b == 127 {
                        Some(Key::Backspace)
                    } else {
                        Some(Key::Byte(b))
                    }
                },
            },
            Decoder::Escape => match byte {
                Some(91) => {
                    *self = Decoder::Bracket;
                    None
                },
                _ => {
                    *self = Decoder::Start;
                    Some(Key::Ignore)
                },
            },
            Decoder::Bracket => {
                *self = Decoder::Start;
                match byte {
                    Some(65) => Some(Key::Up),
                    Some(66) => Some(Key::Down),
                    Some(67) => Some(Key::Right),
                    Some(68) => Some(Key::Left),
                    _ => Some(Key::Ignore),
                }
            },
        }
    }
}

/// The line that is being typed: its bytes and the place of the cursor.
pub struct Line {
    buffer: Vec<u8>,
    buffer_index: usize,
}

/// A line as a mathematical value.
pub struct Typed {
    /// The bytes of the line.
    pub bytes: Seq<u8>,
    /// The number of bytes before the cursor, at most the number of bytes.
    pub cursor: nat,
}

impl View for Line {
    type V = Typed;

    closed spec fn view(&self) -> Typed {
        Typed {
            bytes: self.buffer@,
            cursor: if self.buffer_index <= self.buffer@.len() {
                self.buffer_index as nat
            } else {
                self.buffer@.len()
            },
        }
    }
}

impl Line {
    /// An empty line.
    pub fn new() -> (line: Self)
        ensures
            line@ == (Typed { bytes: Seq::empty(), cursor: 0 }),
    {
        Self { buffer: Vec::new(), buffer_index: 0 }
    }

    /// The place of the cursor.
    pub fn cursor(&self) -> (cursor: usize)
        ensures
            cursor == self@.cursor,
            cursor <= self@.bytes.len(),
    {
        if self.buffer_index <= self.buffer.len() {
            self.buffer_index
        } else {
            self.buffer.len()
        }
    }

    /// The bytes of the line.
    pub fn bytes(&self) -> (bytes: &Vec<u8>)
        ensures
            bytes@ == self@.bytes,
    {
        &self.buffer
    }

    /// Empties the line.
    pub fn clear(&mut self)
        ensures
            final(self)@ == (Typed { bytes: Seq::empty(), cursor: 0 }),
    {
        self.buffer.clear();
        self.buffer_index = 0;
    }

    /// Puts `bytes` in the place of the line, with the cursor before them.
    pub fn set(&mut self, bytes: Vec<u8>)
        ensures
            final(self)@ == (Typed { bytes: bytes@, cursor: 0 }),
    {
        self.buffer = bytes;
        self.buffer_index = 0;
    }

    /// Puts `byte` at the cursor and the cursor behind it. A line that
    /// cannot grow stays as it is.
    pub fn insert(&mut self, byte: u8) -> (done: bool)
        ensures
            done == (old(self)@.bytes.len() < usize::MAX),
            final(self)@ == if done {
                Typed {
                    bytes: old(self)@.bytes.insert(old(self)@.cursor as int, byte),
                    cursor: old(self)@.cursor + 1,
                }
            } else {
                old(self)@
            },
    {
        let cursor = self.cursor();
        if self.buffer.len() == usize::MAX {
            return false;
        }
        self.buffer.insert(cursor, byte);
        self.buffer_index = cursor + 1;
        true
    }

    /// Deletes the byte before the cursor and moves the cursor back by
    /// one; at the start of the line nothing changes.
    pub fn backspace(&mut self) -> (done: bool)
        ensures
            done == (old(self)@.cursor > 0),
            final(self)@ == if done {
                Typed {
                    bytes: old(self)@.bytes.remove(old(self)@.cursor - 1),
                    cursor: (old(self)@.cursor - 1) as nat,
                }
            } else {
                old(self)@
            },
    {
        let cursor = self.cursor();
        if cursor == 0 {
            return false;
        }
        self.buffer.remove(cursor - 1);
        self.buffer_index = cursor - 1;
        true
    }

    /// Moves the cursor right by one; at the end of the line nothing
    /// changes.
    pub fn right(&mut self) -> (done: bool)
        ensures
            done == (old(self)@.cursor < old(self)@.bytes.len()),
            final(self)@ == if done {
                Typed { bytes: old(self)@.bytes, cursor: old(self)@.cursor + 1 }
            } else {
                old(self)@
            },
    {
        let cursor = self.cursor();
        if cursor < self.buffer.len() {
            self.buffer_index = cursor + 1;
            true
        } else {
            false
        }
    }

    /// Moves the cursor left by one; at the start of the line nothing
    /// changes.
    pub fn left(&mut self) -> (done: bool)
        ensures
            done == (old(self)@.cursor > 0),
            final(self)@ == if done {
                Typed { bytes: old(self)@.bytes, cursor: (old(self)@.cursor - 1) as nat }
            } else {
                old(self)@
            },
    {
        let cursor = self.cursor();
        if cursor > 0 {
            self.buffer_index = cursor - 1;
            true
        } else {
            false
        }
    }
}

} // verus!
