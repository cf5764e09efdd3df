//! Gathering the lines of one command.
//!
//! A command may span several lines: while a quote is open, the next line
//! belongs to the same command. [`CommandReader`] keeps the text read so far
//! and says, line by line, whether the command is complete.

use vstd::prelude::*;
use crate::text::{texts, trim, trimmed};
use crate::tokenizer::{parse_line, tokens_of};

verus! {

/// What is written, without a line ending, before a command is read.
pub fn prompt() -> (text: &'static str)
    ensures
        text@ == "$ "@,
{
    "$ "
}

/// The text of a command that is not complete yet.
pub struct CommandReader {
    text: String,
}

impl View for CommandReader {
    type V = Seq<char>;

    closed spec fn view(&self) -> Seq<char> {
        self.text@
    }
}

impl CommandReader {
    /// A reader that holds no text.
    pub fn new() -> (reader: CommandReader)
        ensures
            reader@ == Seq::<char>::empty(),
    {
        CommandReader { text: String::new() }
    }

    /// Whether part of a command is held, waiting for more lines.
    pub fn is_waiting(&self) -> (waiting: bool)
        ensures
            waiting == (self@.len() > 0),
    {
        !self.text.as_str().is_empty()
    }

    /// Adds a line, with its line ending, to the text held, and splits the
    /// whole, without the white space at its two ends, into words.
    ///
    /// Where the text is a complete command, the words are returned and the
    /// reader holds no text any more. Where it is not, the result is `None`
    /// and the reader holds the text with the line added.
    pub fn push_line(&mut self, line: &str) -> (words: Option<Vec<String>>)
        ensures
            match words {
                Some(v) => {
                    &&& tokens_of(trimmed(old(self)@ + line@)) == Some(texts(v@))
                    &&& final(self)@ == Seq::<char>::empty()
                },
                None => {
                    &&& tokens_of(trimmed(old(self)@ + line@)).is_none()
                    &&& final(self)@ == old(self)@ + line@
                },
            },
    {
        self.text.append(line);
        let command = trim(self.text.as_str());
        let words = parse_line(command.as_str());
        if words.is_some() {
            self.text = String::new();
        }
        words
    }
}

} // verus!
