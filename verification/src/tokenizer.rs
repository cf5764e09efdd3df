//! Splitting a command line into words.
//!
//! The rules are those of a scanner that reads one character at a time and
//! remembers the words finished so far, the word in progress, and whether it is
//! inside quotes or right behind a backslash. [`step`] is that scanner's
//! transition, [`run`] applies it to a whole text, and [`tokens_of`] is what a
//! text splits into. [`Lexer`] is the executable scanner.

use vstd::prelude::*;
use crate::text::{texts, texts_push};

verus! {

/// Where the scanner stands with respect to quotes and backslashes.
#[derive(Clone, Copy, Debug, PartialEq, Eq, Structural)]
pub enum Mode {
    /// Outside quotes.
    Plain,
    /// Outside quotes, right behind a backslash.
    Escape,
    /// Inside single quotes.
    Single,
    /// Inside double quotes.
    Double,
    /// Inside double quotes, right behind a backslash.
    DoubleEscape,
}

/// The scanner's state as a mathematical value.
pub struct Scan {
    /// The words finished so far, in order.
    pub done: Seq<Seq<char>>,
    /// The word in progress, if one has begun. A word that has begun may still
    /// be empty: an opening quote begins a word without adding to it.
    pub word: Option<Seq<char>>,
    /// The quoting state.
    pub mode: Mode,
}

/// A character that separates words outside quotes: a space or a newline.
pub open spec fn is_blank(c: char) -> bool {
    c == ' ' || c == '\n'
}

/// The word in progress with `c` added, beginning a word if none has begun.
pub open spec fn grown(word: Option<Seq<char>>, c: char) -> Option<Seq<char>> {
    match word {
        Some(w) => Some(w.push(c)),
        None => Some(seq![c]),
    }
}

/// The word in progress, begun if it was not.
pub open spec fn begun(word: Option<Seq<char>>) -> Option<Seq<char>> {
    match word {
        Some(w) => Some(w),
        None => Some(Seq::empty()),
    }
}

/// The finished words once the word in progress, if any, is closed.
pub open spec fn closed(done: Seq<Seq<char>>, word: Option<Seq<char>>) -> Seq<Seq<char>> {
    match word {
        Some(w) => done.push(w),
        None => done,
    }
}

/// The state before any character is read.
pub open spec fn start() -> Scan {
    Scan { done: Seq::empty(), word: None, mode: Mode::Plain }
}

/// The state after reading `c` in state `s`.
pub open spec fn step(s: Scan, c: char) -> Scan {
    match s.mode {
        Mode::Plain => {
            if c == '\\' {
                Scan { mode: Mode::Escape, ..s }
            } else if c == '\'' {
                Scan { word: begun(s.word), mode: Mode::Single, ..s }
            } else if c == '"' {
                Scan { word: begun(s.word), mode: Mode::Double, ..s }
            } else if is_blank(c) {
                Scan { done: closed(s.done, s.word), word: None, ..s }
            } else {
                Scan { word: grown(s.word, c), ..s }
            }
        },
        Mode::Escape => Scan { word: grown(s.word, c), mode: Mode::Plain, ..s },
        Mode::Single => {
            if c == '\'' {
                Scan { mode: Mode::Plain, ..s }
            } else {
                Scan { word: grown(s.word, c), ..s }
            }
        },
        Mode::Double => {
            if c == '"' {
                Scan { mode: Mode::Plain, ..s }
            } else if c == '\\' {
                Scan { mode: Mode::DoubleEscape, ..s }
            } else {
                Scan { word: grown(s.word, c), ..s }
            }
        },
        Mode::DoubleEscape => {
            if c == '"' || c == '\\' {
                Scan { word: grown(s.word, c), mode: Mode::Double, ..s }
            } else {
                Scan { word: grown(grown(s.word, '\\'), c), mode: Mode::Double, ..s }
            }
        },
    }
}

/// The state after reading all of `input`, in order, from state `s`.
pub open spec fn run(s: Scan, input: Seq<char>) -> Scan
    decreases input.len(),
{
    if input.len() == 0 {
        s
    } else {
        step(run(s, input.drop_last()), input.last())
    }
}

/// What a scan amounts to when the text ends in state `s`: the words, or
/// `None` where a quote is still open or a backslash has nothing behind it.
pub open spec fn outcome(s: Scan) -> Option<Seq<Seq<char>>> {
    if s.mode == Mode::Plain {
        Some(closed(s.done, s.word))
    } else {
        None
    }
}

/// The words that `input` splits into, or `None` where it is incomplete.
pub open spec fn tokens_of(input: Seq<char>) -> Option<Seq<Seq<char>>> {
    outcome(run(start(), input))
}

/// The executable scanner. Text may be fed to it in pieces; the words are
/// taken out at the end.
pub struct Lexer {
    done: Vec<String>,
    word: Option<String>,
    mode: Mode,
}

impl View for Lexer {
    type V = Scan;

    closed spec fn view(&self) -> Scan {
        Scan {
            done: texts(self.done@),
            word: match self.word {
                Some(w) => Some(w@),
                None => None,
            },
            mode: self.mode,
        }
    }
}

impl Lexer {
    /// A scanner that has read nothing.
    pub fn new() -> (lexer: Lexer)
        ensures
            lexer@ == start(),
    {
        let lexer = Lexer { done: Vec::new(), word: None, mode: Mode::Plain };
        assert(lexer@.done =~= Seq::empty());
        lexer
    }

    /// The quoting state the scanner is in.
    pub fn mode(&self) -> (mode: Mode)
        ensures
            mode == self@.mode,
    {
        self.mode
    }

    /// Whether the text read so far is a complete command.
    pub fn is_complete(&self) -> (complete: bool)
        ensures
            complete == outcome(self@).is_some(),
    {
        match self.mode {
            Mode::Plain => true,
            _ => false,
        }
    }

    fn grow(&mut self, c: char)
        ensures
            final(self)@ == (Scan { word: grown(old(self)@.word, c), ..old(self)@ }),
    {
        let mut word = match self.word.take() {
            Some(w) => w,
            None => String::new(),
        };
        word.push(c);
        self.word = Some(word);
        assert(final(self)@.word == grown(old(self)@.word, c)) by {
            assert(Seq::<char>::empty().push(c) =~= seq![c]);
        }
    }

    fn begin(&mut self)
        ensures
            final(self)@ == (Scan { word: begun(old(self)@.word), ..old(self)@ }),
    {
        if self.word.is_none() {
            self.word = Some(String::new());
        }
    }

    fn close(&mut self)
        ensures
            final(self)@ == (Scan {
                done: closed(old(self)@.done, old(self)@.word),
                word: None,
                ..old(self)@
            }),
    {
        match self.word.take() {
            Some(w) => {
                proof {
                    texts_push(self.done@, w);
                }
                self.done.push(w);
            },
            None => {},
        }
    }

    /// Reads one character.
    pub fn push(&mut self, c: char)
        ensures
            final(self)@ == step(old(self)@, c),
    {
        match self.mode {
            Mode::Plain => {
                if c == '\\' {
                    self.mode = Mode::Escape;
                } else if c == '\'' {
                    self.begin();
                    self.mode = Mode::Single;
                } else if c == '"' {
                    self.begin();
                    self.mode = Mode::Double;
                } else if c == ' ' || c == '\n' {
                    self.close();
                } else {
                    self.grow(c);
                }
            },
            Mode::Escape => {
                self.grow(c);
                self.mode = Mode::Plain;
            },
            Mode::Single => {
                if c == '\'' {
                    self.mode = Mode::Plain;
                } else {
                    self.grow(c);
                }
            },
            Mode::Double => {
                if c == '"' {
                    self.mode = Mode::Plain;
                } else if c == '\\' {
                    self.mode = Mode::DoubleEscape;
                } else {
                    self.grow(c);
                }
            },
            Mode::DoubleEscape => {
                if !(c == '"' || c == '\\') {
                    self.grow('\\');
                }
                self.grow(c);
                self.mode = Mode::Double;
            },
        }
    }

    /// Reads all of `text`, in order.
    pub fn feed(&mut self, text: &str)
        ensures
            final(self)@ == run(old(self)@, text@),
    {
        let ghost before = self@;
        for c in it: text.chars()
            invariant
                it.seq() == text@,
                self@ == run(before, text@.take(it.index())),
        {
            proof {
                let read = text@.take(it.index() + 1);
                assert(read.drop_last() =~= text@.take(it.index()));
                assert(read.last() == c);
            }
            self.push(c);
        }
        assert(text@.take(text@.len() as int) =~= text@);
    }

    /// Ends the scan: the words, or `None` where the text read is incomplete.
    pub fn finish(self) -> (words: Option<Vec<String>>)
        ensures
            match words {
                Some(v) => outcome(self@) == Some(texts(v@)),
                None => outcome(self@).is_none(),
            },
    {
        let mut lexer = self;
        match lexer.mode {
            Mode::Plain => {
                lexer.close();
                Some(lexer.done)
            },
            _ => None,
        }
    }
}

/// Splits a command line into its words.
///
/// Outside quotes, spaces and newlines separate words and a backslash makes
/// the next character an ordinary one. Inside single quotes every character
/// is ordinary. Inside double quotes a backslash is dropped before `"` and
/// `\` and kept before anything else. Quoted and unquoted pieces that touch
/// form one word, and a pair of quotes with nothing between them is an empty
/// word. The result is `None` exactly where the line is incomplete: a quote is
/// still open, or the line ends in a backslash that has nothing to act on.
pub fn parse_line(line: &str) -> (words: Option<Vec<String>>)
    ensures
        match words {
            Some(v) => tokens_of(line@) == Some(texts(v@)),
            None => tokens_of(line@).is_none(),
        },
{
    let mut lexer = Lexer::new();
    lexer.feed(line);
    lexer.finish()
}

} // verus!
