//! Deciding what a command asks for.
//!
//! [`dispatch`] looks at the words of a command and names the one thing to do
//! next. It touches nothing outside: printing, looking for programs, changing
//! the working directory and running programs are the caller's part.

use vstd::prelude::*;
use crate::builtins::{builtin, builtin_named, Builtin};
use crate::text::{join_from, joined, texts, texts_push};

verus! {

/// What the caller is to do for a command.
#[derive(Clone, Debug, PartialEq, Eq)]
pub enum Action {
    /// Nothing: the command was empty.
    Idle,
    /// Print this line.
    Print(String),
    /// Print this line as an error.
    Complain(String),
    /// Leave the interpreter.
    Exit,
    /// Print the working directory.
    PrintWorkingDir,
    /// Look for a program of this name on the search path and print what
    /// `type` says of it.
    Describe(String),
    /// Change the working directory as `cd` does for this argument.
    ChangeDir(String),
    /// Look for a program of this name on the search path and run it with
    /// these arguments.
    Run(String, Vec<String>),
}

/// An [`Action`] as a mathematical value.
pub enum ActionView {
    Idle,
    Print(Seq<char>),
    Complain(Seq<char>),
    Exit,
    PrintWorkingDir,
    Describe(Seq<char>),
    ChangeDir(Seq<char>),
    Run(Seq<char>, Seq<Seq<char>>),
}

impl View for Action {
    type V = ActionView;

    open spec fn view(&self) -> ActionView {
        match self {
            Action::Idle => ActionView::Idle,
            Action::Print(line) => ActionView::Print(line@),
            Action::Complain(line) => ActionView::Complain(line@),
            Action::Exit => ActionView::Exit,
            Action::PrintWorkingDir => ActionView::PrintWorkingDir,
            Action::Describe(name) => ActionView::Describe(name@),
            Action::ChangeDir(path) => ActionView::ChangeDir(path@),
            Action::Run(name, args) => ActionView::Run(name@, texts(args@)),
        }
    }
}

/// What `type` and `cd` say when they are given no argument.
pub open spec fn argument_required() -> Seq<char> {
    "Error: argument required"@
}

/// What the builtin `b` asks for when called with the words `args` after
/// its name.
pub open spec fn builtin_action(b: Builtin, args: Seq<Seq<char>>) -> ActionView {
    match b {
        Builtin::Echo => ActionView::Print(joined(args, ' ')),
        Builtin::Exit => ActionView::Exit,
        Builtin::Pwd => ActionView::PrintWorkingDir,
        Builtin::Type => {
            if args.len() == 0 {
                ActionView::Complain(argument_required())
            } else if builtin_named(args[0]) is Some {
                ActionView::Print(args[0] + " is a shell builtin"@)
            } else {
                ActionView::Describe(args[0])
            }
        },
        Builtin::Cd => {
            if args.len() == 0 {
                ActionView::Complain(argument_required())
            } else {
                ActionView::ChangeDir(args[0])
            }
        },
    }
}

/// What a command asks for. The first word is tried as a builtin; a first
/// word that names none is a program to run, with the other words as its
/// arguments.
pub open spec fn action_of(words: Seq<Seq<char>>) -> ActionView {
    if words.len() == 0 {
        ActionView::Idle
    } else {
        match builtin_named(words[0]) {
            Some(b) => builtin_action(b, words.skip(1)),
            None => ActionView::Run(words[0], words.skip(1)),
        }
    }
}

/// Copies of the strings of `words` but the first.
fn arguments(words: &Vec<String>) -> (args: Vec<String>)
    requires
        words.len() > 0,
    ensures
        texts(args@) == texts(words@).skip(1),
{
    let mut args: Vec<String> = Vec::new();
    let mut i: usize = 1;
    assert(texts(args@) =~= texts(words@).subrange(1, 1));
    while i < words.len()
        invariant
            1 <= i <= words.len(),
            texts(args@) == texts(words@).subrange(1, i as int),
        decreases words.len() - i,
    {
        let word = words[i].clone();
        proof {
            texts_push(args@, word);
            assert(texts(words@).subrange(1, i + 1) =~= texts(words@).subrange(1, i as int).push(
                word@,
            ));
        }
        args.push(word);
        i += 1;
    }
    assert(texts(words@).subrange(1, i as int) =~= texts(words@).skip(1));
    args
}

/// Decides what the command made of `words` asks for.
pub fn dispatch(words: &Vec<String>) -> (action: Action)
    ensures
        action@ == action_of(texts(words@)),
{
    if words.len() == 0 {
        return Action::Idle;
    }
    let ghost args = texts(words@).skip(1);
    match builtin(words[0].as_str()) {
        Some(Builtin::Echo) => Action::Print(join_from(words, 1, ' ')),
        Some(Builtin::Exit) => Action::Exit,
        Some(Builtin::Pwd) => Action::PrintWorkingDir,
        Some(Builtin::Type) => {
            if words.len() < 2 {
                Action::Complain(String::from_str("Error: argument required"))
            } else {
                assert(args[0] == words[1]@);
                if builtin(words[1].as_str()).is_some() {
                    let mut line = words[1].clone();
                    line.append(" is a shell builtin");
                    Action::Print(line)
                } else {
                    Action::Describe(words[1].clone())
                }
            }
        },
        Some(Builtin::Cd) => {
            if words.len() < 2 {
                Action::Complain(String::from_str("Error: argument required"))
            } else {
                assert(args[0] == words[1]@);
                Action::ChangeDir(words[1].clone())
            }
        },
        None => Action::Run(words[0].clone(), arguments(words)),
    }
}

/// Asked about a builtin, `type` answers at once that it is one: nothing is
/// looked up, so the answer is the same whatever the search path holds.
pub proof fn type_knows_builtins(words: Seq<Seq<char>>)
    requires
        words.len() >= 2,
        words[0] == "type"@,
        builtin_named(words[1]) is Some,
    ensures
        action_of(words) == ActionView::Print(words[1] + " is a shell builtin"@),
{
    crate::builtins::builtin_names_are_distinct(Builtin::Type);
    assert(words.skip(1)[0] == words[1]);
}

} // verus!
