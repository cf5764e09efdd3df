//! The commands that the interpreter carries out itself, and what `type` and
//! `cd` answer once the caller has looked at the file system.

use vstd::prelude::*;
use crate::text::{chars_of, same_text, string_of};

verus! {

/// The commands that the interpreter carries out itself.
#[derive(Clone, Copy, Debug, PartialEq, Eq, Structural)]
pub enum Builtin {
    Cd,
    Echo,
    Exit,
    Type,
    Pwd,
}

impl Builtin {
    /// The name by which the command is called.
    pub open spec fn name_text(self) -> Seq<char> {
        match self {
            Builtin::Cd => "cd"@,
            Builtin::Echo => "echo"@,
            Builtin::Exit => "exit"@,
            Builtin::Type => "type"@,
            Builtin::Pwd => "pwd"@,
        }
    }

    /// The name by which the command is called.
    pub fn name(self) -> (name: &'static str)
        ensures
            name@ == self.name_text(),
    {
        match self {
            Builtin::Cd => "cd",
            Builtin::Echo => "echo",
            Builtin::Exit => "exit",
            Builtin::Type => "type",
            Builtin::Pwd => "pwd",
        }
    }
}

/// The builtin called `name`, if there is one.
pub open spec fn builtin_named(name: Seq<char>) -> Option<Builtin> {
    if name == "cd"@ {
        Some(Builtin::Cd)
    } else if name == "echo"@ {
        Some(Builtin::Echo)
    } else if name == "exit"@ {
        Some(Builtin::Exit)
    } else if name == "type"@ {
        Some(Builtin::Type)
    } else if name == "pwd"@ {
        Some(Builtin::Pwd)
    } else {
        None
    }
}

/// The builtin called `name`, if there is one.
pub fn builtin(name: &str) -> (found: Option<Builtin>)
    ensures
        found == builtin_named(name@),
{
    if same_text(name, "cd") {
        Some(Builtin::Cd)
    } else if same_text(name, "echo") {
        Some(Builtin::Echo)
    } else if same_text(name, "exit") {
        Some(Builtin::Exit)
    } else if same_text(name, "type") {
        Some(Builtin::Type)
    } else if same_text(name, "pwd") {
        Some(Builtin::Pwd)
    } else {
        None
    }
}

/// The five names are five different texts, and each names its own builtin.
pub proof fn builtin_names_are_distinct(b: Builtin)
    ensures
        builtin_named(b.name_text()) == Some(b),
{
    reveal_strlit("cd");
    reveal_strlit("echo");
    reveal_strlit("exit");
    reveal_strlit("type");
    reveal_strlit("pwd");
    assert("cd"@.len() == 2 && "pwd"@.len() == 3);
    assert("echo"@[1] == 'c' && "exit"@[1] == 'x' && "type"@[1] == 'y');
}

/// The characters of an optional string, if it is there.
pub open spec fn text_of(s: Option<&str>) -> Option<Seq<char>> {
    match s {
        Some(t) => Some(t@),
        None => None,
    }
}

/// What `type` says of a name that is no builtin: the path at which it was
/// found, or that it was not found.
pub open spec fn described(name: Seq<char>, found: Option<Seq<char>>) -> Seq<char> {
    match found {
        Some(path) => name + " is "@ + path,
        None => name + ": not found"@,
    }
}

/// What `type` says of a name that is no builtin, given the path at which a
/// program of that name was found, if one was.
pub fn describe(name: &str, found: Option<&str>) -> (line: String)
    ensures
        line@ == described(name@, text_of(found)),
{
    let mut line = String::from_str(name);
    match found {
        Some(path) => {
            line.append(" is ");
            line.append(path);
        },
        None => {
            line.append(": not found");
        },
    }
    line
}

/// What is said of a command that is neither a builtin nor found on the
/// search path.
pub fn unknown_command(name: &str) -> (line: String)
    ensures
        line@ == name@ + ": command not found"@,
{
    let mut line = String::from_str(name);
    line.append(": command not found");
    line
}

/// What `cd` does with its argument.
#[derive(Clone, Debug, PartialEq, Eq)]
pub enum CdPlan {
    /// Make this directory the working directory.
    Enter(String),
    /// Change nothing and print this line.
    Report(String),
    /// The argument needs the home directory, and none is known.
    NoHome,
}

/// A [`CdPlan`] as a mathematical value.
pub enum CdPlanView {
    Enter(Seq<char>),
    Report(Seq<char>),
    NoHome,
}

impl View for CdPlan {
    type V = CdPlanView;

    open spec fn view(&self) -> CdPlanView {
        match self {
            CdPlan::Enter(path) => CdPlanView::Enter(path@),
            CdPlan::Report(line) => CdPlanView::Report(line@),
            CdPlan::NoHome => CdPlanView::NoHome,
        }
    }
}

/// What `cd` does with the argument `path`, where `is_dir` says whether
/// `path` names a directory and `home` is the home directory, if known.
///
/// A directory is entered as it is. Otherwise a leading `~` stands for the
/// home directory. Anything else is reported as missing, with the argument
/// as it was given.
pub open spec fn cd_plan_of(path: Seq<char>, is_dir: bool, home: Option<Seq<char>>) -> CdPlanView {
    if is_dir {
        CdPlanView::Enter(path)
    } else if path.len() > 0 && path[0] == '~' {
        match home {
            Some(h) => CdPlanView::Enter(h + path.skip(1)),
            None => CdPlanView::NoHome,
        }
    } else {
        CdPlanView::Report("cd: "@ + path + ": No such file or directory"@)
    }
}

/// Decides what `cd` does with its argument, given what the caller found
/// out: whether the argument names a directory, and the home directory.
pub fn plan_cd(path: &str, is_dir: bool, home: Option<&str>) -> (plan: CdPlan)
    ensures
        plan@ == cd_plan_of(path@, is_dir, text_of(home)),
{
    if is_dir {
        return CdPlan::Enter(String::from_str(path));
    }
    let chars = chars_of(path);
    if chars.len() > 0 && chars[0] == '~' {
        match home {
            Some(h) => {
                let rest = string_of(&chars, 1, chars.len());
                let mut target = String::from_str(h);
                target.append(rest.as_str());
                CdPlan::Enter(target)
            },
            None => CdPlan::NoHome,
        }
    } else {
        let mut line = String::from_str("cd: ");
        line.append(path);
        line.append(": No such file or directory");
        CdPlan::Report(line)
    }
}

/// Where the argument of `cd` names no directory and does not begin with
/// `~`, no directory is entered, and the line printed holds the argument as
/// it was given.
pub proof fn missing_directory_is_reported(path: Seq<char>, home: Option<Seq<char>>)
    requires
        path.len() == 0 || path[0] != '~',
    ensures
        cd_plan_of(path, false, home) == CdPlanView::Report(
            "cd: "@ + path + ": No such file or directory"@,
        ),
{
}

} // verus!
