//! Deciding what a tokenized command line does.
//!
//! [`switcher`] looks at the words of one line and returns the next [`Step`]:
//! either the whole outcome (stop, print a line, report an arity error) or a
//! request for work on the operating system (read the home directory, resolve
//! a directory, search the path list, spawn a program). The caller performs
//! that work and hands its outcome to [`cd_handler`], [`type_handler`] or
//! [`exec_handler`], which finish the decision.
//!
//! [`type_handler`]: crate::resolver::type_handler

use vstd::prelude::*;
use vstd::string::StringExecFns;
use crate::resolver::{builtin_named, builtin_of, is_builtin, Builtin, TypeResult};
use crate::text::{join_with, join_words, push_char, same_text, texts};

verus! {

/// The interpreter's own state: the directory that `pwd` prints and that
/// relative `cd` targets are resolved against. Only `cd` changes it; the
/// process's real working directory is never changed.
pub struct ShellState {
    pub current_dir: String,
}

/// A builtin was given the wrong number of arguments.
#[derive(Debug)]
pub struct ArgumentCountError {
    pub command: String,
    pub expected: u8,
}

/// The decimal digits.
pub open spec fn digits() -> Seq<char> {
    seq!['0', '1', '2', '3', '4', '5', '6', '7', '8', '9']
}

/// `n` written in decimal.
pub open spec fn decimal(n: nat) -> Seq<char>
    decreases n,
{
    if n < 10 {
        seq![digits()[n as int]]
    } else {
        decimal(n / 10).push(digits()[(n % 10) as int])
    }
}

fn digit_char(d: u8) -> (c: char)
    requires
        d < 10,
    ensures
        c == digits()[d as int],
{
    match d {
        0 => '0',
        1 => '1',
        2 => '2',
        3 => '3',
        4 => '4',
        5 => '5',
        6 => '6',
        7 => '7',
        8 => '8',
        _ => '9',
    }
}

fn push_decimal(s: &mut String, n: u8)
    ensures
        final(s)@ == old(s)@ + decimal(n as nat),
    decreases n,
{
    if n >= 10 {
        push_decimal(s, n / 10);
    }
    push_char(s, digit_char(n % 10));
    proof {
        if n < 10 {
            assert(old(s)@.push(digits()[n as int]) =~= old(s)@ + decimal(n as nat));
        } else {
            assert(old(s)@ + decimal((n / 10) as nat) + seq![digits()[(n % 10) as int]]
                =~= old(s)@ + decimal(n as nat));
        }
    }
}

impl ArgumentCountError {
    /// The line that reports the error: `<command>: requires <n> argument`,
    /// with `arguments` for any count but one.
    pub open spec fn text(&self) -> Seq<char> {
        self.command@ + ": requires "@ + decimal(self.expected as nat) + if self.expected == 1 {
            " argument"@
        } else {
            " arguments"@
        }
    }

    /// The line that reports the error.
    pub fn message(&self) -> (r: String)
        ensures
            r@ == self.text(),
    {
        let mut r = self.command.clone();
        r.append(": requires ");
        push_decimal(&mut r, self.expected);
        if self.expected == 1 {
            r.append(" argument");
        } else {
            r.append(" arguments");
        }
        r
    }
}

/// What a command line does next.
#[derive(Debug)]
pub enum Step {
    /// Nothing: the line had no words.
    Continue,
    /// End the loop.
    Stop,
    /// Print this line.
    Print(String),
    /// Search the path list for this name, then report it with
    /// `type_handler`.
    LookUpType(String),
    /// Change to the home directory, then finish with `cd_handler`.
    ChangeToHome,
    /// Resolve this argument against the current directory, then finish with
    /// `cd_handler`.
    ChangeTo(String),
    /// Search the path list for `command`, then finish with `exec_handler`.
    Run { command: String, args: Vec<String> },
}

/// [`Step`] in terms of character sequences.
pub enum StepView {
    Continue,
    Stop,
    Print(Seq<char>),
    LookUpType(Seq<char>),
    ChangeToHome,
    ChangeTo(Seq<char>),
    Run { command: Seq<char>, args: Seq<Seq<char>> },
}

impl View for Step {
    type V = StepView;

    open spec fn view(&self) -> StepView {
        match self {
            Step::Continue => StepView::Continue,
            Step::Stop => StepView::Stop,
            Step::Print(s) => StepView::Print(s@),
            Step::LookUpType(s) => StepView::LookUpType(s@),
            Step::ChangeToHome => StepView::ChangeToHome,
            Step::ChangeTo(s) => StepView::ChangeTo(s@),
            Step::Run { command, args } => StepView::Run { command: command@, args: texts(args@) },
        }
    }
}

/// What a line of `words` does when the current directory is `dir`: the next
/// step, or the command and argument count of an arity error.
pub open spec fn dispatch(words: Seq<Seq<char>>, dir: Seq<char>) -> Result<
    StepView,
    (Seq<char>, u8),
> {
    if words.len() == 0 {
        Ok(StepView::Continue)
    } else {
        let name = words[0];
        let args = words.drop_first();
        match builtin_named(name) {
            Some(Builtin::Exit) => if args.len() == 0 {
                Ok(StepView::Stop)
            } else {
                Err((name, 0))
            },
            Some(Builtin::Echo) => Ok(StepView::Print(join_with(args, ' '))),
            Some(Builtin::Type) => if args.len() != 1 {
                Err((name, 1))
            } else if builtin_named(args[0]) is Some {
                Ok(StepView::Print(args[0] + " is a shell builtin"@))
            } else {
                Ok(StepView::LookUpType(args[0]))
            },
            Some(Builtin::Pwd) => Ok(StepView::Print(dir)),
            Some(Builtin::Cd) => if args.len() != 1 {
                Err((name, 1))
            } else if args[0] == "~"@ {
                Ok(StepView::ChangeToHome)
            } else {
                Ok(StepView::ChangeTo(args[0]))
            },
            None => Ok(StepView::Run { command: name, args }),
        }
    }
}

/// The words after the first.
fn arguments(words: &Vec<String>) -> (r: Vec<String>)
    requires
        words@.len() >= 1,
    ensures
        texts(r@) == texts(words@).drop_first(),
{
    let mut r: Vec<String> = Vec::new();
    let mut i: usize = 1;
    while i < words.len()
        invariant
            1 <= i <= words@.len(),
            texts(r@) == texts(words@).subrange(1, i as int),
        decreases words@.len() - i,
    {
        let ghost before = r@;
        r.push(words[i].clone());
        proof {
            assert(r@ == before.push(words@[i as int]));
            assert(texts(r@) =~= texts(before).push(words@[i as int]@));
            assert(texts(words@).subrange(1, i + 1) =~= texts(words@).subrange(1, i as int).push(
                words@[i as int]@,
            ));
        }
        i = i + 1;
    }
    proof {
        assert(texts(words@).subrange(1, words@.len() as int) =~= texts(words@).drop_first());
    }
    r
}

/// Decides what the line of `words` does, with `state` as the interpreter's
/// state.
pub fn switcher(words: &Vec<String>, state: &ShellState) -> (r: Result<Step, ArgumentCountError>)
    ensures
        match r {
            Ok(step) => dispatch(texts(words@), state.current_dir@) == Ok::<
                StepView,
                (Seq<char>, u8),
            >(step@),
            Err(e) => dispatch(texts(words@), state.current_dir@) == Err::<
                StepView,
                (Seq<char>, u8),
            >((e.command@, e.expected)),
        },
{
    if words.len() == 0 {
        return Ok(Step::Continue);
    }
    let command = &words[0];
    let count = words.len() - 1;
    proof {
        assert(texts(words@)[0] == command@);
        assert(texts(words@).drop_first().len() == count);
    }
    match builtin_of(command.as_str()) {
        Some(Builtin::Exit) => {
            if count == 0 {
                Ok(Step::Stop)
            } else {
                Err(ArgumentCountError { command: command.clone(), expected: 0 })
            }
        },
        Some(Builtin::Echo) => {
            let args = arguments(words);
            Ok(Step::Print(join_words(&args)))
        },
        Some(Builtin::Type) => {
            if count != 1 {
                return Err(ArgumentCountError { command: command.clone(), expected: 1 });
            }
            let arg = &words[1];
            proof {
                assert(texts(words@).drop_first()[0] == arg@);
            }
            if is_builtin(arg.as_str()) {
                Ok(Step::Print(TypeResult::Builtin(arg.clone()).describe()))
            } else {
                Ok(Step::LookUpType(arg.clone()))
            }
        },
        Some(Builtin::Pwd) => Ok(Step::Print(state.current_dir.clone())),
        Some(Builtin::Cd) => {
            if count != 1 {
                return Err(ArgumentCountError { command: command.clone(), expected: 1 });
            }
            let arg = &words[1];
            proof {
                assert(texts(words@).drop_first()[0] == arg@);
            }
            if same_text(arg.as_str(), "~") {
                Ok(Step::ChangeToHome)
            } else {
                Ok(Step::ChangeTo(arg.clone()))
            }
        },
        None => Ok(Step::Run { command: command.clone(), args: arguments(words) }),
    }
}

/// How an operating-system call failed, as far as `cd` cares.
#[derive(Clone, Copy, Debug, PartialEq, Eq, Structural)]
pub enum FsFailure {
    NotFound,
    InvalidInput,
    NotADirectory,
    Other,
}

/// What the work requested for `cd` gave.
#[derive(Debug)]
pub enum CdEvent {
    /// The home directory, for `cd ~`.
    Home(String),
    /// The target resolved against the current directory: its canonical
    /// path, which names a directory.
    Resolved(String),
    /// Resolving the target, or opening it as a directory, failed.
    Failed(FsFailure),
}

/// The failures that only mean the target is not an existing directory.
pub open spec fn is_missing_directory(f: FsFailure) -> bool {
    f == FsFailure::NotFound || f == FsFailure::InvalidInput || f == FsFailure::NotADirectory
}

/// Finishes `cd arg` with the outcome of its work. A new directory is
/// recorded; a target that does not exist or is no directory leaves the
/// state as it is and gives the line to report; any other failure is
/// returned, for the caller to treat as fatal.
pub fn cd_handler(arg: &str, state: &mut ShellState, event: CdEvent) -> (r: Result<
    Option<String>,
    FsFailure,
>)
    ensures
        match event {
            CdEvent::Home(dir) => final(state).current_dir@ == dir@ && r is Ok && r->Ok_0
                is None,
            CdEvent::Resolved(dir) => final(state).current_dir@ == dir@ && r is Ok && r->Ok_0
                is None,
            CdEvent::Failed(f) => {
                &&& final(state).current_dir@ == old(state).current_dir@
                &&& is_missing_directory(f) ==> r is Ok && r->Ok_0 is Some && r->Ok_0->Some_0@
                    == "cd: "@ + arg@ + ": No such file or directory"@
                &&& !is_missing_directory(f) ==> r == Err::<Option<String>, FsFailure>(f)
            },
        },
{
    match event {
        CdEvent::Home(dir) => {
            state.current_dir = dir;
            Ok(None)
        },
        CdEvent::Resolved(dir) => {
            state.current_dir = dir;
            Ok(None)
        },
        CdEvent::Failed(f) => {
            match f {
                FsFailure::Other => Err(f),
                _ => {
                    let mut m = String::from_str("cd: ");
                    m.append(arg);
                    m.append(": No such file or directory");
                    Ok(Some(m))
                },
            }
        },
    }
}

/// What to do with a command that is not a builtin.
#[derive(Debug)]
pub enum Launch {
    /// Spawn it under its name with the words that followed it.
    Spawn,
    /// Report this line: no directory of the path list holds it.
    Report(String),
}

/// Finishes a command that is not a builtin, given what the search of the
/// path list `found` for it.
pub fn exec_handler(command: &str, found: &Option<String>) -> (r: Launch)
    ensures
        found is Some ==> r is Spawn,
        found is None ==> (r matches Launch::Report(m) && m@ == command@ + ": command not found"@),
{
    match found {
        Some(_) => Launch::Spawn,
        None => {
            let mut m = command.to_owned();
            m.append(": command not found");
            Launch::Report(m)
        },
    }
}

} // verus!
