//! Classifying a command name: one of the fixed builtins, a program found in
//! a directory of the path list, or unknown.

use vstd::prelude::*;
use vstd::string::StringExecFns;
use crate::text::{join_with, push_char, same_text, texts};

verus! {

/// The commands carried out in-process.
#[derive(Clone, Copy, Debug, PartialEq, Eq, Structural)]
pub enum Builtin {
    Exit,
    Echo,
    Type,
    Pwd,
    Cd,
}

/// The builtin that a word names, if any.
pub open spec fn builtin_named(name: Seq<char>) -> Option<Builtin> {
    if name == "exit"@ {
        Some(Builtin::Exit)
    } else if name == "echo"@ {
        Some(Builtin::Echo)
    } else if name == "type"@ {
        Some(Builtin::Type)
    } else if name == "pwd"@ {
        Some(Builtin::Pwd)
    } else if name == "cd"@ {
        Some(Builtin::Cd)
    } else {
        None
    }
}

/// The builtin that `name` names, if any.
pub fn builtin_of(name: &str) -> (r: Option<Builtin>)
    ensures
        r == builtin_named(name@),
{
    if same_text(name, "exit") {
        Some(Builtin::Exit)
    } else if same_text(name, "echo") {
        Some(Builtin::Echo)
    } else if same_text(name, "type") {
        Some(Builtin::Type)
    } else if same_text(name, "pwd") {
        Some(Builtin::Pwd)
    } else if same_text(name, "cd") {
        Some(Builtin::Cd)
    } else {
        None
    }
}

/// Whether `name` is one of the builtins.
pub fn is_builtin(name: &str) -> (r: bool)
    ensures
        r == builtin_named(name@) is Some,
{
    builtin_of(name).is_some()
}

/// How a command name resolves.
#[derive(Debug)]
pub enum TypeResult {
    Builtin(String),
    Executable { command: String, path_to_command: String },
    Unknown(String),
}

/// The separator between a directory and a name in a path.
pub const SEPARATOR: char = '/';

impl TypeResult {
    /// The line that reports this resolution to the user.
    pub open spec fn text(&self) -> Seq<char> {
        match self {
            TypeResult::Builtin(name) => name@ + " is a shell builtin"@,
            TypeResult::Executable { command, path_to_command } => command@ + " is "@
                + path_to_command@ + seq![SEPARATOR] + command@,
            TypeResult::Unknown(name) => name@ + ": not found"@,
        }
    }

    /// The line that reports this resolution to the user.
    pub fn describe(&self) -> (r: String)
        ensures
            r@ == self.text(),
    {
        match self {
            TypeResult::Builtin(name) => {
                let mut r = name.clone();
                r.append(" is a shell builtin");
                r
            },
            TypeResult::Executable { command, path_to_command } => {
                let mut r = command.clone();
                r.append(" is ");
                r.append(path_to_command.as_str());
                push_char(&mut r, SEPARATOR);
                r.append(command.as_str());
                r
            },
            TypeResult::Unknown(name) => {
                let mut r = name.clone();
                r.append(": not found");
                r
            },
        }
    }
}

/// Resolves `arg`. `found` is what a search of the path list gave for it:
/// the first directory that holds an executable file of that name. It is
/// consulted only when `arg` is not a builtin.
pub fn type_handler(arg: &str, found: Option<String>) -> (r: TypeResult)
    ensures
        match r {
            TypeResult::Builtin(name) => builtin_named(arg@) is Some && name@ == arg@,
            TypeResult::Executable { command, path_to_command } => {
                &&& builtin_named(arg@) is None
                &&& found is Some
                &&& command@ == arg@
                &&& path_to_command@ == found->Some_0@
            },
            TypeResult::Unknown(name) => builtin_named(arg@) is None && found is None && name@
                == arg@,
        },
{
    if is_builtin(arg) {
        TypeResult::Builtin(arg.to_owned())
    } else {
        match found {
            Some(dir) => TypeResult::Executable { command: arg.to_owned(), path_to_command: dir },
            None => TypeResult::Unknown(arg.to_owned()),
        }
    }
}

/// Splits a path-list value into its directories, in order, at each `:`.
/// The value is never empty of entries: an empty value is one empty entry.
pub fn split_path_list(list: &str) -> (r: Vec<String>)
    ensures
        r@.len() >= 1,
        join_with(texts(r@), ':') == list@,
        forall|i: int| 0 <= i < r@.len() ==> !(#[trigger] r@[i])@.contains(':'),
{
    let mut parts: Vec<String> = Vec::new();
    let mut current = String::new();
    for c in it: list.chars()
        invariant
            it.seq() == list@,
            join_with(texts(parts@.push(current)), ':') == list@.take(it.index() as int),
            !current@.contains(':'),
            forall|i: int| 0 <= i < parts@.len() ==> !(#[trigger] parts@[i])@.contains(':'),
    {
        let ghost k = it.index() as int;
        let ghost before = texts(parts@.push(current));
        proof {
            assert(list@.take(k + 1) =~= list@.take(k).push(c));
        }
        if c == ':' {
            parts.push(current);
            current = String::new();
            proof {
                let after = texts(parts@.push(current));
                assert(after.drop_last() =~= before);
                assert(after.last() =~= Seq::<char>::empty());
                assert(join_with(after, ':') =~= join_with(before, ':') + seq![':']);
                assert(!current@.contains(':'));
            }
        } else {
            let ghost old_current = current@;
            push_char(&mut current, c);
            proof {
                let after = texts(parts@.push(current));
                assert(after.drop_last() =~= before.drop_last());
                if parts@.len() == 0 {
                    assert(after =~= seq![current@]);
                    assert(before =~= seq![old_current]);
                } else {
                    assert(join_with(after, ':') =~= join_with(before, ':').push(c));
                }
                assert(!current@.contains(':')) by {
                    assert forall|j: int| 0 <= j < current@.len() implies current@[j] != ':' by {
                        if j < old_current.len() {
                            assert(current@[j] == old_current[j]);
                        }
                    }
                }
            }
        }
    }
    proof {
        assert(list@.take(list@.len() as int) =~= list@);
    }
    parts.push(current);
    parts
}

/// A file that the owner, its group or anyone else may execute.
pub open spec fn executable_file(is_file: bool, mode: u32) -> bool {
    is_file && (mode & 0o100 != 0 || mode & 0o010 != 0 || mode & 0o001 != 0)
}

/// Whether a candidate with these properties can be run: it is a regular
/// file with at least one executable permission bit in `mode`.
pub fn is_executable(is_file: bool, mode: u32) -> (r: bool)
    ensures
        r == executable_file(is_file, mode),
{
    proof {
        assert((mode & 0o111 != 0) == (mode & 0o100 != 0 || mode & 0o010 != 0 || mode & 0o001
            != 0)) by (bit_vector);
    }
    is_file && mode & 0o111 != 0
}

/// The first directory whose candidate is executable: `usable[i]` tells
/// whether `dirs[i]` holds an executable file of the name sought. A directory
/// without a flag counts as not holding one.
pub fn first_executable(dirs: &Vec<String>, usable: &Vec<bool>) -> (r: Option<String>)
    ensures
        match r {
            Some(d) => exists|k: int|
                0 <= k < dirs@.len() && k < usable@.len() && usable@[k] && d@ == dirs@[k]@
                    && forall|j: int| 0 <= j < k ==> !usable@[j],
            None => forall|j: int| 0 <= j < dirs@.len() && j < usable@.len() ==> !usable@[j],
        },
{
    let mut i: usize = 0;
    while i < dirs.len() && i < usable.len()
        invariant
            i <= dirs@.len(),
            i <= usable@.len(),
            forall|j: int| 0 <= j < i ==> !usable@[j],
        decreases dirs@.len() - i,
    {
        if usable[i] {
            return Some(dirs[i].clone());
        }
        i = i + 1;
    }
    None
}

} // verus!
