//! The builtin commands and their dispatch table.
//!
//! Lookup is an exact match on the unmodified command name; every other name
//! resolves to an external command.  The builtins that touch the operating
//! environment (`cd`, `pwd`) only decide here; performing the change or the
//! printing is the caller's side of the evaluator's action protocol.

use vstd::prelude::*;

use crate::error::ShellError;

verus! {

/// The `true` builtin: always succeeds, no side effects.
pub fn te() -> (r: Result<(), ShellError>)
    ensures
        r == Ok::<(), ShellError>(()),
{
    Ok(())
}

/// The `false` builtin: always fails, no side effects.
pub fn fe() -> (r: Result<(), ShellError>)
    ensures
        r == Err::<(), ShellError>(ShellError::False),
{
    Err(ShellError::False)
}

/// The farewell shown when the interpreter is told to exit.
pub fn exit_message() -> (r: &'static str)
    ensures
        r@ == "Goodbye!"@,
{
    "Goodbye!"
}

/// One reserved command name's builtin.
#[derive(Debug, Clone, Copy, PartialEq, Eq, Structural)]
pub enum Builtin {
    /// `cd`: change the working directory.
    Cd,
    /// `pwd`: print the working directory.
    Pwd,
    /// `true`: succeed.
    True,
    /// `false`: fail.
    False,
    /// `exit`: end the interpreter loop.
    Exit,
}

/// The dispatch table: which builtin, if any, a command name resolves to.
pub open spec fn builtin_of(name: Seq<char>) -> Option<Builtin> {
    if name == "exit"@ {
        Some(Builtin::Exit)
    } else if name == "cd"@ {
        Some(Builtin::Cd)
    } else if name == "true"@ {
        Some(Builtin::True)
    } else if name == "false"@ {
        Some(Builtin::False)
    } else if name == "pwd"@ {
        Some(Builtin::Pwd)
    } else {
        None
    }
}

/// Looks a command name up in the dispatch table.
pub fn lookup_builtin(name: &String) -> (r: Option<Builtin>)
    ensures
        r == builtin_of(name.deep_view()),
{
    if name.eq(&String::from_str("exit")) {
        Some(Builtin::Exit)
    } else if name.eq(&String::from_str("cd")) {
        Some(Builtin::Cd)
    } else if name.eq(&String::from_str("true")) {
        Some(Builtin::True)
    } else if name.eq(&String::from_str("false")) {
        Some(Builtin::False)
    } else if name.eq(&String::from_str("pwd")) {
        Some(Builtin::Pwd)
    } else {
        None
    }
}

} // verus!
