//! The error values that an evaluated statement can fail with.

use vstd::prelude::*;

verus! {

/// The failure carried by an `Err` execution status.  A `Result<(), ShellError>`
/// is the status of one evaluated statement: `Ok(())` is success, `Err(e)` is a
/// failure that short-circuit logic and the prompt react to.
#[derive(Debug, Clone)]
pub enum ShellError {
    /// The `cd` builtin failed; the payload is the diagnostic text.
    Cd(String),
    /// The `false` builtin, which always fails.
    False,
    /// An external command could not be started; the payload describes why.
    IOError(String),
    /// A line of input did not match the statement grammar.
    Parse(String),
    /// An external command ran to completion but exited unsuccessfully.
    NonZeroExit,
}

/// Specification-level mirror of `ShellError`, with text as `Seq<char>`.
pub enum ErrView {
    Cd(Seq<char>),
    False,
    IOError(Seq<char>),
    Parse(Seq<char>),
    NonZeroExit,
}

impl DeepView for ShellError {
    type V = ErrView;

    open spec fn deep_view(&self) -> ErrView {
        match self {
            ShellError::Cd(m) => ErrView::Cd(m.deep_view()),
            ShellError::False => ErrView::False,
            ShellError::IOError(m) => ErrView::IOError(m.deep_view()),
            ShellError::Parse(m) => ErrView::Parse(m.deep_view()),
            ShellError::NonZeroExit => ErrView::NonZeroExit,
        }
    }
}

/// The diagnostic text that `ShellError::message` returns for each error.
pub open spec fn err_text(e: ErrView) -> Seq<char> {
    match e {
        ErrView::Cd(m) => m,
        ErrView::False => "false"@,
        ErrView::IOError(m) => m,
        ErrView::Parse(m) => m,
        ErrView::NonZeroExit => "command exited with a non-zero status"@,
    }
}

impl ShellError {
    /// The diagnostic text to surface to the user for this error.
    pub fn message(&self) -> (r: String)
        ensures
            r.deep_view() == err_text(self.deep_view()),
    {
        match self {
            ShellError::Cd(m) => m.clone(),
            ShellError::False => String::from_str("false"),
            ShellError::IOError(m) => m.clone(),
            ShellError::Parse(m) => m.clone(),
            ShellError::NonZeroExit => String::from_str("command exited with a non-zero status"),
        }
    }
}

/// The status of one evaluated statement, as the model sees it.
pub open spec fn status_view(s: Result<(), ShellError>) -> Result<(), ErrView> {
    match s {
        Ok(u) => Ok(u),
        Err(e) => Err(e.deep_view()),
    }
}

} // verus!
