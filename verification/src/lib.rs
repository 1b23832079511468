//! An interactive command interpreter: lines of input are parsed into a
//! statement tree of simple commands joined by `;`, `&&` and `||`, and the
//! tree is evaluated with shell-style short-circuit semantics, dispatching
//! each leaf to a builtin or to an external process run by the caller.

pub mod ast;
pub mod builtin;
pub mod error;
pub mod eval;
pub mod grammar;
pub mod parser;

pub use ast::Node;
pub use ast::Statement;

pub use error::ErrView;
pub use error::ShellError;
