//! A line-oriented task manifest: its parser, the selection of tasks by tag, and the
//! resolution of each task's arguments, directory and exit code before it is run.
use vstd::prelude::*;

pub mod cfg;
pub mod error;
pub mod exec;
pub mod file;
pub mod path;
pub mod text;

pub use cfg::{Completion, Config};
pub use error::{Error, RetCode};
pub use exec::{Exec, Plan, Runner, Step};
pub use file::{ClassicFile, Cmd, Header};

verus! {

/// A result whose error is this library's [`Error`].
pub type Result<T> = std::result::Result<T, Error>;

} // verus!
