//! The errors of manifest parsing, discovery and execution.
use vstd::prelude::*;

use crate::text::{decimal, decimal_text};

verus! {

/// A process exit code, as a task reports it and as the return-code map maps it.
pub type RetCode = isize;

/// Everything that can stop a parse or a run.
#[derive(Debug)]
pub enum Error {
    /// A flag line whose name is not understood (the whole line).
    InvalidTag(String),
    /// A `@retmap` value, or a part of one, that is not a list of `int=>int`.
    InvalidRetMapDefinition(String),
    /// A task terminator with no open task, or a manifest with no task.
    EmptyEntry,
    /// A flag line before any task was opened (the whole line).
    FlagBeforeCommand(String),
    /// A manifest with no commands.
    NoCommands,
    /// A header field where the header has already ended.
    InvalidHeaderField(String),
    /// A task could not be started (the system's reason).
    FailedToExec(String),
    /// An input or output operation failed (the system's reason).
    IoFailed(String),
    /// The directory where the manifest search starts is not one.
    InvalidDir(String),
    /// No manifest was found above the start directory.
    NotFound(String),
    /// A task finished with this non-zero (mapped) code.
    ExitWithExitCode(RetCode),
    /// A task was ended by this signal.
    ExitWithSignal(RetCode),
    /// The `@outfile` of a task could not be shown (the file, the system's reason).
    UnableToReadOutfile(String, String),
}

/// An [`Error`] with its texts as character sequences.
pub enum ErrorView {
    InvalidTag(Seq<char>),
    InvalidRetMapDefinition(Seq<char>),
    EmptyEntry,
    FlagBeforeCommand(Seq<char>),
    NoCommands,
    InvalidHeaderField(Seq<char>),
    FailedToExec(Seq<char>),
    IoFailed(Seq<char>),
    InvalidDir(Seq<char>),
    NotFound(Seq<char>),
    ExitWithExitCode(RetCode),
    ExitWithSignal(RetCode),
    UnableToReadOutfile(Seq<char>, Seq<char>),
}

impl View for Error {
    type V = ErrorView;

    open spec fn view(&self) -> ErrorView {
        match self {
            Error::InvalidTag(s) => ErrorView::InvalidTag(s@),
            Error::InvalidRetMapDefinition(s) => ErrorView::InvalidRetMapDefinition(s@),
            Error::EmptyEntry => ErrorView::EmptyEntry,
            Error::FlagBeforeCommand(s) => ErrorView::FlagBeforeCommand(s@),
            Error::NoCommands => ErrorView::NoCommands,
            Error::InvalidHeaderField(s) => ErrorView::InvalidHeaderField(s@),
            Error::FailedToExec(s) => ErrorView::FailedToExec(s@),
            Error::IoFailed(s) => ErrorView::IoFailed(s@),
            Error::InvalidDir(s) => ErrorView::InvalidDir(s@),
            Error::NotFound(s) => ErrorView::NotFound(s@),
            Error::ExitWithExitCode(c) => ErrorView::ExitWithExitCode(*c),
            Error::ExitWithSignal(c) => ErrorView::ExitWithSignal(*c),
            Error::UnableToReadOutfile(f, s) => ErrorView::UnableToReadOutfile(f@, s@),
        }
    }
}

/// The view of a result whose error is an [`Error`].
pub open spec fn result_view<T: View>(r: Result<T, Error>) -> Result<T::V, ErrorView> {
    match r {
        Ok(v) => Ok(v@),
        Err(e) => Err(e@),
    }
}

/// The text that reports an error.
pub open spec fn error_text(e: ErrorView) -> Seq<char> {
    match e {
        ErrorView::InvalidTag(s) => "Tag was not understood: "@ + s,
        ErrorView::InvalidRetMapDefinition(s) => "Unable to parse retmap from: "@ + s,
        ErrorView::EmptyEntry => "Empty entry"@,
        ErrorView::FlagBeforeCommand(s) => "Found tag before command "@ + s,
        ErrorView::NoCommands => "No commands in file"@,
        ErrorView::InvalidHeaderField(s) => s,
        ErrorView::FailedToExec(s) => "Failed to exec: "@ + s,
        ErrorView::IoFailed(s) => s,
        ErrorView::InvalidDir(p) => "Invalid directory '"@ + p + "'"@,
        ErrorView::NotFound(p) => "Unable to locate .upbuild from '"@ + p + "'"@,
        ErrorView::ExitWithExitCode(c) => "Process exited with code: "@ + decimal_text(c as int),
        ErrorView::ExitWithSignal(c) => "Process exited with signal: "@ + decimal_text(c as int),
        ErrorView::UnableToReadOutfile(f, s) => "Unable to read @outfile="@ + f + ": "@ + s,
    }
}

fn joined(a: &str, b: &str) -> (r: String)
    ensures
        r@ == a@ + b@,
{
    let mut r = a.to_string();
    r.append(b);
    r
}

impl Error {
    /// The text that reports this error.
    pub fn message(&self) -> (r: String)
        ensures
            r@ == error_text(self@),
    {
        match self {
            Error::InvalidTag(s) => joined("Tag was not understood: ", s.as_str()),
            Error::InvalidRetMapDefinition(s) => joined("Unable to parse retmap from: ", s.as_str()),
            Error::EmptyEntry => "Empty entry".to_string(),
            Error::FlagBeforeCommand(s) => joined("Found tag before command ", s.as_str()),
            Error::NoCommands => "No commands in file".to_string(),
            Error::InvalidHeaderField(s) => s.clone(),
            Error::FailedToExec(s) => joined("Failed to exec: ", s.as_str()),
            Error::IoFailed(s) => s.clone(),
            Error::InvalidDir(p) => {
                let mut r = joined("Invalid directory '", p.as_str());
                r.append("'");
                r
            },
            Error::NotFound(p) => {
                let mut r = joined("Unable to locate .upbuild from '", p.as_str());
                r.append("'");
                r
            },
            Error::ExitWithExitCode(c) => {
                let d = decimal(*c);
                joined("Process exited with code: ", d.as_str())
            },
            Error::ExitWithSignal(c) => {
                let d = decimal(*c);
                joined("Process exited with signal: ", d.as_str())
            },
            Error::UnableToReadOutfile(f, s) => {
                let mut r = joined("Unable to read @outfile=", f.as_str());
                r.append(": ");
                r.append(s.as_str());
                r
            },
        }
    }
}

} // verus!
