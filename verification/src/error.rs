//! The errors that end a run.

use vstd::prelude::*;
use vstd::string::*;

verus! {

/// A failed operation on the filesystem, as far as a run needs to know it.
#[derive(Clone, Debug, PartialEq, Eq)]
pub struct IoFailure {
    /// Whether the operation failed because the path does not exist.
    pub not_found: bool,
    /// The operating system's words for the failure.
    pub detail: String,
}

/// The mathematical value of an [`IoFailure`].
pub struct IoFailureView {
    pub not_found: bool,
    pub detail: Seq<char>,
}

impl View for IoFailure {
    type V = IoFailureView;

    open spec fn view(&self) -> IoFailureView {
        IoFailureView { not_found: self.not_found, detail: self.detail@ }
    }
}

/// Why a run ended early. Every one of these is fatal.
#[derive(Clone, Debug, PartialEq, Eq)]
pub enum Error {
    /// An operation on the filesystem failed.
    Io(IoFailure),
    /// A path named by the user does not exist.
    NotFound(String),
    /// The path is a symbolic link; links are never followed.
    SymlinkDenied(String),
    /// The path is a directory named by the user, and recursion was not asked for.
    RecursionNotRequested(String),
    /// Something that should not happen did, while the walk was at this path.
    InvariantViolation(String),
}

/// The mathematical value of an [`Error`].
pub enum ErrorView {
    Io(IoFailureView),
    NotFound(Seq<char>),
    SymlinkDenied(Seq<char>),
    RecursionNotRequested(Seq<char>),
    InvariantViolation(Seq<char>),
}

impl View for Error {
    type V = ErrorView;

    open spec fn view(&self) -> ErrorView {
        match self {
            Error::Io(failure) => ErrorView::Io(failure@),
            Error::NotFound(path) => ErrorView::NotFound(path@),
            Error::SymlinkDenied(path) => ErrorView::SymlinkDenied(path@),
            Error::RecursionNotRequested(path) => ErrorView::RecursionNotRequested(path@),
            Error::InvariantViolation(path) => ErrorView::InvariantViolation(path@),
        }
    }
}

impl ErrorView {
    /// The line that tells the user of this error.
    pub open spec fn message(self) -> Seq<char> {
        match self {
            ErrorView::Io(failure) => failure.detail,
            ErrorView::NotFound(path) => "'"@ + path + "' is not a valid file or directory"@,
            ErrorView::SymlinkDenied(path) => "cannot degreen symlink '"@ + path + "'"@,
            ErrorView::RecursionNotRequested(path) => "cannot degreen directory '"@ + path + "'"@,
            ErrorView::InvariantViolation(path) => "internal error: unexpected state at '"@ + path
                + "'"@,
        }
    }
}

/// `before`, then `path`, then `after`.
pub fn quote_path(before: &str, path: &str, after: &str) -> (text: String)
    ensures
        text@ == before@ + path@ + after@,
{
    let mut text = String::from_str(before);
    text.append(path);
    text.append(after);
    text
}

impl Error {
    /// The line that tells the user of this error.
    pub fn message(&self) -> (text: String)
        ensures
            text@ == self@.message(),
    {
        match self {
            Error::Io(failure) => failure.detail.clone(),
            Error::NotFound(path) => quote_path(
                "'",
                path.as_str(),
                "' is not a valid file or directory",
            ),
            Error::SymlinkDenied(path) => quote_path(
                "cannot degreen symlink '",
                path.as_str(),
                "'",
            ),
            Error::RecursionNotRequested(path) => quote_path(
                "cannot degreen directory '",
                path.as_str(),
                "'",
            ),
            Error::InvariantViolation(path) => quote_path(
                "internal error: unexpected state at '",
                path.as_str(),
                "'",
            ),
        }
    }
}

} // verus!
