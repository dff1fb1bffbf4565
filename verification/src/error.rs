//! The two ways in which a run can fail.

use vstd::prelude::*;
use vstd::std_specs::convert::FromSpecImpl;
use crate::file_text::{FileText, FileTextView};
use crate::span::Span;

verus! {

/// The classes of file-system failure that the driver tells apart.
#[derive(Clone, Copy, Debug, PartialEq, Eq, Structural)]
pub enum IoErrorKind {
    /// The file or directory does not exist.
    NotFound,
    /// The operation was blocked for want of permission.
    PermissionDenied,
    /// Any other failure.
    Other,
}

/// What an `IoError` stands for.
pub ghost struct IoErrorView {
    pub kind: IoErrorKind,
    pub message: Seq<char>,
}

/// A failure of the environment: its class and its description.
#[derive(Clone, Debug, PartialEq, Eq)]
pub struct IoError {
    pub kind: IoErrorKind,
    pub message: String,
}

impl View for IoError {
    type V = IoErrorView;

    open spec fn view(&self) -> IoErrorView {
        IoErrorView { kind: self.kind, message: self.message@ }
    }
}

impl IoError {
    /// A failure of the given class with the given description.
    pub fn new(kind: IoErrorKind, message: String) -> (error: IoError)
        ensures
            error@.kind == kind,
            error@.message == message@,
    {
        IoError { kind, message }
    }

    /// The class of the failure.
    pub fn kind(&self) -> (kind: IoErrorKind)
        ensures
            kind == self@.kind,
    {
        self.kind
    }
}

/// What an `Error` stands for.
pub ghost enum ErrorView {
    Source(FileTextView, Seq<char>, Span),
    Io(IoErrorView),
}

/// A failure of a run.
#[derive(Clone, Debug, PartialEq, Eq)]
pub enum Error {
    /// The content of an input is at fault: the file, a message, and the
    /// bytes of the file that the message is about.
    Source(FileText, String, Span),
    /// The environment is at fault.
    Io(IoError),
}

impl View for Error {
    type V = ErrorView;

    open spec fn view(&self) -> ErrorView {
        match self {
            Error::Source(file, message, span) => ErrorView::Source(file@, message@, *span),
            Error::Io(error) => ErrorView::Io(error@),
        }
    }
}

impl From<IoError> for Error {
    fn from(from: IoError) -> (error: Error) {
        Error::Io(from)
    }
}

impl FromSpecImpl<IoError> for Error {
    open spec fn obeys_from_spec() -> bool {
        true
    }

    open spec fn from_spec(from: IoError) -> Error {
        Error::Io(from)
    }
}

/// What the outcome of a run stands for.
pub open spec fn outcome_view(outcome: Result<(), Error>) -> Result<(), ErrorView> {
    match outcome {
        Ok(()) => Ok(()),
        Err(error) => Err(error@),
    }
}

} // verus!
