//! The failures the inventory can report: malformed metadata, unusable
//! registry responses, versions that cannot be found, and invalid include
//! patterns.

use vstd::prelude::*;

verus! {

/// The taxonomy of failures.
#[derive(Debug, Clone, Copy, PartialEq, Eq, Hash, Structural)]
pub enum ErrorKind {
    /// Malformed metadata: a bad composite key or compiler string.
    Parse,
    /// A registry response that does not have the expected shape.
    Response,
    /// No available version satisfies the request.
    NotFound,
    /// An include pattern that is not a valid regular expression.
    Pattern,
}

/// One failure, with the text shown for it. Where the failure concerns a
/// single record, `detail` starts with that record's composite key.
#[derive(Debug, Clone, PartialEq)]
pub struct Error {
    pub kind: ErrorKind,
    pub detail: String,
}

/// The mathematical model of an [`Error`].
pub struct ErrorModel {
    pub kind: ErrorKind,
    pub detail: Seq<char>,
}

impl View for Error {
    type V = ErrorModel;

    open spec fn view(&self) -> ErrorModel {
        ErrorModel { kind: self.kind, detail: self.detail@ }
    }
}

impl DeepView for Error {
    type V = ErrorModel;

    open spec fn deep_view(&self) -> ErrorModel {
        self.view()
    }
}

impl Error {
    /// Package an error kind with its text.
    pub fn new(kind: ErrorKind, detail: String) -> (r: Error)
        ensures
            r@.kind == kind,
            r@.detail == detail@,
    {
        Error { kind, detail }
    }
}

} // verus!
