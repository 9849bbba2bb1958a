//! Error values with stable categories.
use vstd::prelude::*;

verus! {

/// Stable category of a [`RenderError`].
#[derive(Clone, Copy, Debug, PartialEq, Eq, Structural)]
pub enum ErrorKind {
    /// The score model or the layout request is malformed.
    InvalidInput,
    /// A source file could not be represented.
    Import,
    /// Serialization to an output format failed.
    Export,
    /// A background worker failed.
    Worker,
    /// A documented resource limit was exceeded.
    ResourceLimit,
    /// An internal invariant failed.
    Internal,
}

/// An invalid score, import, or layout request.
#[derive(Clone, Debug)]
pub struct RenderError {
    /// Stable category of the failure.
    pub kind: ErrorKind,
    /// Human-readable description.
    pub message: String,
}

impl RenderError {
    /// Builds an error of the given category.
    pub fn new(kind: ErrorKind, message: String) -> (e: Self)
        ensures
            e.kind == kind,
            e.message@ == message@,
    {
        RenderError { kind, message }
    }

    /// Builds an [`ErrorKind::InvalidInput`] error.
    pub fn invalid_input(message: String) -> (e: Self)
        ensures
            e.kind == ErrorKind::InvalidInput,
            e.message@ == message@,
    {
        RenderError { kind: ErrorKind::InvalidInput, message }
    }

    /// Builds an [`ErrorKind::Export`] error.
    pub fn export(message: String) -> (e: Self)
        ensures
            e.kind == ErrorKind::Export,
            e.message@ == message@,
    {
        RenderError { kind: ErrorKind::Export, message }
    }

    /// Builds an [`ErrorKind::ResourceLimit`] error.
    pub fn resource_limit(message: String) -> (e: Self)
        ensures
            e.kind == ErrorKind::ResourceLimit,
            e.message@ == message@,
    {
        RenderError { kind: ErrorKind::ResourceLimit, message }
    }

    /// Returns the stable category of this error.
    pub fn kind(&self) -> (k: ErrorKind)
        ensures
            k == self.kind,
    {
        self.kind
    }
}

} // verus!
