use vstd::prelude::*;

verus! {

/// The class of a failed file-system operation.
#[derive(Clone, Copy, Debug, PartialEq, Eq, Structural)]
pub enum IoKind {
    NotFound,
    PermissionDenied,
    AlreadyExists,
    InvalidInput,
    InvalidData,
    UnexpectedEof,
    WriteZero,
    StorageFull,
    Interrupted,
    Other,
}

/// Why a background task ended without producing its result.
#[derive(Clone, Copy, Debug, PartialEq, Eq, Structural)]
pub enum JoinFailure {
    Cancelled,
    Panicked,
}

/// A failed create, open, write, flush or remove, as plain values.
#[derive(Clone, Debug, PartialEq, Eq)]
pub enum IoFailure {
    /// The operating system refused the operation.
    Os { kind: IoKind, message: String },
    /// The task that was to perform the operation did not run to its end.
    Task(JoinFailure),
}

impl IoFailure {
    /// The class of the failure; a task that did not end falls under `Other`.
    pub open spec fn spec_kind(&self) -> IoKind {
        match self {
            IoFailure::Os { kind, .. } => *kind,
            IoFailure::Task(_) => IoKind::Other,
        }
    }

    #[verifier::when_used_as_spec(spec_kind)]
    pub fn kind(&self) -> (kind: IoKind)
        ensures
            kind == self.spec_kind(),
    {
        match self {
            IoFailure::Os { kind, .. } => *kind,
            IoFailure::Task(_) => IoKind::Other,
        }
    }
}

/// What went wrong with an HTTP exchange.
#[derive(Clone, Debug, PartialEq, Eq)]
pub enum HttpCause {
    /// The server answered, with a status outside the success class.
    Status(u16),
    /// No complete answer arrived.
    Transport(String),
}

/// Every failure the library reports, by the stage that failed.
#[derive(Clone, Debug, PartialEq, Eq)]
pub enum BinstallError {
    UrlParse(String),
    Http { method: String, url: String, cause: HttpCause },
    Io(IoFailure),
    Decode(String),
    TaskJoin(JoinFailure),
    UserAbort,
}

impl From<IoFailure> for BinstallError {
    fn from(failure: IoFailure) -> (error: BinstallError) {
        BinstallError::Io(failure)
    }
}

impl vstd::std_specs::convert::FromSpecImpl<IoFailure> for BinstallError {
    open spec fn obeys_from_spec() -> bool {
        true
    }

    open spec fn from_spec(failure: IoFailure) -> BinstallError {
        BinstallError::Io(failure)
    }
}

impl From<JoinFailure> for BinstallError {
    fn from(failure: JoinFailure) -> (error: BinstallError) {
        BinstallError::TaskJoin(failure)
    }
}

impl vstd::std_specs::convert::FromSpecImpl<JoinFailure> for BinstallError {
    open spec fn obeys_from_spec() -> bool {
        true
    }

    open spec fn from_spec(failure: JoinFailure) -> BinstallError {
        BinstallError::TaskJoin(failure)
    }
}

} // verus!
