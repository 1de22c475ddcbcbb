use vstd::prelude::*;

verus! {

/// What went wrong, by component: the event source, the launcher.
#[derive(Clone, Copy, Debug, PartialEq, Eq, Structural)]
pub enum ErrorKind {
    /// The bus message is not a signal.
    NotSignal,
    /// The signal does not come from the property-change interface.
    WrongInterface,
    /// The signal carries no object path.
    MissingPath,
    /// No current link has the signal's object path.
    UnknownLink,
    /// The link's description could not be read as a set of attributes.
    AttributeParseFailed,
    /// A script could not be started, or waiting for it failed.
    ExecuteFailed,
    /// A script ran past its timeout and was killed.
    ExecuteTimeout,
    /// The launcher's queue did not accept a job.
    SubmitFailed,
}

/// An error of the broker: its kind and a detail for diagnostics.
#[derive(Debug)]
pub struct Error {
    pub kind: ErrorKind,
    pub detail: String,
}

impl Error {
    pub fn new(kind: ErrorKind, detail: String) -> (r: Error)
        ensures
            r.kind == kind,
            r.detail == detail,
    {
        Error { kind, detail }
    }
}

} // verus!
