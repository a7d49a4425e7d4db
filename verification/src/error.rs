//! Errors of the socket calls that a mux asks for, and of the mux itself.

use vstd::prelude::*;

verus! {

/// What an error of a socket call means to a mux.
#[derive(Clone, Copy, Debug, PartialEq, Eq, Structural)]
pub enum ErrorKind {
    /// The address is taken by another socket.
    AddrInUse,
    /// The call would have to wait, on a socket that does not wait.
    WouldBlock,
    /// Anything else.
    Other,
}

/// A failed socket call: what its error means, and the error itself, which a mux hands on as it is.
#[derive(Debug)]
pub struct Fault<E> {
    pub kind: ErrorKind,
    pub error: E,
}

/// Why a mux or a sender could not be made.
#[derive(Debug)]
pub enum MuxError<E> {
    /// A call failed.
    Os(Fault<E>),
    /// Every name that was tried belongs to another socket.
    NoUniqueName,
}

impl<E> MuxError<E> {
    /// The kind of this error.
    pub open spec fn spec_kind(self) -> ErrorKind {
        match self {
            MuxError::Os(fault) => fault.kind,
            MuxError::NoUniqueName => ErrorKind::AddrInUse,
        }
    }

    /// The kind of this error. Running out of names counts as an address in use.
    pub fn kind(&self) -> (r: ErrorKind)
        ensures
            r == self.spec_kind(),
    {
        match self {
            MuxError::Os(fault) => fault.kind,
            MuxError::NoUniqueName => ErrorKind::AddrInUse,
        }
    }

    /// What to tell about an error that no call reported.
    pub fn message(&self) -> (r: Option<&'static str>)
        ensures
            match self {
                MuxError::Os(_) => r is None,
                MuxError::NoUniqueName => r matches Some(text) && text@
                    == "couldn't create unique socket name"@,
            },
    {
        match self {
            MuxError::Os(_) => None,
            MuxError::NoUniqueName => Some("couldn't create unique socket name"),
        }
    }
}

} // verus!
