//! The errors that the crate's own rules give rise to.

use vstd::prelude::*;

verus! {

/// The kind of an error.
#[derive(Debug, Clone, Copy, PartialEq, Eq, Structural)]
pub enum ErrorKind {
    NotFound,
    Unsupported,
    InvalidInput,
    InvalidData,
    WouldBlock,
    UnexpectedEof,
    WriteZero,
    Interrupted,
    TimedOut,
    NotConnected,
    Other,
}

/// An error.
#[derive(Debug, Clone, Copy, PartialEq, Eq)]
pub enum Error {
    /// An operating system error, by its code on that system.
    Os(i32),
    /// An error of a kind, with what it says.
    Custom(ErrorKind, &'static str),
    /// The I/O token is not registered with the driver.
    NotRegistered(usize),
    /// The I/O token is registered for completion mode, not poll mode.
    NotPollMode(usize),
}

/// `libc::EAGAIN` on Linux, which `libc::EWOULDBLOCK` is too.
pub const EAGAIN: i32 = 11;

impl Error {
    /// Whether the error says to try again later, by the codes of Linux.
    pub open spec fn would_block(&self) -> bool {
        match *self {
            Error::Os(code) => code == EAGAIN,
            Error::Custom(kind, _) => kind == ErrorKind::WouldBlock,
            _ => false,
        }
    }

    /// Whether the error says to try again later, by the codes of Linux.
    pub fn is_would_block(&self) -> (is: bool)
        ensures
            is == self.would_block(),
            is == (*self == Error::Os(EAGAIN) || (*self matches Error::Custom(kind, _) && kind
                == ErrorKind::WouldBlock)),
    {
        match self {
            Error::Os(code) => *code == EAGAIN,
            Error::Custom(kind, _) => *kind == ErrorKind::WouldBlock,
            _ => false,
        }
    }

    /// Whether the error is the operating system's, with this code.
    pub fn is_os(&self, code: i32) -> (is: bool)
        ensures
            is == (*self == Error::Os(code)),
    {
        match self {
            Error::Os(c) => *c == code,
            _ => false,
        }
    }

    /// The kind of an error that is not the operating system's.
    pub fn kind(&self) -> (kind: Option<ErrorKind>)
        ensures
            kind == match *self {
                Error::Os(_) => None,
                Error::Custom(kind, _) => Some(kind),
                Error::NotRegistered(_) => Some(ErrorKind::NotFound),
                Error::NotPollMode(_) => Some(ErrorKind::Unsupported),
            },
    {
        match self {
            Error::Os(_) => None,
            Error::Custom(kind, _) => Some(*kind),
            Error::NotRegistered(_) => Some(ErrorKind::NotFound),
            Error::NotPollMode(_) => Some(ErrorKind::Unsupported),
        }
    }
}

} // verus!
