//! Waiting for a child process through a descriptor that becomes readable when it exits.

use crate::error::{Error, ErrorKind};
use vstd::prelude::*;

verus! {

/// Where a wait is.
#[derive(Debug, Clone, Copy, PartialEq, Eq, Structural)]
pub enum WaitPidState {
    /// The descriptor is not open.
    Init(i32),
    /// The descriptor is open.
    Polling(i32),
    /// The wait is over.
    Done,
}

/// What a wait calls for next.
#[derive(Debug, Clone, Copy, PartialEq, Eq)]
pub enum WaitPidStep {
    /// Open and register the descriptor of this process.
    Open(i32),
    /// Read from the descriptor.
    Read,
    /// Wait until the descriptor is readable.
    Wait,
    /// Ask for the status of this process.
    Reap(i32),
    /// Nothing now.
    Pending,
    /// The wait is over.
    Ready(Result<i32, Error>),
}

/// How the driver runs operations.
#[derive(Debug, Clone, Copy, PartialEq, Eq, Structural)]
pub enum Mode {
    /// By readiness: the descriptor is read before it is waited for.
    Poll,
    /// By completion: the descriptor is waited for first.
    Completion,
}

/// What asking for a status comes to: the call gives the process where there is a status, and
/// zero where there is none yet.
pub fn reap_outcome(pid: Result<i32, Error>, status: i32) -> (r: Result<i32, Error>)
    ensures
        r == match pid {
            Err(error) => Err::<i32, Error>(error),
            Ok(pid) => if pid == 0 {
                Err(Error::Custom(ErrorKind::WouldBlock, "child has not exited yet"))
            } else {
                Ok(status)
            },
        },
{
    match pid {
        Err(error) => Err(error),
        Ok(pid) => if pid == 0 {
            Err(Error::Custom(ErrorKind::WouldBlock, "child has not exited yet"))
        } else {
            Ok(status)
        },
    }
}

/// A wait for a child process.
pub struct WaitPidOp {
    state: WaitPidState,
}

impl WaitPidOp {
    pub closed spec fn state(&self) -> WaitPidState {
        self.state
    }

    /// A wait that has not begun.
    pub fn new(pid: u32) -> (op: Self)
        ensures
            op.state() == WaitPidState::Init(pid as i32),
    {
        WaitPidOp { state: WaitPidState::Init(pid as i32) }
    }

    /// The first step of a poll.
    pub fn poll(&self) -> (step: WaitPidStep)
        ensures
            step == match self.state() {
                WaitPidState::Init(pid) => WaitPidStep::Open(pid),
                WaitPidState::Polling(_) => WaitPidStep::Read,
                WaitPidState::Done => WaitPidStep::Ready(
                    Err(Error::Custom(ErrorKind::Other, "WaitPidOp already completed")),
                ),
            },
    {
        match self.state {
            WaitPidState::Init(pid) => WaitPidStep::Open(pid),
            WaitPidState::Polling(_) => WaitPidStep::Read,
            WaitPidState::Done => WaitPidStep::Ready(
                Err(Error::Custom(ErrorKind::Other, "WaitPidOp already completed")),
            ),
        }
    }

    /// Goes on after the descriptor was to be opened. In completion mode a failure is final.
    pub fn on_opened(&mut self, pid: i32, mode: Mode, opened: Result<(), Error>) -> (step:
        WaitPidStep)
        requires
            old(self).state() == WaitPidState::Init(pid),
        ensures
            match opened {
                Ok(()) => {
                    &&& final(self).state() == WaitPidState::Polling(pid)
                    &&& step == match mode {
                        Mode::Poll => WaitPidStep::Read,
                        Mode::Completion => WaitPidStep::Wait,
                    }
                },
                Err(error) => {
                    &&& final(self).state() == match mode {
                        Mode::Poll => WaitPidState::Init(pid),
                        Mode::Completion => WaitPidState::Done,
                    }
                    &&& step == WaitPidStep::Ready(Err(error))
                },
            },
    {
        match opened {
            Ok(()) => {
                self.state = WaitPidState::Polling(pid);
                match mode {
                    Mode::Poll => WaitPidStep::Read,
                    Mode::Completion => WaitPidStep::Wait,
                }
            },
            Err(error) => {
                match mode {
                    Mode::Poll => {},
                    Mode::Completion => {
                        self.state = WaitPidState::Done;
                    },
                }
                WaitPidStep::Ready(Err(error))
            },
        }
    }

    /// Goes on after the descriptor was read: it is waited for only where it is not readable.
    pub fn on_read(&mut self, pid: i32, read: Result<usize, Error>) -> (step: WaitPidStep)
        requires
            old(self).state() == WaitPidState::Polling(pid),
        ensures
            final(self).state() == old(self).state(),
            step == match read {
                Err(error) => if error.would_block() {
                    WaitPidStep::Wait
                } else {
                    WaitPidStep::Reap(pid)
                },
                Ok(_) => WaitPidStep::Reap(pid),
            },
    {
        match read {
            Err(error) => if error.is_would_block() {
                WaitPidStep::Wait
            } else {
                WaitPidStep::Reap(pid)
            },
            Ok(_) => WaitPidStep::Reap(pid),
        }
    }

    /// Goes on after the descriptor was to be waited for.
    pub fn on_waiting(&self, submitted: Result<(), Error>) -> (step: WaitPidStep)
        ensures
            step == match submitted {
                Ok(()) => WaitPidStep::Pending,
                Err(error) => WaitPidStep::Ready(Err(error)),
            },
    {
        match submitted {
            Ok(()) => WaitPidStep::Pending,
            Err(error) => WaitPidStep::Ready(Err(error)),
        }
    }

    /// Ends the wait with what asking for the status came to.
    pub fn on_reaped(&mut self, status: Result<i32, Error>) -> (step: WaitPidStep)
        ensures
            final(self).state() == WaitPidState::Done,
            step == WaitPidStep::Ready(status),
    {
        self.state = WaitPidState::Done;
        WaitPidStep::Ready(status)
    }
}

} // verus!
