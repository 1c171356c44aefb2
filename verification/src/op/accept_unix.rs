//! Accepting connections on a socket of the Unix family.

use crate::error::Error;
use crate::op::io_util::{attempt, poll_result_or_wait, CompletionOp, PollStep};
use vstd::prelude::*;

verus! {

/// `libc::FD_CLOEXEC` on Linux.
pub const FD_CLOEXEC: i32 = 1;

/// The descriptor flags to set so that a descriptor is closed on exec: none where it is already.
pub fn cloexec_flags(fdflags: i32) -> (set: Option<i32>)
    ensures
        set == if fdflags & 1 == 0 {
            Some(fdflags | 1)
        } else {
            None
        },
{
    if fdflags & FD_CLOEXEC == 0 {
        Some(fdflags | FD_CLOEXEC)
    } else {
        None
    }
}

/// The request to accept a connection.
pub struct AcceptUnixOp {
    pub fd: i32,
    pub completion: CompletionOp,
}

impl AcceptUnixOp {
    /// A request that was not submitted.
    pub fn new(fd: i32) -> (op: Self)
        ensures
            op.fd == fd,
            op.completion.token() is None,
    {
        AcceptUnixOp { fd, completion: CompletionOp::new() }
    }

    /// What an attempt to accept comes to. `cloexec` is what came of having the new descriptor
    /// closed on exec, where the call itself does not.
    pub fn poll_poll(&self, accepted: Result<i32, Error>, cloexec: Result<(), Error>) -> (step:
        PollStep<i32>)
        ensures
            step == match attempt(accepted) {
                PollStep::Ready(Ok(fd)) => match cloexec {
                    Ok(()) => PollStep::Ready(Ok(fd)),
                    Err(error) => PollStep::Ready(Err(error)),
                },
                other => other,
            },
            accepted matches Ok(fd) ==> step == match cloexec {
                Ok(()) => PollStep::Ready(Ok::<i32, Error>(fd)),
                Err(error) => PollStep::Ready(Err::<i32, Error>(error)),
            },
    {
        match poll_result_or_wait(accepted) {
            PollStep::Ready(Ok(fd)) => match cloexec {
                Ok(()) => PollStep::Ready(Ok(fd)),
                Err(error) => PollStep::Ready(Err(error)),
            },
            PollStep::Ready(Err(error)) => PollStep::Ready(Err(error)),
            PollStep::Wait => PollStep::Wait,
        }
    }
}

} // verus!
