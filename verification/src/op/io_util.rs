//! What all operations have in common: waiting for readiness, and for completion.

use crate::driver::CompletionIoResult;
use crate::error::{Error, ErrorKind, EAGAIN};
use vstd::prelude::*;

verus! {

/// What an operation that is tried on the spot calls for.
#[derive(Debug, PartialEq, Eq)]
pub enum PollStep<T> {
    /// It is done.
    Ready(Result<T, Error>),
    /// Wait until the handle is ready, and try again.
    Wait,
}

/// What an attempt comes to: where the handle is not ready, it is waited for.
pub open spec fn attempt<T>(result: Result<T, Error>) -> PollStep<T> {
    match result {
        Ok(value) => PollStep::Ready(Ok(value)),
        Err(error) => if error.would_block() {
            PollStep::Wait
        } else {
            PollStep::Ready(Err(error))
        },
    }
}

/// What an attempt comes to: where the handle is not ready, it is waited for.
pub fn poll_result_or_wait<T>(result: Result<T, Error>) -> (step: PollStep<T>)
    ensures
        step == attempt(result),
        result matches Ok(value) ==> step == PollStep::Ready(Ok::<T, Error>(value)),
        result matches Err(error) ==> step == if error == Error::Os(EAGAIN) || (
        error matches Error::Custom(kind, _) && kind == ErrorKind::WouldBlock) {
            PollStep::Wait
        } else {
            PollStep::Ready(Err::<T, Error>(error))
        },
{
    match result {
        Ok(value) => PollStep::Ready(Ok(value)),
        Err(error) => if error.is_would_block() {
            PollStep::Wait
        } else {
            PollStep::Ready(Err(error))
        },
    }
}

/// The result of a completed operation: a negative one is the negated code of an error.
pub open spec fn completion_outcome(result: i32) -> Result<i32, Error> {
    if result < 0 {
        Err(Error::Os((-result) as i32))
    } else {
        Ok(result)
    }
}

/// The result of a completed operation.
pub fn completion_result(result: i32) -> (r: Result<i32, Error>)
    requires
        result != i32::MIN,
    ensures
        r == completion_outcome(result),
        result >= 0 ==> r == Ok::<i32, Error>(result),
        result < 0 ==> r == Err::<i32, Error>(Error::Os((-result) as i32)),
{
    if result < 0 {
        Err(Error::Os(-result))
    } else {
        Ok(result)
    }
}

/// What an operation that is submitted for completion calls for.
#[derive(Debug, Clone, Copy, PartialEq, Eq, Structural)]
pub enum CompletionAction {
    /// Submit it.
    Submit,
    /// Ask the driver for the result under this token.
    Ask(usize),
}

/// What came of polling an operation that is submitted for completion.
#[derive(Debug, Clone, Copy, PartialEq, Eq)]
pub enum CompletionPoll {
    /// It is under way.
    Pending,
    /// It is under way, and the waker has to be left with the driver.
    PendingWaker(usize),
    /// It is done.
    Ready(Result<i32, Error>),
}

/// An operation that is submitted for completion, by its token while it is under way.
pub struct CompletionOp {
    completion_token: Option<usize>,
}

impl CompletionOp {
    /// The token, while the operation is under way.
    pub closed spec fn token(&self) -> Option<usize> {
        self.completion_token
    }

    /// An operation that was not submitted.
    pub fn new() -> (op: Self)
        ensures
            op.token() is None,
    {
        CompletionOp { completion_token: None }
    }

    /// What the operation calls for: it is submitted once, and asked for from then on.
    pub fn action(&self) -> (action: CompletionAction)
        ensures
            action == match self.token() {
                Some(token) => CompletionAction::Ask(token),
                None => CompletionAction::Submit,
            },
    {
        match self.completion_token {
            Some(token) => CompletionAction::Ask(token),
            None => CompletionAction::Submit,
        }
    }

    /// Goes on after the driver was asked for the result.
    pub fn on_result(&mut self, token: usize, result: Option<i32>) -> (poll: CompletionPoll)
        requires
            old(self).token() == Some(token),
            result != Some(i32::MIN),
        ensures
            match result {
                Some(result) => {
                    &&& poll == CompletionPoll::Ready(completion_outcome(result))
                    &&& result >= 0 ==> poll == CompletionPoll::Ready(Ok::<i32, Error>(result))
                    &&& result < 0 ==> poll == CompletionPoll::Ready(
                        Err::<i32, Error>(Error::Os((-result) as i32)),
                    )
                    &&& final(self).token() is None
                },
                None => {
                    &&& poll == CompletionPoll::PendingWaker(token)
                    &&& final(self).token() == Some(token)
                },
            },
    {
        match result {
            Some(result) => {
                self.completion_token = None;
                CompletionPoll::Ready(completion_result(result))
            },
            None => CompletionPoll::PendingWaker(token),
        }
    }

    /// Goes on after the operation was submitted.
    pub fn on_submitted(&mut self, submitted: CompletionIoResult) -> (poll: CompletionPoll)
        requires
            old(self).token() is None,
            submitted != CompletionIoResult::Done(i32::MIN),
        ensures
            match submitted {
                CompletionIoResult::Done(result) => {
                    &&& poll == CompletionPoll::Ready(completion_outcome(result))
                    &&& result >= 0 ==> poll == CompletionPoll::Ready(Ok::<i32, Error>(result))
                    &&& result < 0 ==> poll == CompletionPoll::Ready(
                        Err::<i32, Error>(Error::Os((-result) as i32)),
                    )
                    &&& final(self).token() is None
                },
                CompletionIoResult::Retry(token) => {
                    &&& poll == CompletionPoll::Pending
                    &&& final(self).token() == Some(token)
                },
                CompletionIoResult::SubmitErr(error) => {
                    &&& poll == CompletionPoll::Ready(Err(error))
                    &&& final(self).token() is None
                },
            },
    {
        match submitted {
            CompletionIoResult::Done(result) => CompletionPoll::Ready(completion_result(result)),
            CompletionIoResult::Retry(token) => {
                self.completion_token = Some(token);
                CompletionPoll::Pending
            },
            CompletionIoResult::SubmitErr(error) => CompletionPoll::Ready(Err(error)),
        }
    }

    /// Gives the operation up: its token, if it is under way, so that the driver drops the result.
    pub fn abandon(&mut self) -> (token: Option<usize>)
        ensures
            token == old(self).token(),
            final(self).token() is None,
    {
        self.completion_token.take()
    }
}

/// The length of a buffer for a queue entry, which holds 32 bits.
pub fn entry_len(len: usize, too_large: &'static str) -> (r: Result<u32, Error>)
    ensures
        r == if len <= u32::MAX {
            Ok::<u32, Error>(len as u32)
        } else {
            Err(Error::Custom(ErrorKind::InvalidInput, too_large))
        },
{
    if len <= 0xffff_ffff {
        Ok(len as u32)
    } else {
        Err(Error::Custom(ErrorKind::InvalidInput, too_large))
    }
}

/// `ERROR_IO_PENDING`, which `WSA_IO_PENDING` is too.
pub const ERROR_IO_PENDING: i32 = 997;

/// `ERROR_HANDLE_EOF`.
pub const ERROR_HANDLE_EOF: i32 = 38;

/// What starting an overlapped operation comes to: one that goes on in the background has started.
pub fn overlapped_outcome(started: Result<(), Error>) -> (r: Result<(), Error>)
    ensures
        r == match started {
            Err(error) if error != Error::Os(ERROR_IO_PENDING) => Err::<(), Error>(error),
            _ => Ok(()),
        },
{
    match started {
        Ok(()) => Ok(()),
        Err(error) => if error.is_os(ERROR_IO_PENDING) {
            Ok(())
        } else {
            Err(error)
        },
    }
}

/// The result of a completed overlapped read: the end of the file is no error.
pub fn overlapped_read_result(result: i32) -> (r: Result<i32, Error>)
    requires
        result != i32::MIN,
    ensures
        r == if result == -ERROR_HANDLE_EOF {
            Ok::<i32, Error>(0)
        } else {
            completion_outcome(result)
        },
        result >= 0 ==> r == Ok::<i32, Error>(result),
        result < 0 && result != -ERROR_HANDLE_EOF ==> r == Err::<i32, Error>(
            Error::Os((-result) as i32),
        ),
{
    if result == -ERROR_HANDLE_EOF {
        Ok(0)
    } else {
        completion_result(result)
    }
}

/// An operation hands back the very result that the kernel gives: every length and every descriptor
/// as it is, and every error by its code.
pub proof fn law_a_result_is_handed_back(result: i32)
    requires
        result != i32::MIN,
    ensures
        result >= 0 ==> completion_outcome(result) == Ok::<i32, Error>(result),
        result < 0 ==> completion_outcome(result) == Err::<i32, Error>(Error::Os((-result) as i32)),
{
}

/// No two results of the kernel are handed back as the same.
pub proof fn law_results_are_told_apart(a: i32, b: i32)
    requires
        a != i32::MIN,
        b != i32::MIN,
        a != b,
    ensures
        completion_outcome(a) != completion_outcome(b),
{
}

/// An attempt is waited for just where the error says that the handle is not ready; whatever else
/// came of it is handed back as it is.
pub proof fn law_an_attempt_waits_only_for_readiness<T>(value: T, code: i32, kind: ErrorKind)
    ensures
        attempt(Ok::<T, Error>(value)) == PollStep::Ready(Ok::<T, Error>(value)),
        attempt(Err::<T, Error>(Error::Os(code))) == if code == EAGAIN {
            PollStep::<T>::Wait
        } else {
            PollStep::Ready(Err::<T, Error>(Error::Os(code)))
        },
        forall|says: &'static str|
            (#[trigger] attempt(Err::<T, Error>(Error::Custom(kind, says))) is Wait) == (kind
                == ErrorKind::WouldBlock),
        forall|token: usize|
            #[trigger] attempt(Err::<T, Error>(Error::NotRegistered(token))) == PollStep::Ready(
                Err::<T, Error>(Error::NotRegistered(token)),
            ),
        forall|token: usize|
            #[trigger] attempt(Err::<T, Error>(Error::NotPollMode(token))) == PollStep::Ready(
                Err::<T, Error>(Error::NotPollMode(token)),
            ),
{
}

} // verus!
