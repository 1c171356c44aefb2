//! Drivers: which handles are registered, who waits for them, and what an event does.

use crate::error::{Error, ErrorKind};
use std::task::Waker;
use vstd::prelude::*;

pub mod completions;
pub mod iocp;
pub mod mio;
pub mod mock;
pub mod uring;

verus! {

/// How a handle is driven.
#[derive(Debug, Clone, Copy, PartialEq, Eq, Structural)]
pub enum RegistrationMode {
    /// By readiness.
    Poll,
    /// By completion.
    Completion,
}

/// What a handle is waited for.
#[derive(Debug, Clone, Copy, PartialEq, Eq, Structural)]
pub struct Interest {
    pub readable: bool,
    pub writable: bool,
}

/// Which driver it is.
#[derive(Debug, Clone, Copy, PartialEq, Eq, Structural)]
pub enum Backend {
    /// The one for tests, which drives nothing.
    Mock,
    /// The one on readiness events.
    Mio,
    /// The one on `io_uring`.
    IoUring,
    /// The one on completion ports.
    Iocp,
}

impl Backend {
    /// Whether the driver can have operations completed: a ring and a completion port can.
    pub open spec fn completes(&self) -> bool {
        *self == Backend::IoUring || *self == Backend::Iocp
    }

    /// Whether the driver can have operations completed.
    pub fn supports_completion(&self) -> (supports: bool)
        ensures
            supports == self.completes(),
            supports == (self is IoUring || self is Iocp),
    {
        match self {
            Backend::Mock | Backend::Mio => false,
            Backend::IoUring | Backend::Iocp => true,
        }
    }
}

/// The outcome of submitting a completion operation.
#[derive(Debug, Clone, Copy, PartialEq, Eq)]
pub enum CompletionIoResult {
    /// It is done, with this result.
    Done(i32),
    /// It is under way: its result will be found under this token.
    Retry(usize),
    /// It could not be submitted.
    SubmitErr(Error),
}

/// A waker, if there is one.
pub open spec fn any(waiter: Option<Waker>) -> Seq<Waker> {
    match waiter {
        Some(waker) => seq![waker],
        None => Seq::empty(),
    }
}

/// The waker that a slot holds once `waker` was offered: the one it had, where that one is known
/// to wake the same task, and else the new one.
pub open spec fn offered(slot: Option<Waker>, waker: Waker, same_task: bool) -> Option<Waker> {
    if slot is Some && same_task {
        slot
    } else {
        Some(waker)
    }
}

/// `std::task::Waker::will_wake`: whether the two are known to wake the same task. A yes means that
/// they do; a no may come where they do as well. Which task a waker wakes is not modelled, so
/// neither is claimed of the answer.
#[verifier::external_body]
pub(crate) fn will_wake(waiter: &Waker, waker: &Waker) -> bool {
    waiter.will_wake(waker)
}

/// What `will_wake` can answer of the two. That it answers so is known only where it was asked.
pub closed spec fn may_answer(waiter: Waker, waker: Waker, yes: bool) -> bool {
    call_ensures(will_wake, (&waiter, &waker), yes)
}

/// Asks whether the two are known to wake the same task.
pub(crate) fn ask_same_task(waiter: &Waker, waker: &Waker) -> (yes: bool)
    ensures
        may_answer(*waiter, *waker, yes),
        call_ensures(will_wake, (waiter, waker), yes),
{
    will_wake(waiter, waker)
}

/// An answer to whether the waker wakes the task of who waits: what `will_wake` said, and no where
/// nobody waits.
pub open spec fn is_answer(waiter: Option<Waker>, waker: Waker, yes: bool) -> bool {
    match waiter {
        Some(w) => may_answer(w, waker, yes),
        None => !yes,
    }
}

/// Whether somebody waits who is known to be woken by `waker` too.
pub(crate) fn holds_same_task(waiter: Option<&Waker>, waker: &Waker) -> (same_task: bool)
    ensures
        match waiter {
            Some(w) => may_answer(*w, *waker, same_task),
            None => !same_task,
        },
        waiter matches Some(w) ==> call_ensures(will_wake, (w, waker), same_task),
{
    match waiter {
        Some(waiter) => ask_same_task(waiter, waker),
        None => false,
    }
}

/// Offers a waker to a slot, where it is already known whether the slot's waker wakes the same
/// task.
pub fn offer_waiter(slot: &mut Option<Waker>, waker: Waker, same_task: bool)
    ensures
        *final(slot) == offered(*old(slot), waker, same_task),
        *old(slot) is None || !same_task ==> *final(slot) == Some(waker),
        *old(slot) is Some && same_task ==> *final(slot) == *old(slot),
{
    let keep = match slot {
        Some(_) => same_task,
        None => false,
    };
    if !keep {
        *slot = Some(waker);
    }
}

/// Makes a slot hold a waker of the task of `waker`.
pub fn update_waiter(slot: &mut Option<Waker>, waker: Waker)
    ensures
        *old(slot) is None ==> *final(slot) == Some(waker),
        *final(slot) == Some(waker) || *final(slot) == *old(slot),
        exists|same_task: bool|
            is_answer(*old(slot), waker, same_task) && *final(slot) == #[trigger] offered(
                *old(slot),
                waker,
                same_task,
            ),
{
    let same_task = holds_same_task(slot.as_ref(), &waker);
    offer_waiter(slot, waker, same_task);
}

/// The error of a driver without completion support.
pub fn unsupported_completion_error() -> (error: Error)
    ensures
        error == Error::Custom(
            ErrorKind::Unsupported,
            "driver does not support completion-based I/O submission",
        ),
{
    Error::Custom(
        ErrorKind::Unsupported,
        "driver does not support completion-based I/O submission",
    )
}

/// The error of a driver without poll support.
pub fn unsupported_poll_error() -> (error: Error)
    ensures
        error == Error::Custom(
            ErrorKind::Unsupported,
            "driver does not support poll-based I/O submission",
        ),
{
    Error::Custom(ErrorKind::Unsupported, "driver does not support poll-based I/O submission")
}

/// Whoever offers a waker is woken: the slot holds the waker after the offer, or one that is known to
/// wake the same task.
pub proof fn law_an_offer_is_kept(slot: Option<Waker>, waker: Waker, same_task: bool)
    ensures
        offered(slot, waker, same_task) is Some,
        !same_task ==> offered(slot, waker, same_task)->0 == waker,
        slot is None ==> offered(slot, waker, same_task)->0 == waker,
        slot is Some && same_task ==> offered(slot, waker, same_task)->0 == slot->0,
{
}

/// That two wakers wake the same task is said only where one waits, and only after asking.
pub proof fn law_an_answer_needs_a_waiter(waiter: Waker, waker: Waker, yes: bool)
    ensures
        is_answer(Some(waiter), waker, yes) ==> may_answer(waiter, waker, yes),
        !is_answer(None, waker, true),
        is_answer(None, waker, false),
{
}

/// An answer is one that `will_wake` can give.
pub(crate) proof fn law_an_answer_is_given(waiter: Waker, waker: Waker, yes: bool)
    ensures
        may_answer(waiter, waker, yes) ==> call_ensures(will_wake, (&waiter, &waker), yes),
{
}

/// Who waits is counted once, and nobody is made up.
pub proof fn law_a_slot_has_one_waker(waiter: Option<Waker>)
    ensures
        waiter matches Some(waker) ==> any(waiter) == seq![waker],
        waiter is None ==> any(waiter).len() == 0,
{
}

} // verus!
