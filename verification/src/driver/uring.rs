//! The io_uring driver's books: registrations, operations in flight and what queue entries do.

use crate::driver::completions::{
    self, awaiting, completed, ignoring, in_flight, result_of, Completion, Completions,
};
use crate::driver::{
    any, holds_same_task, is_answer, offer_waiter, offered, CompletionIoResult, Interest,
    RegistrationMode,
};
use crate::error::{Error, ErrorKind};
use crate::slots::{
    slab_contents, slab_get, slab_get_mut, slab_insert, slab_new, slab_try_remove, Record,
};
use slab::Slab;
use smallvec::SmallVec;
use std::task::Waker;
use vstd::prelude::*;

verus! {

/// Wakers collected from one run over the completion queue. Up to sixteen stay off the heap.
#[verifier::external_body]
pub struct WakerBatch {
    wakers: SmallVec<[Waker; 16]>,
}

/// The wakers a batch holds, in order.
pub uninterp spec fn batch(wakers: WakerBatch) -> Seq<Waker>;

/// `smallvec::SmallVec::new`: the batch is empty.
#[verifier::external_body]
pub(crate) fn batch_new() -> (fresh: WakerBatch)
    ensures
        batch(fresh).len() == 0,
{
    WakerBatch { wakers: SmallVec::new() }
}

/// `smallvec::SmallVec::push`: the waker comes last.
#[verifier::external_body]
pub(crate) fn batch_push(wakers: &mut WakerBatch, waker: Waker)
    ensures
        batch(*final(wakers)) == batch(*old(wakers)).push(waker),
{
    wakers.wakers.push(waker)
}

/// `smallvec::SmallVec::drain` over the full range: hands out the wakers in order and leaves the
/// batch empty.
#[verifier::external_body]
pub(crate) fn batch_drain(wakers: &mut WakerBatch) -> (all: Vec<Waker>)
    ensures
        all@ == batch(*old(wakers)),
        batch(*final(wakers)).len() == 0,
{
    wakers.wakers.drain(..).collect()
}

/// Adds a waker, if there is one.
fn push_any(wakers: &mut WakerBatch, waiter: Option<Waker>)
    ensures
        batch(*final(wakers)) == batch(*old(wakers)) + any(waiter),
{
    match waiter {
        Some(waker) => {
            batch_push(wakers, waker);
        },
        None => {},
    }
    assert(batch(*wakers) =~= batch(*old(wakers)) + any(waiter));
}

/// A handle that is driven by readiness.
pub struct PollRegistration {
    pub fd: i32,
    /// What was last waited for.
    pub poll_mask: u32,
    pub waiter_read: Option<Waker>,
    pub poll_read_armed: bool,
    pub waiter_write: Option<Waker>,
    pub poll_write_armed: bool,
    /// The mask of the poll that the waiter for writing has armed, which may ask for both.
    pub poll_write_mask: u32,
}

/// A registered handle.
pub enum HandleRegistration {
    Completion,
    Poll(PollRegistration),
}

/// `libc::POLLIN` on Linux.
pub const POLLIN: u32 = 1;

/// `libc::POLLOUT` on Linux.
pub const POLLOUT: u32 = 4;

/// `libc::EBUSY` on Linux.
pub const EBUSY: i32 = 16;

/// `libc::ETIME` on Linux.
pub const ETIME: i32 = 62;

/// The key of the entry that interrupts a wait.
pub const INTERRUPT_KEY: u64 = 0xffff_ffff_ffff_ffff;

/// The key of the entry that ends a wait when time is up.
pub const TIMEOUT_KEY: u64 = 0xffff_ffff_ffff_fffe;

/// An entry of the completion queue.
#[derive(Debug, Clone, Copy, PartialEq, Eq, Structural)]
pub struct QueueEntry {
    pub key: u64,
    pub result: i32,
}

/// Whether a poll mask asks for readability.
pub open spec fn reads(mask: u32) -> bool {
    mask & POLLIN != 0
}

/// Whether a poll mask asks for writability.
pub open spec fn writes(mask: u32) -> bool {
    mask & POLLOUT != 0
}

/// The poll mask of an interest.
pub open spec fn poll_mask_of(interest: Interest) -> u32 {
    match (interest.readable, interest.writable) {
        (false, false) => 0,
        (true, false) => 1,
        (false, true) => 4,
        (true, true) => 5,
    }
}

/// What the driver has on record.
#[verifier::ext_equal]
pub struct Books {
    pub registrations: Map<usize, HandleRegistration>,
    pub completions: Map<usize, Completion>,
}

/// What a poll's result says the handle is ready for; nothing, where it is an error.
pub open spec fn ready_bits(result: i32) -> u32 {
    if result < 0 {
        0
    } else {
        result as u32
    }
}

/// Whether a poll's result can be that of the poll armed for reading. It is not, where another is
/// armed for writing and the result tells of writability, which only that one asks for.
pub open spec fn fires_read(r: PollRegistration, result: i32) -> bool {
    !r.poll_write_armed || !writes(ready_bits(result))
}

/// Whether a poll's result can be that of the poll armed for writing. It is not, where another is
/// armed for reading and the result tells of readability alone, which only that one asks for.
pub open spec fn fires_write(r: PollRegistration, result: i32) -> bool {
    ||| !r.poll_read_armed
    ||| writes(ready_bits(result))
    ||| !reads(ready_bits(result))
    ||| reads(r.poll_write_mask)
}

/// A registration after a poll has ended with a result: each poll whose result it can be is no
/// longer armed, and nobody waits for it.
pub open spec fn polled(r: PollRegistration, result: i32) -> PollRegistration {
    PollRegistration {
        waiter_read: if fires_read(r, result) {
            None
        } else {
            r.waiter_read
        },
        poll_read_armed: r.poll_read_armed && !fires_read(r, result),
        waiter_write: if fires_write(r, result) {
            None
        } else {
            r.waiter_write
        },
        poll_write_armed: r.poll_write_armed && !fires_write(r, result),
        ..r
    }
}

/// The waiters that a poll's result wakes.
pub open spec fn polled_waiters(r: PollRegistration, result: i32) -> Seq<Waker> {
    any(
        if fires_read(r, result) {
            r.waiter_read
        } else {
            None
        },
    ) + any(
        if fires_write(r, result) {
            r.waiter_write
        } else {
            None
        },
    )
}

/// Whether an entry carries the key of a poll.
pub open spec fn is_poll(entry: QueueEntry) -> bool {
    entry.key % 2 == 0 && entry.key != TIMEOUT_KEY
}

/// Whether an entry carries the key of an operation.
pub open spec fn is_completion(entry: QueueEntry) -> bool {
    entry.key % 2 == 1 && entry.key != INTERRUPT_KEY
}

/// The token in an entry's key.
pub open spec fn token_of(entry: QueueEntry) -> usize {
    (entry.key / 2) as usize
}

/// The books after an entry of the completion queue. A poll is disarmed, and an operation has its
/// result put on record, or leaves the books where nobody will ask for it.
pub open spec fn on_entry(books: Books, entry: QueueEntry) -> Books {
    let token = token_of(entry);
    if is_poll(entry) && books.registrations.contains_key(token) {
        match books.registrations[token] {
            HandleRegistration::Poll(r) => Books {
                registrations: books.registrations.insert(
                    token,
                    HandleRegistration::Poll(polled(r, entry.result)),
                ),
                ..books
            },
            HandleRegistration::Completion => books,
        }
    } else if is_completion(entry) && books.completions.contains_key(token) {
        Books { completions: completed(books.completions, token, entry.result), ..books }
    } else {
        books
    }
}

/// The waiters that an entry of the completion queue wakes.
pub open spec fn woken_by(books: Books, entry: QueueEntry) -> Seq<Waker> {
    let token = token_of(entry);
    if is_poll(entry) && books.registrations.contains_key(token) {
        match books.registrations[token] {
            HandleRegistration::Poll(r) => polled_waiters(r, entry.result),
            HandleRegistration::Completion => Seq::empty(),
        }
    } else if is_completion(entry) && books.completions.contains_key(token) {
        any(books.completions[token].waiter)
    } else {
        Seq::empty()
    }
}

/// Whether an entry of the completion queue ends an operation whose result nobody will ask for.
pub open spec fn releases(books: Books, entry: QueueEntry) -> bool {
    &&& is_completion(entry)
    &&& books.completions.contains_key(token_of(entry))
    &&& books.completions[token_of(entry)].ignored
}

/// The books after the entries, in order.
pub open spec fn after_entries(books: Books, entries: Seq<QueueEntry>) -> Books
    decreases entries.len(),
{
    if entries.len() == 0 {
        books
    } else {
        on_entry(after_entries(books, entries.drop_last()), entries.last())
    }
}

/// The waiters that the entries wake, in order.
pub open spec fn woken_by_entries(books: Books, entries: Seq<QueueEntry>) -> Seq<Waker>
    decreases entries.len(),
{
    if entries.len() == 0 {
        Seq::empty()
    } else {
        woken_by_entries(books, entries.drop_last()) + woken_by(
            after_entries(books, entries.drop_last()),
            entries.last(),
        )
    }
}

/// The tokens of the operations that the entries end without anybody asking, in order.
pub open spec fn released_by_entries(books: Books, entries: Seq<QueueEntry>) -> Seq<usize>
    decreases entries.len(),
{
    if entries.len() == 0 {
        Seq::empty()
    } else {
        let earlier = released_by_entries(books, entries.drop_last());
        if releases(after_entries(books, entries.drop_last()), entries.last()) {
            earlier.push(token_of(entries.last()))
        } else {
            earlier
        }
    }
}

/// The key of an operation: its token doubled, and one more, in 64 bits.
pub open spec fn completion_key_of(token: usize) -> int {
    (2 * token) % 0x1_0000_0000_0000_0000 + 1
}

/// The key of a poll: its token doubled, in 64 bits.
pub open spec fn poll_key_of(token: usize) -> int {
    (2 * token) % 0x1_0000_0000_0000_0000
}

/// The key of an operation: its token doubled, and one more.
pub fn encode_completion_key(token: usize) -> (key: u64)
    ensures
        key == completion_key_of(token),
{
    let t: u64 = token as u64;
    let key: u64 = (t << 1) | 1;
    assert(((t << 1) | 1) == (2 * t) % 0x1_0000_0000_0000_0000 + 1) by (bit_vector);
    key
}

/// The key of a poll: its token doubled.
pub fn encode_poll_key(token: usize) -> (key: u64)
    ensures
        key == poll_key_of(token),
{
    let t: u64 = token as u64;
    assert((t << 1) == (2 * t) % 0x1_0000_0000_0000_0000) by (bit_vector);
    t << 1
}

/// The token in a key.
pub fn decode_token(key: u64) -> (token: usize)
    ensures
        token == (key / 2) as usize,
{
    assert(key >> 1 == key / 2) by (bit_vector);
    (key >> 1) as usize
}

/// Whether a key is an operation's, and not a poll's.
pub fn is_completion_key(key: u64) -> (is: bool)
    ensures
        is == (key % 2 == 1),
{
    assert(key & 1 == key % 2) by (bit_vector);
    key & 1 == 1
}

/// The poll mask of an interest.
pub fn interest_to_poll_mask(interest: Interest) -> (mask: u32)
    ensures
        mask == poll_mask_of(interest),
        mask == (if interest.readable {
            1int
        } else {
            0
        }) + (if interest.writable {
            4int
        } else {
            0
        }),
        reads(mask) == interest.readable,
        writes(mask) == interest.writable,
{
    let mut mask: u32 = 0;
    if interest.readable {
        mask = mask | POLLIN;
    }
    if interest.writable {
        mask = mask | POLLOUT;
    }
    assert(0u32 | 1 == 1 && 0u32 | 4 == 4 && 1u32 | 4 == 5) by (bit_vector);
    assert(0u32 & 1 == 0 && 0u32 & 4 == 0 && 1u32 & 1 == 1 && 1u32 & 4 == 0 && 4u32 & 1 == 0 && 4u32
        & 4 == 4 && 5u32 & 1 == 1 && 5u32 & 4 == 4) by (bit_vector);
    mask
}

/// What a call that submits entries comes to: that the kernel is busy or that time is up is no
/// failure.
pub fn submitter_call_result(result: Result<usize, Error>) -> (r: Result<(), Error>)
    ensures
        r == match result {
            Ok(_) => Ok(()),
            Err(error) => if error == Error::Os(EBUSY) || error == Error::Os(ETIME) {
                Ok(())
            } else {
                Err(error)
            },
        },
{
    match result {
        Ok(_) => Ok(()),
        Err(error) => if error.is_os(EBUSY) || error.is_os(ETIME) {
            Ok(())
        } else {
            Err(error)
        },
    }
}

spec fn handles_only(e: Map<usize, Record>) -> bool {
    forall|k: usize| #[trigger] e.contains_key(k) ==> e[k] is Handle
}

spec fn handles(e: Map<usize, Record>) -> Map<usize, HandleRegistration> {
    e.map_values(|r: Record| r->Handle_0)
}

/// The registration under a token, for changing in place.
fn handle_mut(slab: &mut Slab<Record>, token: usize) -> (handle: Option<&mut HandleRegistration>)
    requires
        handles_only(slab_contents(*old(slab))),
    ensures
        handles_only(slab_contents(*final(slab))),
        match handle {
            Some(h) => {
                &&& handles(slab_contents(*old(slab))).contains_key(token)
                &&& *h == handles(slab_contents(*old(slab)))[token]
                &&& handles(slab_contents(*final(slab))) == handles(
                    slab_contents(*old(slab)),
                ).insert(token, *final(h))
            },
            None => {
                &&& !handles(slab_contents(*old(slab))).contains_key(token)
                &&& slab_contents(*final(slab)) == slab_contents(*old(slab))
            },
        },
{
    match slab_get_mut(slab, token) {
        Some(Record::Handle(handle)) => Some(handle),
        _ => None,
    }
}

/// What a push into the submission queue calls for next.
#[derive(Debug, Clone, Copy, PartialEq, Eq)]
pub enum PushStep {
    /// Submit what is queued, to make room.
    Submit,
    /// Put the entry into the queue.
    Push,
    /// Give up.
    Fail(Error),
}

/// The first step of a push: a full queue is submitted first.
pub fn push_step(queue_full: bool) -> (step: PushStep)
    ensures
        step == if queue_full {
            PushStep::Submit
        } else {
            PushStep::Push
        },
{
    if queue_full {
        PushStep::Submit
    } else {
        PushStep::Push
    }
}

/// The step of a push after what was queued has been submitted.
pub fn push_step_after_submit(result: Result<usize, Error>) -> (step: PushStep)
    ensures
        step == match result {
            Err(error) if error != Error::Os(EBUSY) && error != Error::Os(ETIME) => PushStep::Fail(
                error,
            ),
            _ => PushStep::Push,
        },
{
    match submitter_call_result(result) {
        Ok(()) => PushStep::Push,
        Err(error) => PushStep::Fail(error),
    }
}

/// What collecting completions calls for next.
#[derive(Debug, Clone, Copy, PartialEq, Eq)]
pub enum CollectStep {
    /// Submit what is queued.
    Submit,
    /// Submit what is queued and wait for an entry.
    SubmitAndWait,
    /// Submit what is queued and wait for an entry for so many nanoseconds at most.
    SubmitAndWaitFor(u128),
    /// Submit what is queued, to make room for the entry that ends the wait.
    MakeRoom(u128),
    /// Put an entry into the queue that ends the wait after so many nanoseconds.
    PushTimeout(u128),
    /// Look at what has completed.
    Drain,
    /// Give up.
    Fail(Error),
}

/// The first step of collecting completions. Without a wait an empty queue needs no submission.
/// A wait with a time limit has the kernel keep the time: by an argument of the call, where the
/// kernel has that, and else by an entry of its own, for which the queue must have room.
pub open spec fn collect_step(
    wait_for_one: bool,
    timeout: Option<u128>,
    ext_arg: bool,
    queue_empty: bool,
    queue_full: bool,
) -> CollectStep {
    if !wait_for_one {
        if queue_empty {
            CollectStep::Drain
        } else {
            CollectStep::Submit
        }
    } else {
        match timeout {
            None => CollectStep::SubmitAndWait,
            Some(nanos) => if ext_arg {
                CollectStep::SubmitAndWaitFor(nanos)
            } else if queue_full {
                CollectStep::MakeRoom(nanos)
            } else {
                CollectStep::PushTimeout(nanos)
            },
        }
    }
}

/// What waiting for a handle calls for: a poll of the handle with the interest's mask, unless one
/// is armed already in that direction. A handle that is not registered for polling is an error.
pub open spec fn poll_outcome(books: Books, token: usize, interest: Interest) -> Result<
    Option<(i32, u32)>,
    Error,
> {
    if !books.registrations.contains_key(token) {
        Err(Error::NotRegistered(token))
    } else {
        match books.registrations[token] {
            HandleRegistration::Completion => Err(Error::NotPollMode(token)),
            HandleRegistration::Poll(r) => if (interest.writable && r.poll_write_armed) || (
            !interest.writable && r.poll_read_armed) {
                Ok(None)
            } else {
                Ok(Some((r.fd, poll_mask_of(interest))))
            },
        }
    }
}

/// Who waits for a handle in the interest's direction.
pub open spec fn waiter_in(books: Books, token: usize, interest: Interest) -> Option<Waker> {
    if books.registrations.contains_key(token) && books.registrations[token] is Poll {
        let r = books.registrations[token]->Poll_0;
        if interest.writable {
            r.waiter_write
        } else {
            r.waiter_read
        }
    } else {
        None
    }
}

/// The books once a task waits for a handle: its waker is the one for the interest's direction,
/// the mask is the interest's and the poll is armed.
pub open spec fn polling(
    books: Books,
    token: usize,
    waker: Waker,
    interest: Interest,
    same_task: bool,
) -> Books {
    if books.registrations.contains_key(token) && books.registrations[token] is Poll {
        let r = books.registrations[token]->Poll_0;
        let waiting = if interest.writable {
            PollRegistration {
                poll_mask: poll_mask_of(interest),
                waiter_write: offered(r.waiter_write, waker, same_task),
                poll_write_armed: true,
                poll_write_mask: if r.poll_write_armed {
                    r.poll_write_mask
                } else {
                    poll_mask_of(interest)
                },
                ..r
            }
        } else {
            PollRegistration {
                poll_mask: poll_mask_of(interest),
                waiter_read: offered(r.waiter_read, waker, same_task),
                poll_read_armed: true,
                ..r
            }
        };
        Books {
            registrations: books.registrations.insert(token, HandleRegistration::Poll(waiting)),
            ..books
        }
    } else {
        books
    }
}

/// A registration whose poll could not be submitted: it is not armed, and nobody waits for it. The
/// other direction is left as it is.
pub open spec fn unpolled(r: PollRegistration) -> PollRegistration {
    if writes(r.poll_mask) {
        PollRegistration { waiter_write: None, poll_write_armed: false, ..r }
    } else {
        PollRegistration { waiter_read: None, poll_read_armed: false, ..r }
    }
}

/// The io_uring driver's state beside the ring itself.
pub struct UringState {
    registrations: Slab<Record>,
    completions: Completions,
    pending_submissions: bool,
    ext_arg: bool,
}

impl UringState {
    pub closed spec fn wf(&self) -> bool {
        &&& handles_only(slab_contents(self.registrations))
        &&& self.completions.wf()
    }

    /// What the driver has on record.
    pub closed spec fn view(&self) -> Books {
        Books {
            registrations: handles(slab_contents(self.registrations)),
            completions: self.completions@,
        }
    }

    /// Whether the submission queue may hold entries that the kernel has not seen.
    pub closed spec fn pending(&self) -> bool {
        self.pending_submissions
    }

    /// Whether the kernel takes a time limit as an argument of the waiting call.
    pub closed spec fn takes_ext_arg(&self) -> bool {
        self.ext_arg
    }

    /// The token that the next operation gets.
    pub closed spec fn next_token(&self) -> usize {
        self.completions.next_token()
    }

    /// A driver without registrations.
    pub fn new(ext_arg: bool) -> (state: Self)
        ensures
            state.wf(),
            state@.registrations.dom().is_empty(),
            state@.completions.dom().is_empty(),
            !state.pending(),
            state.takes_ext_arg() == ext_arg,
    {
        UringState {
            registrations: slab_new(),
            completions: Completions::new(),
            pending_submissions: false,
            ext_arg,
        }
    }

    /// Whether entries may be waiting to be submitted.
    pub fn should_flush(&self) -> (flush: bool)
        ensures
            flush == self.pending(),
    {
        self.pending_submissions
    }

    /// Ends a push into the submission queue. An entry that went in is pending.
    pub fn finish_push(&mut self, pushed: bool) -> (r: Result<(), Error>)
        requires
            old(self).wf(),
        ensures
            final(self).wf(),
            final(self)@ == old(self)@,
            final(self).next_token() == old(self).next_token(),
            final(self).takes_ext_arg() == old(self).takes_ext_arg(),
            pushed ==> r is Ok && final(self).pending(),
            !pushed ==> {
                &&& r == Err::<(), Error>(
                    Error::Custom(ErrorKind::Other, "io_uring submission queue is full"),
                )
                &&& final(self).pending() == old(self).pending()
            },
    {
        if !pushed {
            return Err(Error::Custom(ErrorKind::Other, "io_uring submission queue is full"));
        }
        self.pending_submissions = true;
        Ok(())
    }

    /// The first step of collecting completions. Where there is nothing to submit, nothing is
    /// pending.
    pub fn collect_completions(
        &mut self,
        wait_for_one: bool,
        timeout: Option<u128>,
        queue_empty: bool,
        queue_full: bool,
    ) -> (step: CollectStep)
        requires
            old(self).wf(),
        ensures
            final(self).wf(),
            final(self)@ == old(self)@,
            final(self).next_token() == old(self).next_token(),
            final(self).takes_ext_arg() == old(self).takes_ext_arg(),
            step == collect_step(
                wait_for_one,
                timeout,
                old(self).takes_ext_arg(),
                queue_empty,
                queue_full,
            ),
            final(self).pending() == (old(self).pending() && (wait_for_one || !queue_empty)),
    {
        let should_submit = if wait_for_one {
            true
        } else {
            !queue_empty
        };
        if !should_submit {
            self.pending_submissions = false;
            return CollectStep::Drain;
        }
        if !wait_for_one {
            return CollectStep::Submit;
        }
        match timeout {
            None => CollectStep::SubmitAndWait,
            Some(nanos) => if self.ext_arg {
                CollectStep::SubmitAndWaitFor(nanos)
            } else if queue_full {
                CollectStep::MakeRoom(nanos)
            } else {
                CollectStep::PushTimeout(nanos)
            },
        }
    }

    /// The step after an attempt to make room for the entry that ends the wait.
    pub fn after_make_room(nanos: u128, result: Result<usize, Error>) -> (step: CollectStep)
        ensures
            step == match result {
                Err(error) if error != Error::Os(EBUSY) && error != Error::Os(
                    ETIME,
                ) => CollectStep::Fail(error),
                _ => CollectStep::PushTimeout(nanos),
            },
    {
        match submitter_call_result(result) {
            Ok(()) => CollectStep::PushTimeout(nanos),
            Err(error) => CollectStep::Fail(error),
        }
    }

    /// The step after the entry that ends the wait was put into the queue, or found no room.
    pub fn after_push_timeout(pushed: bool) -> (step: CollectStep)
        ensures
            step == if pushed {
                CollectStep::SubmitAndWait
            } else {
                CollectStep::Fail(
                    Error::Custom(ErrorKind::Other, "io_uring submission queue is full"),
                )
            },
    {
        if pushed {
            CollectStep::SubmitAndWait
        } else {
            CollectStep::Fail(Error::Custom(ErrorKind::Other, "io_uring submission queue is full"))
        }
    }

    /// The step after a submission. What the kernel left in the queue is pending.
    pub fn after_submit(&mut self, result: Result<usize, Error>, queue_empty: bool) -> (step:
        CollectStep)
        requires
            old(self).wf(),
        ensures
            final(self).wf(),
            final(self)@ == old(self)@,
            final(self).next_token() == old(self).next_token(),
            final(self).takes_ext_arg() == old(self).takes_ext_arg(),
            match result {
                Err(error) if error != Error::Os(EBUSY) && error != Error::Os(ETIME) => {
                    &&& step == CollectStep::Fail(error)
                    &&& final(self).pending() == old(self).pending()
                },
                _ => {
                    &&& step == CollectStep::Drain
                    &&& final(self).pending() == !queue_empty
                },
            },
    {
        match submitter_call_result(result) {
            Ok(()) => {
                self.pending_submissions = !queue_empty;
                CollectStep::Drain
            },
            Err(error) => CollectStep::Fail(error),
        }
    }

    /// Takes note of a poll that has ended, and adds the waiters to wake to `wakers`.
    fn on_poll(&mut self, token: usize, result: i32, wakers: &mut WakerBatch)
        requires
            old(self).wf(),
        ensures
            final(self).wf(),
            final(self).completions == old(self).completions,
            final(self).pending() == old(self).pending(),
            final(self).takes_ext_arg() == old(self).takes_ext_arg(),
            old(self)@.registrations.contains_key(token) && old(self)@.registrations[token] is Poll
                ==> {
                let r = old(self)@.registrations[token]->Poll_0;
                &&& batch(*final(wakers)) == batch(*old(wakers)) + polled_waiters(r, result)
                &&& final(self)@.registrations == old(self)@.registrations.insert(
                    token,
                    HandleRegistration::Poll(polled(r, result)),
                )
            },
            !(old(self)@.registrations.contains_key(token)
                && old(self)@.registrations[token] is Poll) ==> {
                &&& batch(*final(wakers)) == batch(*old(wakers))
                &&& final(self)@.registrations == old(self)@.registrations
            },
    {
        let mut reader: Option<Waker> = None;
        let mut writer: Option<Waker> = None;
        match handle_mut(&mut self.registrations, token) {
            Some(HandleRegistration::Poll(registration)) => {
                let bits: u32 = if result < 0 {
                    0
                } else {
                    result as u32
                };
                let read = !registration.poll_write_armed || bits & POLLOUT == 0;
                let write = !registration.poll_read_armed || bits & POLLOUT != 0 || bits & POLLIN
                    == 0 || registration.poll_write_mask & POLLIN != 0;
                if read {
                    registration.poll_read_armed = false;
                    reader = registration.waiter_read.take();
                }
                if write {
                    registration.poll_write_armed = false;
                    writer = registration.waiter_write.take();
                }
            },
            _ => {},
        }
        proof {
            if !(old(self)@.registrations.contains_key(token)
                && old(self)@.registrations[token] is Poll) {
                assert(self@.registrations =~= old(self)@.registrations);
            }
        }
        push_any(wakers, reader);
        push_any(wakers, writer);
        assert(batch(*old(wakers)) + any(reader) + any(writer) =~= batch(*old(wakers)) + (any(
            reader,
        ) + any(writer)));
        assert(batch(*old(wakers)) + Seq::<Waker>::empty() =~= batch(*old(wakers)));
    }

    /// Runs over entries of the completion queue. The wakers to wake are added to `wakers`, and
    /// the tokens of operations that nobody will ask for to `released`. Returns whether an
    /// interrupt was among the entries.
    pub fn drain_cq(
        &mut self,
        entries: &Vec<QueueEntry>,
        wakers: &mut WakerBatch,
        released: &mut Vec<usize>,
    ) -> (interrupt: bool)
        requires
            old(self).wf(),
        ensures
            final(self).wf(),
            final(self)@ == after_entries(old(self)@, entries@),
            final(self).pending() == old(self).pending(),
            final(self).takes_ext_arg() == old(self).takes_ext_arg(),
            batch(*final(wakers)) == batch(*old(wakers)) + woken_by_entries(old(self)@, entries@),
            final(released)@ == old(released)@ + released_by_entries(old(self)@, entries@),
            interrupt == exists|i: int|
                0 <= i < entries@.len() && (#[trigger] entries@[i]).key == INTERRUPT_KEY,
    {
        let mut interrupt = false;
        let ghost books = self@;
        let ghost wakers0 = batch(*wakers);
        let ghost released0 = released@;
        let mut i: usize = 0;
        proof {
            assert(entries@.take(0) =~= Seq::empty());
            assert(wakers0 + woken_by_entries(books, entries@.take(0)) =~= wakers0);
            assert(released0 + released_by_entries(books, entries@.take(0)) =~= released0);
        }
        while i < entries.len()
            invariant
                i <= entries@.len(),
                self.wf(),
                books == old(self)@,
                wakers0 == batch(*old(wakers)),
                released0 == old(released)@,
                self@ == after_entries(books, entries@.take(i as int)),
                self.pending() == old(self).pending(),
                self.takes_ext_arg() == old(self).takes_ext_arg(),
                batch(*wakers) == wakers0 + woken_by_entries(books, entries@.take(i as int)),
                released@ == released0 + released_by_entries(books, entries@.take(i as int)),
                interrupt == exists|j: int|
                    0 <= j < i && (#[trigger] entries@[j]).key == INTERRUPT_KEY,
            decreases entries@.len() - i,
        {
            let entry = entries[i];
            let ghost before = self@;
            let ghost batch0 = batch(*wakers);
            let ghost release0 = released@;
            proof {
                let upto = entries@.take(i + 1);
                assert(upto.drop_last() =~= entries@.take(i as int));
                assert(upto.last() == entry);
                assert(after_entries(books, upto) == on_entry(before, entry));
            }
            if entry.key == INTERRUPT_KEY {
                interrupt = true;
            } else if entry.key == TIMEOUT_KEY {
            } else {
                let token: usize = decode_token(entry.key);
                if is_completion_key(entry.key) {
                    let (waiter, release) = self.completions.complete(token, entry.result);
                    if release {
                        released.push(token);
                    }
                    assert(release == releases(before, entry));
                    push_any(wakers, waiter);
                } else {
                    self.on_poll(token, entry.result, wakers);
                }
            }
            proof {
                assert(self@ =~= on_entry(before, entry));
                assert(batch(*wakers) =~= batch0 + woken_by(before, entry));
                assert(batch(*wakers) =~= wakers0 + woken_by_entries(books, entries@.take(i + 1)));
                assert(released@ =~= released0 + released_by_entries(books, entries@.take(i + 1)));
            }
            i += 1;
        }
        assert(entries@.take(entries@.len() as int) =~= entries@);
        interrupt
    }

    /// Runs over entries of the completion queue. Returns the wakers to wake once nothing of the
    /// driver is in use, the tokens of operations that nobody will ask for, and whether the
    /// interrupt has to be submitted again.
    pub fn drain_completions(&mut self, entries: &Vec<QueueEntry>) -> (r: (
        Vec<Waker>,
        Vec<usize>,
        bool,
    ))
        requires
            old(self).wf(),
        ensures
            final(self).wf(),
            final(self)@ == after_entries(old(self)@, entries@),
            final(self).pending() == old(self).pending(),
            final(self).takes_ext_arg() == old(self).takes_ext_arg(),
            r.0@ == woken_by_entries(old(self)@, entries@),
            r.1@ == released_by_entries(old(self)@, entries@),
            r.2 == exists|i: int|
                0 <= i < entries@.len() && (#[trigger] entries@[i]).key == INTERRUPT_KEY,
    {
        let mut wakers = batch_new();
        let mut released: Vec<usize> = Vec::new();
        let interrupt = self.drain_cq(entries, &mut wakers, &mut released);
        let all = batch_drain(&mut wakers);
        assert(all@ =~= woken_by_entries(old(self)@, entries@));
        assert(released@ =~= released_by_entries(old(self)@, entries@));
        (all, released, interrupt)
    }

    /// Registers a handle and returns its token.
    pub fn register_handle_with_mode(
        &mut self,
        fd: i32,
        interest: Interest,
        mode: RegistrationMode,
    ) -> (token: usize)
        requires
            old(self).wf(),
        ensures
            final(self).wf(),
            !old(self)@.registrations.contains_key(token),
            token < isize::MAX,
            final(self)@ == (Books {
                registrations: old(self)@.registrations.insert(
                    token,
                    match mode {
                        RegistrationMode::Completion => HandleRegistration::Completion,
                        RegistrationMode::Poll => HandleRegistration::Poll(
                            PollRegistration {
                                fd,
                                poll_mask: poll_mask_of(interest),
                                waiter_read: None,
                                poll_read_armed: false,
                                waiter_write: None,
                                poll_write_armed: false,
                                poll_write_mask: 0,
                            },
                        ),
                    },
                ),
                ..old(self)@
            }),
            final(self).pending() == old(self).pending(),
            final(self).takes_ext_arg() == old(self).takes_ext_arg(),
            final(self).next_token() == old(self).next_token(),
    {
        let registration = match mode {
            RegistrationMode::Completion => HandleRegistration::Completion,
            RegistrationMode::Poll => HandleRegistration::Poll(
                PollRegistration {
                    fd,
                    poll_mask: interest_to_poll_mask(interest),
                    waiter_read: None,
                    poll_read_armed: false,
                    waiter_write: None,
                    poll_write_armed: false,
                    poll_write_mask: 0,
                },
            ),
        };
        let ghost put = registration;
        let token: usize = slab_insert(&mut self.registrations, Record::Handle(registration));
        proof {
            assert(self@.registrations =~= old(self)@.registrations.insert(token, put));
            assert(self@ =~= Books { registrations: self@.registrations, ..old(self)@ });
        }
        token
    }

    /// Registers a handle for completion mode and returns its token.
    pub fn register_handle(&mut self, fd: i32, interest: Interest) -> (token: usize)
        requires
            old(self).wf(),
        ensures
            final(self).wf(),
            !old(self)@.registrations.contains_key(token),
            token < isize::MAX,
            final(self)@ == (Books {
                registrations: old(self)@.registrations.insert(
                    token,
                    HandleRegistration::Completion,
                ),
                ..old(self)@
            }),
            final(self).pending() == old(self).pending(),
            final(self).takes_ext_arg() == old(self).takes_ext_arg(),
            final(self).next_token() == old(self).next_token(),
    {
        self.register_handle_with_mode(fd, interest, RegistrationMode::Completion)
    }

    /// Changes the interest of a registered handle. In completion mode there is none to change.
    pub fn reregister_handle(&mut self, token: usize, interest: Interest) -> (r: Result<(), Error>)
        requires
            old(self).wf(),
        ensures
            final(self).wf(),
            final(self).pending() == old(self).pending(),
            final(self).takes_ext_arg() == old(self).takes_ext_arg(),
            final(self).next_token() == old(self).next_token(),
            r == if old(self)@.registrations.contains_key(token) {
                Ok::<(), Error>(())
            } else {
                Err(Error::NotRegistered(token))
            },
            final(self)@ == if old(self)@.registrations.contains_key(token) {
                match old(self)@.registrations[token] {
                    HandleRegistration::Poll(registration) => Books {
                        registrations: old(self)@.registrations.insert(
                            token,
                            HandleRegistration::Poll(
                                PollRegistration {
                                    poll_mask: poll_mask_of(interest),
                                    ..registration
                                },
                            ),
                        ),
                        ..old(self)@
                    },
                    HandleRegistration::Completion => old(self)@,
                }
            } else {
                old(self)@
            },
    {
        let r = match handle_mut(&mut self.registrations, token) {
            Some(HandleRegistration::Completion) => Ok(()),
            Some(HandleRegistration::Poll(registration)) => {
                registration.poll_mask = interest_to_poll_mask(interest);
                Ok(())
            },
            None => Err(Error::NotRegistered(token)),
        };
        proof {
            if old(self)@.registrations.contains_key(token) && old(self)@.registrations[token] is Completion {
                assert(self@.registrations =~= old(self)@.registrations);
            }
            assert(self@ =~= Books { registrations: self@.registrations, ..old(self)@ });
        }
        r
    }

    /// Forgets a registered handle.
    pub fn deregister_handle(&mut self, token: usize) -> (r: Result<(), Error>)
        requires
            old(self).wf(),
        ensures
            final(self).wf(),
            final(self).pending() == old(self).pending(),
            final(self).takes_ext_arg() == old(self).takes_ext_arg(),
            final(self).next_token() == old(self).next_token(),
            r == if old(self)@.registrations.contains_key(token) {
                Ok::<(), Error>(())
            } else {
                Err(Error::NotRegistered(token))
            },
            final(self)@ == (Books {
                registrations: old(self)@.registrations.remove(token),
                ..old(self)@
            }),
    {
        let r = match slab_try_remove(&mut self.registrations, token) {
            Some(_) => Ok(()),
            None => Err(Error::NotRegistered(token)),
        };
        proof {
            assert(self@.registrations =~= old(self)@.registrations.remove(token));
            assert(self@ =~= Books { registrations: self@.registrations, ..old(self)@ });
        }
        r
    }

    /// Who waits for a handle in the interest's direction.
    pub fn waiter_of(&self, token: usize, interest: Interest) -> (waiter: Option<&Waker>)
        requires
            self.wf(),
        ensures
            match waiter {
                Some(w) => waiter_in(self@, token, interest) == Some(*w),
                None => waiter_in(self@, token, interest) is None,
            },
    {
        match slab_get(&self.registrations, token) {
            Some(Record::Handle(HandleRegistration::Poll(registration))) => if interest.writable {
                registration.waiter_write.as_ref()
            } else {
                registration.waiter_read.as_ref()
            },
            _ => None,
        }
    }

    /// Has a task wait until a handle is ready, where it is already known whether the waker now
    /// waiting wakes the same task. Returns the poll to submit, if none is armed yet.
    pub fn submit_poll_of(
        &mut self,
        token: usize,
        waker: Waker,
        interest: Interest,
        same_task: bool,
    ) -> (r: Result<Option<(i32, u32)>, Error>)
        requires
            old(self).wf(),
        ensures
            final(self).wf(),
            final(self).pending() == old(self).pending(),
            final(self).takes_ext_arg() == old(self).takes_ext_arg(),
            final(self).next_token() == old(self).next_token(),
            r == poll_outcome(old(self)@, token, interest),
            final(self)@ == polling(old(self)@, token, waker, interest, same_task),
    {
        let r = match handle_mut(&mut self.registrations, token) {
            Some(HandleRegistration::Poll(registration)) => {
                let write = interest.writable;
                if write {
                    offer_waiter(&mut registration.waiter_write, waker, same_task);
                } else {
                    offer_waiter(&mut registration.waiter_read, waker, same_task);
                }
                let desired_mask: u32 = interest_to_poll_mask(interest);
                registration.poll_mask = desired_mask;
                if (write && registration.poll_write_armed) || (!write
                    && registration.poll_read_armed) {
                    Ok(None)
                } else {
                    if write {
                        registration.poll_write_armed = true;
                        registration.poll_write_mask = desired_mask;
                    } else {
                        registration.poll_read_armed = true;
                    }
                    Ok(Some((registration.fd, desired_mask)))
                }
            },
            Some(HandleRegistration::Completion) => Err(Error::NotPollMode(token)),
            None => Err(Error::NotRegistered(token)),
        };
        proof {
            if old(self)@.registrations.contains_key(token) && old(self)@.registrations[token] is Completion {
                assert(self@.registrations =~= old(self)@.registrations);
            }
            assert(self@ =~= polling(old(self)@, token, waker, interest, same_task));
        }
        r
    }

    /// Has a task wait until a handle is ready. Returns the poll to submit, if none is armed yet.
    pub fn submit_poll(&mut self, token: usize, waker: Waker, interest: Interest) -> (r: Result<
        Option<(i32, u32)>,
        Error,
    >)
        requires
            old(self).wf(),
        ensures
            final(self).wf(),
            final(self).pending() == old(self).pending(),
            final(self).takes_ext_arg() == old(self).takes_ext_arg(),
            final(self).next_token() == old(self).next_token(),
            r == poll_outcome(old(self)@, token, interest),
            exists|same_task: bool|
                is_answer(waiter_in(old(self)@, token, interest), waker, same_task) && final(self)@
                    == #[trigger] polling(
                    old(self)@,
                    token,
                    waker,
                    interest,
                    same_task,
                ),
    {
        let same_task = holds_same_task(self.waiter_of(token, interest), &waker);
        self.submit_poll_of(token, waker, interest, same_task)
    }

    /// Undoes a wait whose poll could not be submitted: the poll is not armed, and nobody waits.
    pub fn poll_not_submitted(&mut self, token: usize)
        requires
            old(self).wf(),
        ensures
            final(self).wf(),
            final(self).pending() == old(self).pending(),
            final(self).takes_ext_arg() == old(self).takes_ext_arg(),
            final(self).next_token() == old(self).next_token(),
            final(self)@ == if old(self)@.registrations.contains_key(token)
                && old(self)@.registrations[token] is Poll {
                Books {
                    registrations: old(self)@.registrations.insert(
                        token,
                        HandleRegistration::Poll(
                            unpolled(old(self)@.registrations[token]->Poll_0),
                        ),
                    ),
                    ..old(self)@
                }
            } else {
                old(self)@
            },
    {
        match handle_mut(&mut self.registrations, token) {
            Some(HandleRegistration::Poll(registration)) => {
                if registration.poll_mask & POLLOUT != 0 {
                    registration.poll_write_armed = false;
                    registration.waiter_write = None;
                } else {
                    registration.poll_read_armed = false;
                    registration.waiter_read = None;
                }
            },
            _ => {},
        }
        proof {
            if !(old(self)@.registrations.contains_key(token)
                && old(self)@.registrations[token] is Poll) {
                assert(self@.registrations =~= old(self)@.registrations);
            }
            assert(self@ =~= Books { registrations: self@.registrations, ..old(self)@ });
        }
    }

    /// The token for the next operation and the key for its queue entry.
    pub fn completion_key(&self) -> (r: (usize, u64))
        requires
            self.wf(),
        ensures
            r.0 == self.next_token(),
            r.0 < isize::MAX,
            !self@.completions.contains_key(r.0),
            r.1 == completion_key_of(r.0),
    {
        let token: usize = self.completions.vacant_token();
        (token, encode_completion_key(token))
    }

    /// Puts an operation on record once its entry is in the submission queue. Where building the
    /// entry or queueing it failed, the books stay as they were.
    pub fn submit_completion(&mut self, queued: Result<(), Error>, waker: Waker) -> (r:
        CompletionIoResult)
        requires
            old(self).wf(),
        ensures
            final(self).wf(),
            final(self).pending() == old(self).pending(),
            final(self).takes_ext_arg() == old(self).takes_ext_arg(),
            match queued {
                Ok(()) => {
                    let token = old(self).next_token();
                    &&& r == CompletionIoResult::Retry(token)
                    &&& token < isize::MAX
                    &&& !old(self)@.completions.contains_key(token)
                    &&& final(self)@ == (Books {
                        completions: old(self)@.completions.insert(token, in_flight(waker)),
                        ..old(self)@
                    })
                },
                Err(error) => {
                    &&& r == CompletionIoResult::SubmitErr(error)
                    &&& final(self)@ == old(self)@
                    &&& final(self).next_token() == old(self).next_token()
                },
            },
    {
        match queued {
            Err(error) => CompletionIoResult::SubmitErr(error),
            Ok(()) => CompletionIoResult::Retry(self.completions.submit(waker)),
        }
    }

    /// Takes the result of an operation, once there is one.
    pub fn get_completion_result(&mut self, token: usize) -> (result: Option<i32>)
        requires
            old(self).wf(),
        ensures
            final(self).wf(),
            final(self).pending() == old(self).pending(),
            final(self).takes_ext_arg() == old(self).takes_ext_arg(),
            result == result_of(old(self)@.completions, token),
            final(self)@ == if result is Some {
                Books { completions: old(self)@.completions.remove(token), ..old(self)@ }
            } else {
                old(self)@
            },
    {
        self.completions.get_completion_result(token)
    }

    /// Has a task wait for an operation.
    pub fn set_completion_waker(&mut self, token: usize, waker: Waker)
        requires
            old(self).wf(),
        ensures
            final(self).wf(),
            final(self).pending() == old(self).pending(),
            final(self).takes_ext_arg() == old(self).takes_ext_arg(),
            final(self)@.registrations == old(self)@.registrations,
            exists|same_task: bool|
                is_answer(
                    completions::waiter_in(old(self)@.completions, token),
                    waker,
                    same_task,
                ) && final(self)@.completions == #[trigger] awaiting(
                    old(self)@.completions,
                    token,
                    waker,
                    same_task,
                ),
    {
        let ghost before = self.completions@;
        self.completions.set_completion_waker(token, waker);
        proof {
            let same_task = choose|same_task: bool|
                is_answer(completions::waiter_in(before, token), waker, same_task)
                    && self.completions@ == #[trigger] awaiting(before, token, waker, same_task);
            assert(self@.completions == awaiting(
                old(self)@.completions,
                token,
                waker,
                same_task,
            ));
        }
    }

    /// Has the result of an operation dropped when it comes. Returns whether the operation is in
    /// the books.
    pub fn ignore_completion(&mut self, token: usize) -> (ignored: bool)
        requires
            old(self).wf(),
        ensures
            final(self).wf(),
            final(self).pending() == old(self).pending(),
            final(self).takes_ext_arg() == old(self).takes_ext_arg(),
            ignored == old(self)@.completions.contains_key(token),
            final(self)@ == (Books {
                completions: ignoring(old(self)@.completions, token),
                ..old(self)@
            }),
    {
        self.completions.ignore_completion(token)
    }
}

/// A token is found again in the keys made of it, and the two kinds of keys and the reserved ones
/// are told apart. Every token that the driver hands out is below the bound.
pub proof fn law_keys_are_told_apart(token: usize, result: i32)
    requires
        token < isize::MAX,
    ensures
        ({
            let poll = QueueEntry { key: poll_key_of(token) as u64, result };
            let completion = QueueEntry { key: completion_key_of(token) as u64, result };
            &&& is_poll(poll) && !is_completion(poll) && token_of(poll) == token
            &&& is_completion(completion) && !is_poll(completion) && token_of(completion) == token
        }),
{
}

/// Entries neither add nor drop registrations, and add no operations.
pub proof fn law_entries_add_nothing(books: Books, entries: Seq<QueueEntry>)
    ensures
        after_entries(books, entries).registrations.dom() == books.registrations.dom(),
        after_entries(books, entries).completions.dom().subset_of(books.completions.dom()),
    decreases entries.len(),
{
    if entries.len() > 0 {
        law_entries_add_nothing(books, entries.drop_last());
        assert(after_entries(books, entries).registrations.dom() =~= books.registrations.dom());
    }
}

/// The entry of an operation in flight wakes the task that waits for it and has its result put
/// on record.
pub proof fn law_an_operation_is_answered(books: Books, token: usize, result: i32)
    requires
        token < isize::MAX,
        books.completions.contains_key(token),
        !books.completions[token].ignored,
    ensures
        ({
            let entry = QueueEntry { key: completion_key_of(token) as u64, result };
            &&& woken_by(books, entry) == any(books.completions[token].waiter)
            &&& result_of(on_entry(books, entry).completions, token) == Some(result)
            &&& on_entry(books, entry).registrations == books.registrations
        }),
{
    law_keys_are_told_apart(token, result);
}

/// The poll that a wait has armed has that waiter on record, in the interest's direction.
pub open spec fn waits(books: Books, token: usize, writable: bool, waker: Waker) -> bool {
    &&& books.registrations.contains_key(token)
    &&& books.registrations[token] is Poll
    &&& {
        let r = books.registrations[token]->Poll_0;
        if writable {
            r.poll_write_armed && r.waiter_write == Some(waker)
        } else {
            r.poll_read_armed && r.waiter_read == Some(waker)
        }
    }
}

/// What the poll armed for a direction asks for.
pub open spec fn armed_mask(books: Books, token: usize, writable: bool) -> u32 {
    if writable {
        books.registrations[token]->Poll_0.poll_write_mask
    } else {
        POLLIN
    }
}

/// A result tells only of what the mask asks for, or of an error.
pub open spec fn tells_only_of(mask: u32, result: i32) -> bool {
    &&& reads(ready_bits(result)) ==> reads(mask)
    &&& writes(ready_bits(result)) ==> writes(mask)
}

proof fn lemma_masks()
    ensures
        forall|interest: Interest| writes(#[trigger] poll_mask_of(interest)) == interest.writable,
        !writes(POLLIN),
{
    assert(0u32 & 4 == 0 && 1u32 & 4 == 0 && 4u32 & 4 == 4 && 5u32 & 4 == 4) by (bit_vector);
}

/// A task that waits for a direction is on record as the one to wake, or a waker that is known to
/// be of the same task.
pub proof fn law_a_wait_is_on_record(
    books: Books,
    token: usize,
    waker: Waker,
    interest: Interest,
    same_task: bool,
)
    requires
        books.registrations.contains_key(token),
        books.registrations[token] is Poll,
    ensures
        waits(
            polling(books, token, waker, interest, same_task),
            token,
            interest.writable,
            offered(waiter_in(books, token, interest), waker, same_task)->0,
        ),
{
}

/// A wait is answered by the entry of its poll, whatever else is armed on the handle: the waiter is
/// woken, and the poll is disarmed, so that the next wait submits one again.
pub proof fn law_a_poll_is_answered(
    books: Books,
    token: usize,
    waker: Waker,
    interest: Interest,
    result: i32,
)
    requires
        token < isize::MAX,
        waits(books, token, interest.writable, waker),
        tells_only_of(armed_mask(books, token, interest.writable), result),
    ensures
        ({
            let entry = QueueEntry { key: poll_key_of(token) as u64, result };
            &&& woken_by(books, entry).contains(waker)
            &&& poll_outcome(books, token, interest) == Ok::<Option<(i32, u32)>, Error>(None)
            &&& poll_outcome(on_entry(books, entry), token, interest) == Ok::<
                Option<(i32, u32)>,
                Error,
            >(Some((books.registrations[token]->Poll_0.fd, poll_mask_of(interest))))
        }),
{
    law_keys_are_told_apart(token, result);
    lemma_masks();
    let r = books.registrations[token]->Poll_0;
    let woken = polled_waiters(r, result);
    if interest.writable {
        assert(fires_write(r, result));
        assert(woken.last() == waker);
        assert(woken[woken.len() - 1] == waker);
    } else {
        assert(fires_read(r, result));
        assert(woken[0] == waker);
    }
}

/// What happens on a ring.
pub enum RingEvent {
    /// An entry came.
    Entry(QueueEntry),
    /// A task waits for a handle.
    Wait { token: usize, waker: Waker, interest: Interest, same_task: bool },
    /// A task was to wait for a handle, and its poll could not be submitted.
    FailedWait { token: usize, waker: Waker, interest: Interest, same_task: bool },
}

/// The books after an event.
pub open spec fn on_ring_event(books: Books, event: RingEvent) -> Books {
    match event {
        RingEvent::Entry(entry) => on_entry(books, entry),
        RingEvent::Wait { token, waker, interest, same_task } => polling(
            books,
            token,
            waker,
            interest,
            same_task,
        ),
        RingEvent::FailedWait { token, waker, interest, same_task } => {
            if poll_outcome(books, token, interest) matches Ok(Some(_)) {
                let now = polling(books, token, waker, interest, same_task);
                Books {
                    registrations: now.registrations.insert(
                        token,
                        HandleRegistration::Poll(unpolled(now.registrations[token]->Poll_0)),
                    ),
                    ..now
                }
            } else {
                polling(books, token, waker, interest, same_task)
            }
        },
    }
}

/// The books after the events, in order.
pub open spec fn after_ring_events(books: Books, events: Seq<RingEvent>) -> Books
    decreases events.len(),
{
    if events.len() == 0 {
        books
    } else {
        on_ring_event(after_ring_events(books, events.drop_last()), events.last())
    }
}

/// The waiters that the events wake, in order.
pub open spec fn woken_by_ring_events(books: Books, events: Seq<RingEvent>) -> Seq<Waker>
    decreases events.len(),
{
    if events.len() == 0 {
        Seq::empty()
    } else {
        woken_by_ring_events(books, events.drop_last()) + match events.last() {
            RingEvent::Entry(entry) => woken_by(
                after_ring_events(books, events.drop_last()),
                entry,
            ),
            _ => Seq::empty(),
        }
    }
}

/// The event is a wait for that direction of the handle.
pub open spec fn is_wait_for(event: RingEvent, token: usize, writable: bool) -> bool {
    match event {
        RingEvent::Entry(_) => false,
        RingEvent::Wait { token: t, interest, .. } => t == token && interest.writable == writable,
        RingEvent::FailedWait { token: t, interest, .. } => t == token && interest.writable
            == writable,
    }
}

/// A wait outlasts whatever comes between it and its answer: after other waits and entries the task
/// was woken, or it still waits for the poll that its wait has armed.
pub proof fn law_a_wait_lasts_until_it_is_answered(
    books: Books,
    token: usize,
    writable: bool,
    waker: Waker,
    events: Seq<RingEvent>,
)
    requires
        waits(books, token, writable, waker),
        forall|i: int| 0 <= i < events.len() ==> !is_wait_for(#[trigger] events[i], token, writable),
    ensures
        ({
            let after = after_ring_events(books, events);
            ||| woken_by_ring_events(books, events).contains(waker)
            ||| waits(after, token, writable, waker) && armed_mask(after, token, writable)
                == armed_mask(books, token, writable)
        }),
    decreases events.len(),
{
    if events.len() > 0 {
        let earlier = events.drop_last();
        assert forall|i: int| 0 <= i < earlier.len() implies !is_wait_for(
            #[trigger] earlier[i],
            token,
            writable,
        ) by {
            assert(events[i] == earlier[i]);
        }
        law_a_wait_lasts_until_it_is_answered(books, token, writable, waker, earlier);
        lemma_masks();
        let before = after_ring_events(books, earlier);
        let woken = woken_by_ring_events(books, earlier);
        let all = woken_by_ring_events(books, events);
        assert(!is_wait_for(events[events.len() - 1], token, writable));
        if woken.contains(waker) {
            let i = choose|i: int| 0 <= i < woken.len() && woken[i] == waker;
            assert(all[i] == waker);
        } else {
            match events.last() {
                RingEvent::Entry(entry) => {
                    let r = before.registrations[token]->Poll_0;
                    if is_poll(entry) && token_of(entry) == token {
                        let now = polled_waiters(r, entry.result);
                        assert(all =~= woken + now);
                        if writable && fires_write(r, entry.result) {
                            assert(now[now.len() - 1] == waker);
                            assert(all[all.len() - 1] == waker);
                        }
                        if !writable && fires_read(r, entry.result) {
                            assert(now[0] == waker);
                            assert(all[woken.len() as int] == waker);
                        }
                    }
                },
                _ => {},
            }
        }
    }
}

/// Where the poll of a fresh wait could not be submitted, undoing it leaves the registration as it
/// was but for the masks, and leaves the other direction alone in any case.
pub proof fn law_a_failed_poll_is_undone(
    books: Books,
    token: usize,
    waker: Waker,
    interest: Interest,
)
    requires
        poll_outcome(books, token, interest) matches Ok(Some(_)),
        waiter_in(books, token, interest) is None,
    ensures
        ({
            let r = books.registrations[token]->Poll_0;
            let now = polling(books, token, waker, interest, false).registrations[token]->Poll_0;
            unpolled(now) == (PollRegistration {
                poll_mask: now.poll_mask,
                poll_write_mask: now.poll_write_mask,
                ..r
            })
        }),
{
    lemma_masks();
}

/// The mask of an interest asks for readability just where the interest does, and for writability
/// likewise, and for nothing else.
pub proof fn law_a_mask_asks_for_its_interest(interest: Interest)
    ensures
        reads(poll_mask_of(interest)) == interest.readable,
        writes(poll_mask_of(interest)) == interest.writable,
        poll_mask_of(interest) & 1 != 0 <==> interest.readable,
        poll_mask_of(interest) & 4 != 0 <==> interest.writable,
        poll_mask_of(interest) & !5 == 0,
{
    assert(0u32 & 1 == 0 && 0u32 & 4 == 0 && 1u32 & 1 == 1 && 1u32 & 4 == 0 && 4u32 & 1 == 0 && 4u32
        & 4 == 4 && 5u32 & 1 == 1 && 5u32 & 4 == 4 && 0u32 & !5 == 0 && 1u32 & !5 == 0 && 4u32 & !5
        == 0 && 5u32 & !5 == 0) by (bit_vector);
}

/// A look at what has completed waits if and only if it is to, for the time it is given at most, and
/// submits what is queued.
pub proof fn law_a_look_waits_as_it_is_told(
    wait_for_one: bool,
    timeout: Option<u128>,
    ext_arg: bool,
    queue_empty: bool,
    queue_full: bool,
)
    ensures
        ({
            let step = collect_step(wait_for_one, timeout, ext_arg, queue_empty, queue_full);
            &&& step is Submit || step is Drain <==> !wait_for_one
            &&& step is Drain ==> queue_empty
            &&& step is Submit ==> !queue_empty
            &&& step is SubmitAndWait <==> wait_for_one && timeout is None
            &&& step is SubmitAndWaitFor <==> wait_for_one && timeout is Some && ext_arg
            &&& step is MakeRoom <==> wait_for_one && timeout is Some && !ext_arg && queue_full
            &&& step is PushTimeout <==> wait_for_one && timeout is Some && !ext_arg && !queue_full
            &&& step matches CollectStep::SubmitAndWaitFor(nanos) ==> timeout == Some(nanos)
            &&& step matches CollectStep::MakeRoom(nanos) ==> timeout == Some(nanos)
            &&& step matches CollectStep::PushTimeout(nanos) ==> timeout == Some(nanos)
        }),
{
}

/// Only a handle that is registered for polling can be waited for. A poll of it is submitted just
/// where none is armed in the interest's direction, for the handle and with the interest's mask.
pub proof fn law_a_wait_submits_what_is_missing(books: Books, token: usize, interest: Interest)
    ensures
        !books.registrations.contains_key(token) ==> poll_outcome(books, token, interest) == Err::<
            Option<(i32, u32)>,
            Error,
        >(Error::NotRegistered(token)),
        books.registrations.contains_key(token) && books.registrations[token] is Completion
            ==> poll_outcome(books, token, interest) == Err::<Option<(i32, u32)>, Error>(
            Error::NotPollMode(token),
        ),
        books.registrations.contains_key(token) && books.registrations[token] is Poll ==> {
            let r = books.registrations[token]->Poll_0;
            &&& poll_outcome(books, token, interest) is Ok
            &&& poll_outcome(books, token, interest)->Ok_0 is None <==> if interest.writable {
                r.poll_write_armed
            } else {
                r.poll_read_armed
            }
            &&& poll_outcome(books, token, interest)->Ok_0 matches Some((fd, mask)) ==> fd == r.fd
                && mask == poll_mask_of(interest)
        },
{
}

/// A wait is for one direction of its handle: the other direction, the other handles and the
/// operations are left alone. Its mask is noted, and as the armed one where it arms the poll.
pub proof fn law_a_wait_is_for_its_direction(
    books: Books,
    token: usize,
    waker: Waker,
    interest: Interest,
    same_task: bool,
    other: usize,
)
    ensures
        ({
            let now = polling(books, token, waker, interest, same_task);
            &&& now.completions == books.completions
            &&& now.registrations.contains_key(other) == books.registrations.contains_key(other)
            &&& other != token && books.registrations.contains_key(other)
                ==> now.registrations[other] == books.registrations[other]
            &&& books.registrations.contains_key(token) && books.registrations[token] is Poll ==> {
                let r = books.registrations[token]->Poll_0;
                let n = now.registrations[token]->Poll_0;
                &&& now.registrations[token] is Poll
                &&& n.fd == r.fd
                &&& n.poll_mask == poll_mask_of(interest)
                &&& interest.writable ==> {
                    &&& n.waiter_read == r.waiter_read && n.poll_read_armed == r.poll_read_armed
                    &&& n.poll_write_armed && n.waiter_write is Some
                    &&& !same_task ==> n.waiter_write == Some(waker)
                    &&& r.poll_write_armed ==> n.poll_write_mask == r.poll_write_mask
                    &&& !r.poll_write_armed ==> n.poll_write_mask == poll_mask_of(interest)
                }
                &&& !interest.writable ==> {
                    &&& n.waiter_write == r.waiter_write && n.poll_write_armed == r.poll_write_armed
                    &&& n.poll_write_mask == r.poll_write_mask
                    &&& n.poll_read_armed && n.waiter_read is Some
                    &&& !same_task ==> n.waiter_read == Some(waker)
                }
            }
        }),
{
}

/// With polls armed in both directions, a result that only one of them can have wakes the waiter of
/// that one alone and leaves the other armed. An error, which either can have, wakes both.
pub proof fn law_a_result_is_for_the_poll_that_can_have_it(r: PollRegistration, result: i32)
    requires
        r.poll_read_armed,
        r.poll_write_armed,
    ensures
        result >= 0 && result as u32 & 4 != 0 ==> {
            let now = polled(r, result);
            &&& now.poll_read_armed && now.waiter_read == r.waiter_read
            &&& !now.poll_write_armed && now.waiter_write is None
            &&& polled_waiters(r, result) == any(r.waiter_write)
        },
        result >= 0 && result as u32 & 4 == 0 && result as u32 & 1 != 0 && r.poll_write_mask & 1
            == 0 ==> {
            let now = polled(r, result);
            &&& now.poll_write_armed && now.waiter_write == r.waiter_write
            &&& !now.poll_read_armed && now.waiter_read is None
            &&& polled_waiters(r, result) == any(r.waiter_read)
        },
        result < 0 || (result as u32 & 4 == 0 && result as u32 & 1 == 0) ==> {
            let now = polled(r, result);
            &&& !now.poll_read_armed && now.waiter_read is None
            &&& !now.poll_write_armed && now.waiter_write is None
            &&& polled_waiters(r, result) == any(r.waiter_read) + any(r.waiter_write)
        },
{
    assert(0u32 & 4 == 0 && 0u32 & 1 == 0) by (bit_vector);
    assert(any(None) + any(r.waiter_write) =~= any(r.waiter_write));
    assert(any(r.waiter_read) + any(None) =~= any(r.waiter_read));
}

/// A poll that has ended leaves the handle and the masks as they were, and wakes all whose poll is no
/// longer armed.
pub proof fn law_whoever_is_no_longer_waited_for_is_woken(r: PollRegistration, result: i32)
    ensures
        ({
            let now = polled(r, result);
            let woken = polled_waiters(r, result);
            &&& now.fd == r.fd && now.poll_mask == r.poll_mask && now.poll_write_mask
                == r.poll_write_mask
            &&& now.waiter_read == r.waiter_read || now.waiter_read is None
            &&& now.waiter_write == r.waiter_write || now.waiter_write is None
            &&& now.poll_read_armed ==> r.poll_read_armed && now.waiter_read == r.waiter_read
            &&& now.poll_write_armed ==> r.poll_write_armed && now.waiter_write == r.waiter_write
            &&& r.waiter_read matches Some(reader) ==> (now.waiter_read is None ==> woken.contains(
                reader,
            ))
            &&& r.waiter_write matches Some(writer) ==> (now.waiter_write is None
                ==> woken.contains(writer))
        }),
{
    let woken = polled_waiters(r, result);
    if fires_read(r, result) && r.waiter_read is Some {
        assert(woken[0] == r.waiter_read->0);
    }
    if fires_write(r, result) && r.waiter_write is Some {
        assert(woken[woken.len() - 1] == r.waiter_write->0);
    }
}

/// An entry is for the handle or the operation whose token it carries, and leaves all others alone.
/// The interrupt and the end of a wait are for none.
pub proof fn law_an_entry_is_for_its_token(books: Books, entry: QueueEntry, other: usize)
    ensures
        ({
            let now = on_entry(books, entry);
            &&& other != token_of(entry) && books.registrations.contains_key(other)
                ==> now.registrations[other] == books.registrations[other]
            &&& other != token_of(entry) ==> now.completions.contains_key(other)
                == books.completions.contains_key(other)
            &&& other != token_of(entry) && books.completions.contains_key(other)
                ==> now.completions[other] == books.completions[other]
            &&& entry.key == 0xffff_ffff_ffff_ffff || entry.key == 0xffff_ffff_ffff_fffe ==> {
                &&& now == books
                &&& woken_by(books, entry).len() == 0
                &&& !releases(books, entry)
            }
            &&& entry.key % 2 == 0 ==> now.completions == books.completions && !releases(
                books,
                entry,
            )
            &&& entry.key % 2 == 1 ==> now.registrations == books.registrations
        }),
{
}

/// The entry of an operation that nobody will ask for takes the operation off the books and has what
/// the kernel was given released; no other entry does.
pub proof fn law_an_ignored_operation_is_released(books: Books, token: usize, result: i32)
    requires
        token < isize::MAX,
        books.completions.contains_key(token),
    ensures
        ({
            let entry = QueueEntry { key: completion_key_of(token) as u64, result };
            let now = on_entry(books, entry);
            &&& releases(books, entry) <==> books.completions[token].ignored
            &&& now.completions.contains_key(token) <==> !books.completions[token].ignored
            &&& woken_by(books, entry) == any(books.completions[token].waiter)
            &&& released_by_entries(books, seq![entry]) == if books.completions[token].ignored {
                seq![token]
            } else {
                Seq::empty()
            }
        }),
{
    law_keys_are_told_apart(token, result);
    let entry = QueueEntry { key: completion_key_of(token) as u64, result };
    let one = seq![entry];
    assert(one.drop_last() =~= Seq::empty());
    assert(after_entries(books, one.drop_last()) == books);
    assert(released_by_entries(books, one.drop_last()) =~= Seq::empty());
    assert(released_by_entries(books, one) =~= if books.completions[token].ignored {
        seq![token]
    } else {
        Seq::empty()
    });
}

/// Entries are taken one after the other: those of two batches do what they do as one.
pub proof fn law_entries_come_one_after_the_other(
    books: Books,
    first: Seq<QueueEntry>,
    then_come: Seq<QueueEntry>,
    entry: QueueEntry,
)
    ensures
        after_entries(books, seq![entry]) == on_entry(books, entry),
        woken_by_entries(books, seq![entry]) == woken_by(books, entry),
        after_entries(books, first + then_come) == after_entries(
            after_entries(books, first),
            then_come,
        ),
        woken_by_entries(books, first + then_come) == woken_by_entries(books, first)
            + woken_by_entries(after_entries(books, first), then_come),
        released_by_entries(books, first + then_come) == released_by_entries(books, first)
            + released_by_entries(after_entries(books, first), then_come),
    decreases then_come.len(),
{
    let one = seq![entry];
    assert(one.drop_last() =~= Seq::empty());
    assert(after_entries(books, one.drop_last()) == books);
    assert(woken_by_entries(books, one.drop_last()) =~= Seq::empty());
    assert(woken_by_entries(books, one) =~= woken_by(books, entry));
    let between = after_entries(books, first);
    if then_come.len() == 0 {
        assert(first + then_come =~= first);
        assert(woken_by_entries(books, first) + Seq::empty() =~= woken_by_entries(books, first));
        assert(released_by_entries(books, first) + Seq::empty() =~= released_by_entries(
            books,
            first,
        ));
    } else {
        let all = first + then_come;
        assert(all.drop_last() =~= first + then_come.drop_last());
        assert(all.last() == then_come.last());
        law_entries_come_one_after_the_other(books, first, then_come.drop_last(), entry);
        assert(woken_by_entries(books, all) =~= woken_by_entries(books, first) + woken_by_entries(
            between,
            then_come,
        ));
        assert(released_by_entries(books, all) =~= released_by_entries(books, first)
            + released_by_entries(between, then_come));
    }
}

/// Undoing a wait whose poll could not be submitted takes the direction of its mask off, and leaves
/// the other alone.
pub proof fn law_undoing_a_wait_is_for_its_direction(r: PollRegistration)
    ensures
        ({
            let now = unpolled(r);
            &&& now.fd == r.fd && now.poll_mask == r.poll_mask && now.poll_write_mask
                == r.poll_write_mask
            &&& r.poll_mask & 4 != 0 ==> {
                &&& !now.poll_write_armed && now.waiter_write is None
                &&& now.poll_read_armed == r.poll_read_armed && now.waiter_read == r.waiter_read
            }
            &&& r.poll_mask & 4 == 0 ==> {
                &&& !now.poll_read_armed && now.waiter_read is None
                &&& now.poll_write_armed == r.poll_write_armed && now.waiter_write == r.waiter_write
            }
        }),
{
}

} // verus!
