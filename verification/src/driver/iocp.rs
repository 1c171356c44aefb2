//! The completion port driver's books: registrations, AFD polls and operations in flight.

use crate::driver::completions::{
    self, awaiting, completed, ignoring, in_flight, result_of, Completion, Completions,
};
use crate::driver::{
    holds_same_task, is_answer, offer_waiter, offered, Interest, RegistrationMode,
};
use crate::error::{Error, ErrorKind};
use crate::slots::{
    slab_contents, slab_get, slab_get_mut, slab_insert, slab_new, slab_try_remove, Record,
};
use slab::Slab;
use std::task::Waker;
use vstd::prelude::*;

verus! {

/// The key of the entry that interrupts a wait.
pub const INTERRUPT_KEY: usize = usize::MAX;

/// The key of the entries of AFD polls.
pub const AFD_POLL_COMPLETION_KEY: usize = usize::MAX - 1;

pub const STATUS_PENDING: i32 = 0x103;

pub const WAIT_TIMEOUT: i32 = 258;

pub const ERROR_ABANDONED_WAIT_0: i32 = 735;

pub const INVALID_SOCKET: usize = usize::MAX;

pub const AFD_POLL_RECEIVE: u32 = 0x0001;

pub const AFD_POLL_RECEIVE_EXPEDITED: u32 = 0x0002;

pub const AFD_POLL_SEND: u32 = 0x0004;

pub const AFD_POLL_DISCONNECT: u32 = 0x0008;

pub const AFD_POLL_ABORT: u32 = 0x0010;

pub const AFD_POLL_LOCAL_CLOSE: u32 = 0x0020;

pub const AFD_POLL_CONNECT: u32 = 0x0040;

pub const AFD_POLL_ACCEPT: u32 = 0x0080;

pub const AFD_POLL_CONNECT_FAIL: u32 = 0x0100;

/// A socket that is driven by readiness.
pub struct PollRegistration {
    pub socket: usize,
    /// Who waits, for whatever: a socket has one waiter, the last that asked.
    pub waiter: Option<Waker>,
    pub interest: Interest,
    /// The AFD poll under way for the socket.
    pub poll_token: Option<usize>,
}

/// A registered handle.
pub enum HandleRegistration {
    Completion,
    Poll(PollRegistration),
}

/// An AFD poll that was submitted for a registration.
pub struct PollOp {
    pub registration_token: usize,
}

/// A handle as the operating system knows it.
#[derive(Debug, Clone, Copy, PartialEq, Eq, Structural)]
pub enum RawOsHandle {
    Socket(usize),
    Handle(usize),
}

/// An entry of the completion port.
#[derive(Debug, Clone, Copy, PartialEq, Eq, Structural)]
pub struct PortEntry {
    pub key: usize,
    /// The token that was handed in with the operation or the poll, if any was.
    pub token: Option<usize>,
    pub result: i32,
}

/// What the driver has on record.
#[verifier::ext_equal]
pub struct Books {
    pub registrations: Map<usize, HandleRegistration>,
    pub completions: Map<usize, Completion>,
    pub poll_ops: Map<usize, PollOp>,
}

/// Whether an entry is an AFD poll's.
pub open spec fn is_poll(entry: PortEntry) -> bool {
    entry.key == AFD_POLL_COMPLETION_KEY && entry.token is Some
}

/// Whether an entry is an operation's.
pub open spec fn is_completion(entry: PortEntry) -> bool {
    entry.key != AFD_POLL_COMPLETION_KEY && entry.key != INTERRUPT_KEY && entry.token is Some
}

/// The registration that an AFD poll was submitted for, where both are on record.
pub open spec fn polled_registration(books: Books, poll_token: usize) -> Option<(
    usize,
    PollRegistration,
)> {
    if !books.poll_ops.contains_key(poll_token) {
        None
    } else {
        let token = books.poll_ops[poll_token].registration_token;
        if books.registrations.contains_key(token) && books.registrations[token] is Poll {
            Some((token, books.registrations[token]->Poll_0))
        } else {
            None
        }
    }
}

/// The books after an entry of the completion port. A poll is off the record and its registration
/// is no longer waited for; an operation has its result put on record.
pub open spec fn on_entry(books: Books, entry: PortEntry) -> Books {
    if is_poll(entry) {
        let poll_token = entry.token->0;
        Books {
            registrations: match polled_registration(books, poll_token) {
                Some((token, r)) => books.registrations.insert(
                    token,
                    HandleRegistration::Poll(
                        PollRegistration {
                            waiter: None,
                            poll_token: if r.poll_token == Some(poll_token) {
                                None
                            } else {
                                r.poll_token
                            },
                            ..r
                        },
                    ),
                ),
                None => books.registrations,
            },
            poll_ops: books.poll_ops.remove(poll_token),
            ..books
        }
    } else if is_completion(entry) {
        Books { completions: completed(books.completions, entry.token->0, entry.result), ..books }
    } else {
        books
    }
}

/// The waiter that an entry of the completion port wakes.
pub open spec fn woken_by(books: Books, entry: PortEntry) -> Option<Waker> {
    if is_poll(entry) {
        match polled_registration(books, entry.token->0) {
            Some((_, r)) => r.waiter,
            None => None,
        }
    } else if is_completion(entry) && books.completions.contains_key(entry.token->0) {
        books.completions[entry.token->0].waiter
    } else {
        None
    }
}

/// Whether an entry of the completion port ends an operation whose result nobody will ask for.
pub open spec fn releases(books: Books, entry: PortEntry) -> bool {
    &&& is_completion(entry)
    &&& books.completions.contains_key(entry.token->0)
    &&& books.completions[entry.token->0].ignored
}

/// The books after the entries, in order.
pub open spec fn after_entries(books: Books, entries: Seq<PortEntry>) -> Books
    decreases entries.len(),
{
    if entries.len() == 0 {
        books
    } else {
        on_entry(after_entries(books, entries.drop_last()), entries.last())
    }
}

/// The waiters that the entries wake, in order.
pub open spec fn woken_by_entries(books: Books, entries: Seq<PortEntry>) -> Seq<Waker>
    decreases entries.len(),
{
    if entries.len() == 0 {
        Seq::empty()
    } else {
        let earlier = woken_by_entries(books, entries.drop_last());
        match woken_by(after_entries(books, entries.drop_last()), entries.last()) {
            Some(waker) => earlier.push(waker),
            None => earlier,
        }
    }
}

/// The tokens of the operations that the entries end without anybody asking, in order.
pub open spec fn released_by_entries(books: Books, entries: Seq<PortEntry>) -> Seq<usize>
    decreases entries.len(),
{
    if entries.len() == 0 {
        Seq::empty()
    } else {
        let earlier = released_by_entries(books, entries.drop_last());
        if releases(after_entries(books, entries.drop_last()), entries.last()) {
            earlier.push(entries.last().token->0)
        } else {
            earlier
        }
    }
}

/// The poll under way for a registration is on record as being for that registration.
pub open spec fn linked(books: Books) -> bool {
    forall|k: usize| #[trigger]
        books.registrations.contains_key(k) ==> match books.registrations[k] {
            HandleRegistration::Poll(r) => match r.poll_token {
                Some(t) => books.poll_ops.contains_key(t) && books.poll_ops[t].registration_token
                    == k,
                None => true,
            },
            HandleRegistration::Completion => true,
        }
}

/// What waiting for a socket comes to: the socket to poll, unless a poll is under way.
pub open spec fn poll_outcome(books: Books, token: usize) -> Result<Option<usize>, Error> {
    if !books.registrations.contains_key(token) {
        Err(Error::NotRegistered(token))
    } else {
        match books.registrations[token] {
            HandleRegistration::Completion => Err(Error::NotPollMode(token)),
            HandleRegistration::Poll(r) => Ok(
                if r.poll_token is None {
                    Some(r.socket)
                } else {
                    None
                },
            ),
        }
    }
}

/// Who waits for a socket.
pub open spec fn waiter_in(books: Books, token: usize) -> Option<Waker> {
    if books.registrations.contains_key(token) && books.registrations[token] is Poll {
        books.registrations[token]->Poll_0.waiter
    } else {
        None
    }
}

/// The books once a task waits for a socket.
pub open spec fn waiting(
    books: Books,
    token: usize,
    waker: Waker,
    interest: Interest,
    same_task: bool,
) -> Books {
    if books.registrations.contains_key(token) && books.registrations[token] is Poll {
        let r = books.registrations[token]->Poll_0;
        Books {
            registrations: books.registrations.insert(
                token,
                HandleRegistration::Poll(
                    PollRegistration {
                        interest,
                        waiter: offered(r.waiter, waker, same_task),
                        ..r
                    },
                ),
            ),
            ..books
        }
    } else {
        books
    }
}

/// The books with an AFD poll on record for a registration.
pub open spec fn armed(books: Books, token: usize, poll_token: usize) -> Books {
    let r = books.registrations[token]->Poll_0;
    Books {
        registrations: books.registrations.insert(
            token,
            HandleRegistration::Poll(PollRegistration { poll_token: Some(poll_token), ..r }),
        ),
        poll_ops: books.poll_ops.insert(poll_token, PollOp { registration_token: token }),
        ..books
    }
}

/// The books without an AFD poll that could not be submitted.
pub open spec fn disarmed(books: Books, token: usize, poll_token: usize) -> Books {
    Books {
        registrations: if books.registrations.contains_key(token)
            && books.registrations[token] is Poll && books.registrations[token]->Poll_0.poll_token
            == Some(poll_token) {
            books.registrations.insert(
                token,
                HandleRegistration::Poll(
                    PollRegistration { poll_token: None, ..books.registrations[token]->Poll_0 },
                ),
            )
        } else {
            books.registrations
        },
        poll_ops: books.poll_ops.remove(poll_token),
        ..books
    }
}

/// Whether an NT status reports success.
pub fn status_is_success(status: i32) -> (success: bool)
    ensures
        success == (status >= 0),
{
    status >= 0
}

/// The error for an NT status, by the Win32 code that the system maps it to, if it maps it to any.
pub fn ntstatus_to_io_error(status: i32, mapped: i32) -> (error: Error)
    ensures
        error == Error::Os(
            if mapped != 0 {
                mapped
            } else {
                status
            },
        ),
{
    if mapped != 0 {
        Error::Os(mapped)
    } else {
        Error::Os(status)
    }
}

/// The socket behind a handle: only sockets can be driven by readiness.
pub fn raw_os_handle_to_socket(handle: RawOsHandle) -> (r: Result<usize, Error>)
    ensures
        r == match handle {
            RawOsHandle::Socket(socket) => Ok::<usize, Error>(socket),
            RawOsHandle::Handle(_) => Err(
                Error::Custom(
                    ErrorKind::Unsupported,
                    "poll mode currently supports sockets only on Windows",
                ),
            ),
        },
{
    match handle {
        RawOsHandle::Socket(socket) => Ok(socket),
        RawOsHandle::Handle(_) => Err(
            Error::Custom(
                ErrorKind::Unsupported,
                "poll mode currently supports sockets only on Windows",
            ),
        ),
    }
}

/// The time limit of a wait in milliseconds, capped at the largest value, which also stands for
/// no limit.
pub fn duration_to_timeout_ms(timeout_nanos: Option<u128>) -> (ms: u32)
    ensures
        ms == match timeout_nanos {
            Some(nanos) => if nanos / 1000000 <= u32::MAX {
                (nanos / 1000000) as int
            } else {
                u32::MAX as int
            },
            None => u32::MAX as int,
        },
{
    match timeout_nanos {
        Some(nanos) => {
            let millis: u128 = nanos / 1000000;
            if millis <= 0xffff_ffff {
                millis as u32
            } else {
                u32::MAX
            }
        },
        None => u32::MAX,
    }
}

/// The result of an operation from its entry: the bytes transferred where the status is zero, and
/// else the negated error, by the Win32 code that the system maps the status to, if it maps it to
/// any.
pub fn completion_result_from_entry(internal: usize, bytes: u32, win32_error: i32) -> (result: i32)
    requires
        internal != 0 && win32_error == 0 ==> internal as i32 != i32::MIN,
        win32_error != i32::MIN,
    ensures
        result == if internal == 0 {
            bytes as i32
        } else if win32_error == 0 {
            (-(internal as i32)) as i32
        } else {
            (-win32_error) as i32
        },
{
    if internal == 0 {
        return bytes as i32;
    }
    let ntstatus: i32 = internal as i32;
    let mapped_error: i32 = if win32_error == 0 {
        ntstatus
    } else {
        win32_error
    };
    -mapped_error
}

/// The AFD events to poll for an interest.
pub fn interest_to_afd_events(interest: Interest) -> (events: u32)
    ensures
        events == match (interest.readable, interest.writable) {
            (true, false) => 0xbbu32,
            (false, true) => 0x17cu32,
            (true, true) => 0x1ffu32,
            (false, false) => 0xfdu32,
        },
{
    let always: u32 = AFD_POLL_DISCONNECT | AFD_POLL_ABORT | AFD_POLL_LOCAL_CLOSE;
    let mut events: u32 = always;
    if interest.readable {
        events = events | (AFD_POLL_RECEIVE | AFD_POLL_RECEIVE_EXPEDITED | AFD_POLL_ACCEPT);
    }
    if interest.writable {
        events = events | (AFD_POLL_SEND | AFD_POLL_CONNECT | AFD_POLL_CONNECT_FAIL);
    }
    assert(0x08u32 | 0x10 | 0x20 == 0x38) by (bit_vector);
    assert(0x01u32 | 0x02 | 0x80 == 0x83) by (bit_vector);
    assert(0x04u32 | 0x40 | 0x100 == 0x144) by (bit_vector);
    assert(0x01u32 | 0x04 | 0x80 | 0x40 == 0xc5) by (bit_vector);
    assert(0x38u32 | 0x83 == 0xbb && 0x38u32 | 0x144 == 0x17c && 0xbbu32 | 0x144 == 0x1ff && 0x38u32
        | 0xc5 == 0xfd) by (bit_vector);
    if events == always {
        events = events | (AFD_POLL_RECEIVE | AFD_POLL_SEND | AFD_POLL_ACCEPT | AFD_POLL_CONNECT);
    }
    events
}

/// What finding the base socket of a socket calls for next.
#[derive(Debug, Clone, Copy, PartialEq, Eq)]
pub enum ResolveStep {
    /// Ask for the base socket of this socket.
    AskBase(usize),
    /// Ask for the socket that a layered provider polls in place of this one.
    AskPoll(usize),
    /// This is the base socket.
    Found(usize),
    /// Give up.
    Fail(Error),
}

/// The step after the base socket was asked for: a provider that does not tell is asked for the
/// socket that it polls.
pub fn after_ask_base(socket: usize, answer: Result<usize, Error>) -> (step: ResolveStep)
    ensures
        step == match answer {
            Ok(base) => ResolveStep::Found(base),
            Err(_) => ResolveStep::AskPoll(socket),
        },
{
    match answer {
        Ok(base) => ResolveStep::Found(base),
        Err(_) => ResolveStep::AskPoll(socket),
    }
}

/// The step after the polled socket was asked for: the search goes on from another valid socket.
pub fn after_ask_poll(socket: usize, answer: Result<usize, Error>) -> (step: ResolveStep)
    ensures
        step == match answer {
            Ok(base) => if base != INVALID_SOCKET && base != socket {
                ResolveStep::AskBase(base)
            } else {
                ResolveStep::Fail(
                    Error::Custom(
                        ErrorKind::Other,
                        "failed to resolve base socket for AFD polling",
                    ),
                )
            },
            Err(error) => ResolveStep::Fail(error),
        },
{
    match answer {
        Ok(base) => if base != INVALID_SOCKET && base != socket {
            ResolveStep::AskBase(base)
        } else {
            ResolveStep::Fail(
                Error::Custom(ErrorKind::Other, "failed to resolve base socket for AFD polling"),
            )
        },
        Err(error) => ResolveStep::Fail(error),
    }
}

/// What opening the AFD device came to.
pub fn open_afd_outcome(status: i32, mapped: i32, null_handle: bool) -> (r: Result<(), Error>)
    ensures
        r == if status < 0 {
            Err::<(), Error>(
                Error::Os(
                    if mapped != 0 {
                        mapped
                    } else {
                        status
                    },
                ),
            )
        } else if null_handle {
            Err(Error::Custom(ErrorKind::Other, "NtCreateFile returned a null AFD handle"))
        } else {
            Ok(())
        },
{
    if !status_is_success(status) {
        return Err(ntstatus_to_io_error(status, mapped));
    }
    if null_handle {
        return Err(Error::Custom(ErrorKind::Other, "NtCreateFile returned a null AFD handle"));
    }
    Ok(())
}

/// How many entries a look at the port brought: a wait that ran out of time, or whose port was
/// closed, brought none.
pub fn batch_outcome(removed: Result<usize, Error>) -> (r: Result<usize, Error>)
    ensures
        r == match removed {
            Ok(n) => Ok(n),
            Err(error) => if error == Error::Os(WAIT_TIMEOUT) || error == Error::Os(
                ERROR_ABANDONED_WAIT_0,
            ) {
                Ok(0)
            } else {
                Err(error)
            },
        },
{
    match removed {
        Ok(n) => Ok(n),
        Err(error) => if error.is_os(WAIT_TIMEOUT) || error.is_os(ERROR_ABANDONED_WAIT_0) {
            Ok(0)
        } else {
            Err(error)
        },
    }
}

/// What to do after a look at the port.
#[derive(Debug, Clone, Copy, PartialEq, Eq)]
pub enum WaitStep {
    /// Look again, without waiting.
    Again,
    /// Nothing is left.
    Done,
    /// The port is out of order.
    Broken(Error),
}

/// The step after a look at the port: as long as it brings entries there may be more.
pub fn after_batch(processed: Result<usize, Error>, interrupted: bool) -> (step: WaitStep)
    ensures
        step == match processed {
            Ok(n) => if n > 0 {
                WaitStep::Again
            } else {
                WaitStep::Done
            },
            Err(error) => if interrupted {
                WaitStep::Done
            } else {
                WaitStep::Broken(error)
            },
        },
{
    match processed {
        Ok(n) => if n > 0 {
            WaitStep::Again
        } else {
            WaitStep::Done
        },
        Err(error) => if interrupted {
            WaitStep::Done
        } else {
            WaitStep::Broken(error)
        },
    }
}

/// What forgetting a handle calls for.
#[derive(Debug, Clone, Copy, PartialEq, Eq, Structural)]
pub enum DeregisterStep {
    /// Cancel the AFD poll under way.
    CancelPoll(usize),
    /// Take the handle off the port.
    Disassociate,
}

spec fn handles_only(e: Map<usize, Record>) -> bool {
    forall|k: usize| #[trigger] e.contains_key(k) ==> e[k] is PortHandle
}

spec fn polls_only(e: Map<usize, Record>) -> bool {
    forall|k: usize| #[trigger] e.contains_key(k) ==> e[k] is PollOp
}

spec fn handles(e: Map<usize, Record>) -> Map<usize, HandleRegistration> {
    e.map_values(|r: Record| r->PortHandle_0)
}

spec fn polls(e: Map<usize, Record>) -> Map<usize, PollOp> {
    e.map_values(|r: Record| r->PollOp_0)
}

/// The registration under a token, for changing in place.
fn handle_mut(slab: &mut Slab<Record>, token: usize) -> (handle: Option<&mut HandleRegistration>)
    requires
        handles_only(slab_contents(*old(slab))),
    ensures
        handles_only(slab_contents(*final(slab))),
        match handle {
            Some(h) => {
                &&& handles(slab_contents(*old(slab))).contains_key(token)
                &&& *h == handles(slab_contents(*old(slab)))[token]
                &&& handles(slab_contents(*final(slab))) == handles(
                    slab_contents(*old(slab)),
                ).insert(token, *final(h))
            },
            None => {
                &&& !handles(slab_contents(*old(slab))).contains_key(token)
                &&& slab_contents(*final(slab)) == slab_contents(*old(slab))
            },
        },
{
    match slab_get_mut(slab, token) {
        Some(Record::PortHandle(handle)) => Some(handle),
        _ => None,
    }
}

/// The completion port driver's state beside the port itself.
pub struct IocpState {
    registrations: Slab<Record>,
    completions: Completions,
    poll_ops: Slab<Record>,
}

impl IocpState {
    pub closed spec fn wf(&self) -> bool {
        &&& handles_only(slab_contents(self.registrations))
        &&& self.completions.wf()
        &&& polls_only(slab_contents(self.poll_ops))
        &&& linked(self@)
    }

    /// What the driver has on record.
    pub closed spec fn view(&self) -> Books {
        Books {
            registrations: handles(slab_contents(self.registrations)),
            completions: self.completions@,
            poll_ops: polls(slab_contents(self.poll_ops)),
        }
    }

    /// A driver without registrations.
    pub fn new() -> (state: Self)
        ensures
            state.wf(),
            state@.registrations.dom().is_empty(),
            state@.completions.dom().is_empty(),
            state@.poll_ops.dom().is_empty(),
    {
        IocpState {
            registrations: slab_new(),
            completions: Completions::new(),
            poll_ops: slab_new(),
        }
    }

    /// Puts an AFD poll on record for a registration and returns its token, unless one is under
    /// way.
    pub fn arm_poll_operation(&mut self, registration_token: usize) -> (r: Result<
        Option<usize>,
        Error,
    >)
        requires
            old(self).wf(),
        ensures
            final(self).wf(),
            match r {
                Ok(Some(poll_token)) => {
                    &&& poll_outcome(old(self)@, registration_token) matches Ok(Some(_))
                    &&& !old(self)@.poll_ops.contains_key(poll_token)
                    &&& final(self)@ == armed(old(self)@, registration_token, poll_token)
                },
                Ok(None) => {
                    &&& poll_outcome(old(self)@, registration_token) == Ok::<Option<usize>, Error>(
                        None,
                    )
                    &&& final(self)@ == old(self)@
                },
                Err(error) => {
                    &&& poll_outcome(old(self)@, registration_token) == Err::<Option<usize>, Error>(
                        error,
                    )
                    &&& final(self)@ == old(self)@
                },
            },
    {
        let free: Result<bool, Error> = match slab_get(&self.registrations, registration_token) {
            Some(Record::PortHandle(HandleRegistration::Poll(registration))) => Ok(
                registration.poll_token.is_none(),
            ),
            Some(Record::PortHandle(HandleRegistration::Completion)) => Err(
                Error::NotPollMode(registration_token),
            ),
            _ => Err(Error::NotRegistered(registration_token)),
        };
        match free {
            Err(error) => Err(error),
            Ok(free) => {
                if !free {
                    return Ok(None);
                }
                let poll_token: usize = slab_insert(
                    &mut self.poll_ops,
                    Record::PollOp(PollOp { registration_token }),
                );
                assert(self@.poll_ops =~= old(self)@.poll_ops.insert(
                    poll_token,
                    PollOp { registration_token },
                ));
                match handle_mut(&mut self.registrations, registration_token) {
                    Some(HandleRegistration::Poll(registration)) => {
                        registration.poll_token = Some(poll_token);
                    },
                    _ => {},
                }
                assert(self@ =~= armed(old(self)@, registration_token, poll_token));
                Ok(Some(poll_token))
            },
        }
    }

    /// Ends the submission of an AFD poll: where it failed, the poll is off the record.
    pub fn finish_arm(
        &mut self,
        registration_token: usize,
        poll_token: usize,
        status: i32,
        mapped: i32,
    ) -> (r: Result<(), Error>)
        requires
            old(self).wf(),
            old(self)@.poll_ops.contains_key(poll_token),
            old(self)@.poll_ops[poll_token].registration_token == registration_token,
        ensures
            final(self).wf(),
            status >= 0 ==> r is Ok && final(self)@ == old(self)@,
            status < 0 ==> {
                &&& r == Err::<(), Error>(
                    Error::Os(
                        if mapped != 0 {
                            mapped
                        } else {
                            status
                        },
                    ),
                )
                &&& final(self)@ == disarmed(old(self)@, registration_token, poll_token)
            },
    {
        if status_is_success(status) || status == STATUS_PENDING {
            return Ok(());
        }
        let _ = slab_try_remove(&mut self.poll_ops, poll_token);
        assert(self@.poll_ops =~= old(self)@.poll_ops.remove(poll_token));
        match handle_mut(&mut self.registrations, registration_token) {
            Some(HandleRegistration::Poll(registration)) => {
                let ours = match registration.poll_token {
                    Some(token) => token == poll_token,
                    None => false,
                };
                if ours {
                    registration.poll_token = None;
                }
            },
            _ => {},
        }
        assert(self@ =~= disarmed(old(self)@, registration_token, poll_token));
        Err(ntstatus_to_io_error(status, mapped))
    }

    /// Whether an AFD poll is on record, so that it can be cancelled.
    pub fn poll_in_flight(&self, poll_token: usize) -> (in_flight: bool)
        requires
            self.wf(),
        ensures
            in_flight == self@.poll_ops.contains_key(poll_token),
    {
        slab_get(&self.poll_ops, poll_token).is_some()
    }

    /// Takes note of an AFD poll that has ended, and returns the waiter to wake.
    fn on_poll(&mut self, poll_token: usize) -> (waiter: Option<Waker>)
        requires
            old(self).wf(),
        ensures
            final(self).wf(),
            forall|result: i32|
                final(self)@ == #[trigger] on_entry(
                    old(self)@,
                    PortEntry {
                        key: AFD_POLL_COMPLETION_KEY,
                        token: Some(poll_token),
                        result,
                    },
                ),
            waiter == match polled_registration(old(self)@, poll_token) {
                Some((_, r)) => r.waiter,
                None => None,
            },
    {
        let ghost entry = PortEntry {
            key: AFD_POLL_COMPLETION_KEY,
            token: Some(poll_token),
            result: 0,
        };
        let registration_token: Option<usize> = match slab_get(&self.poll_ops, poll_token) {
            Some(Record::PollOp(poll)) => Some(poll.registration_token),
            _ => None,
        };
        let _ = slab_try_remove(&mut self.poll_ops, poll_token);
        assert(self@.poll_ops =~= old(self)@.poll_ops.remove(poll_token));
        let mut waiter: Option<Waker> = None;
        match registration_token {
            Some(registration_token) => {
                match handle_mut(&mut self.registrations, registration_token) {
                    Some(HandleRegistration::Poll(registration)) => {
                        let ours = match registration.poll_token {
                            Some(token) => token == poll_token,
                            None => false,
                        };
                        if ours {
                            registration.poll_token = None;
                        }
                        waiter = registration.waiter.take();
                    },
                    _ => {},
                }
            },
            None => {},
        }
        assert(self@ =~= on_entry(old(self)@, entry));
        waiter
    }

    /// Runs over entries of the completion port. Returns the wakers to wake and the tokens of
    /// operations that nobody will ask for.
    pub fn process_entries(&mut self, entries: &Vec<PortEntry>) -> (r: (Vec<Waker>, Vec<usize>))
        requires
            old(self).wf(),
        ensures
            final(self).wf(),
            final(self)@ == after_entries(old(self)@, entries@),
            r.0@ == woken_by_entries(old(self)@, entries@),
            r.1@ == released_by_entries(old(self)@, entries@),
    {
        let mut wakers: Vec<Waker> = Vec::new();
        let mut released: Vec<usize> = Vec::new();
        let ghost books = self@;
        let mut i: usize = 0;
        assert(entries@.take(0) =~= Seq::empty());
        while i < entries.len()
            invariant
                i <= entries@.len(),
                self.wf(),
                books == old(self)@,
                self@ == after_entries(books, entries@.take(i as int)),
                wakers@ == woken_by_entries(books, entries@.take(i as int)),
                released@ == released_by_entries(books, entries@.take(i as int)),
            decreases entries@.len() - i,
        {
            let entry = entries[i];
            let ghost before = self@;
            proof {
                let upto = entries@.take(i + 1);
                assert(upto.drop_last() =~= entries@.take(i as int));
                assert(upto.last() == entry);
            }
            let mut waiter: Option<Waker> = None;
            let mut release = false;
            match entry.token {
                Some(token) => {
                    if entry.key == INTERRUPT_KEY {
                    } else if entry.key == AFD_POLL_COMPLETION_KEY {
                        waiter = self.on_poll(token);
                        assert(self@ == on_entry(
                            before,
                            PortEntry {
                                key: AFD_POLL_COMPLETION_KEY,
                                token: Some(token),
                                result: entry.result,
                            },
                        ));
                    } else {
                        let (w, r) = self.completions.complete(token, entry.result);
                        waiter = w;
                        release = r;
                    }
                    if release {
                        released.push(token);
                    }
                },
                None => {},
            }
            match waiter {
                Some(waker) => {
                    wakers.push(waker);
                },
                None => {},
            }
            assert(self@ =~= on_entry(before, entry));
            i += 1;
        }
        assert(entries@.take(entries@.len() as int) =~= entries@);
        (wakers, released)
    }

    /// Puts a handle on record and returns its token. In poll mode `socket` is its base socket.
    pub fn register_handle_with_mode(
        &mut self,
        socket: usize,
        interest: Interest,
        mode: RegistrationMode,
    ) -> (token: usize)
        requires
            old(self).wf(),
        ensures
            final(self).wf(),
            !old(self)@.registrations.contains_key(token),
            final(self)@ == (Books {
                registrations: old(self)@.registrations.insert(
                    token,
                    match mode {
                        RegistrationMode::Completion => HandleRegistration::Completion,
                        RegistrationMode::Poll => HandleRegistration::Poll(
                            PollRegistration { socket, waiter: None, interest, poll_token: None },
                        ),
                    },
                ),
                ..old(self)@
            }),
    {
        let registration = match mode {
            RegistrationMode::Completion => HandleRegistration::Completion,
            RegistrationMode::Poll => HandleRegistration::Poll(
                PollRegistration { socket, waiter: None, interest, poll_token: None },
            ),
        };
        let ghost put = registration;
        let token: usize = slab_insert(&mut self.registrations, Record::PortHandle(registration));
        proof {
            assert(self@.registrations =~= old(self)@.registrations.insert(token, put));
            assert(self@ =~= Books { registrations: self@.registrations, ..old(self)@ });
        }
        token
    }

    /// Takes a handle off the record that could not be put on the port.
    pub fn register_failed(&mut self, token: usize)
        requires
            old(self).wf(),
        ensures
            final(self).wf(),
            final(self)@ == (Books {
                registrations: old(self)@.registrations.remove(token),
                ..old(self)@
            }),
    {
        let _ = slab_try_remove(&mut self.registrations, token);
        proof {
            assert(self@.registrations =~= old(self)@.registrations.remove(token));
            assert(self@ =~= Books { registrations: self@.registrations, ..old(self)@ });
        }
    }

    /// Changes the interest of a registered handle. In completion mode there is none to change.
    pub fn reregister_handle(&mut self, token: usize, interest: Interest) -> (r: Result<(), Error>)
        requires
            old(self).wf(),
        ensures
            final(self).wf(),
            r == if old(self)@.registrations.contains_key(token) {
                Ok::<(), Error>(())
            } else {
                Err(Error::NotRegistered(token))
            },
            final(self)@ == if old(self)@.registrations.contains_key(token) {
                match old(self)@.registrations[token] {
                    HandleRegistration::Poll(registration) => Books {
                        registrations: old(self)@.registrations.insert(
                            token,
                            HandleRegistration::Poll(
                                PollRegistration { interest, ..registration },
                            ),
                        ),
                        ..old(self)@
                    },
                    HandleRegistration::Completion => old(self)@,
                }
            } else {
                old(self)@
            },
    {
        let r = match handle_mut(&mut self.registrations, token) {
            Some(HandleRegistration::Completion) => Ok(()),
            Some(HandleRegistration::Poll(registration)) => {
                registration.interest = interest;
                Ok(())
            },
            None => Err(Error::NotRegistered(token)),
        };
        proof {
            if old(self)@.registrations.contains_key(token)
                && old(self)@.registrations[token] is Completion {
                assert(self@.registrations =~= old(self)@.registrations);
            }
            assert(self@ =~= Books { registrations: self@.registrations, ..old(self)@ });
        }
        r
    }

    /// Forgets a registered handle, and says what else that calls for.
    pub fn deregister_handle(&mut self, token: usize) -> (r: Result<DeregisterStep, Error>)
        requires
            old(self).wf(),
        ensures
            final(self).wf(),
            r == if !old(self)@.registrations.contains_key(token) {
                Err::<DeregisterStep, Error>(Error::NotRegistered(token))
            } else {
                match old(self)@.registrations[token] {
                    HandleRegistration::Poll(registration) => match registration.poll_token {
                        Some(poll_token) => Ok(DeregisterStep::CancelPoll(poll_token)),
                        None => Ok(DeregisterStep::Disassociate),
                    },
                    HandleRegistration::Completion => Ok(DeregisterStep::Disassociate),
                }
            },
            final(self)@ == (Books {
                registrations: old(self)@.registrations.remove(token),
                ..old(self)@
            }),
    {
        let r = match slab_try_remove(&mut self.registrations, token) {
            Some(Record::PortHandle(HandleRegistration::Poll(registration))) => {
                match registration.poll_token {
                    Some(poll_token) => Ok(DeregisterStep::CancelPoll(poll_token)),
                    None => Ok(DeregisterStep::Disassociate),
                }
            },
            Some(_) => Ok(DeregisterStep::Disassociate),
            None => Err(Error::NotRegistered(token)),
        };
        proof {
            assert(self@.registrations =~= old(self)@.registrations.remove(token));
            assert(self@ =~= Books { registrations: self@.registrations, ..old(self)@ });
        }
        r
    }

    /// Puts an operation on record before it is submitted and returns its token.
    pub fn submit_completion(&mut self, waker: Waker) -> (token: usize)
        requires
            old(self).wf(),
        ensures
            final(self).wf(),
            !old(self)@.completions.contains_key(token),
            final(self)@ == (Books {
                completions: old(self)@.completions.insert(token, in_flight(waker)),
                ..old(self)@
            }),
    {
        let token: usize = self.completions.submit(waker);
        assert(self@ =~= Books { completions: self@.completions, ..old(self)@ });
        token
    }

    /// Takes an operation off the record that could not be submitted.
    pub fn submit_failed(&mut self, token: usize)
        requires
            old(self).wf(),
        ensures
            final(self).wf(),
            final(self)@ == (Books {
                completions: old(self)@.completions.remove(token),
                ..old(self)@
            }),
    {
        self.completions.withdraw(token);
        assert(self@ =~= Books { completions: self@.completions, ..old(self)@ });
    }

    /// Who waits for a socket.
    pub fn waiter_of(&self, token: usize) -> (waiter: Option<&Waker>)
        requires
            self.wf(),
        ensures
            match waiter {
                Some(w) => waiter_in(self@, token) == Some(*w),
                None => waiter_in(self@, token) is None,
            },
    {
        match slab_get(&self.registrations, token) {
            Some(Record::PortHandle(HandleRegistration::Poll(registration))) => {
                registration.waiter.as_ref()
            },
            _ => None,
        }
    }

    /// Has a task wait for a socket, where it is already known whether the waker now waiting wakes
    /// the same task. Returns the socket to poll, unless a poll is under way.
    pub fn submit_poll_of(
        &mut self,
        token: usize,
        waker: Waker,
        interest: Interest,
        same_task: bool,
    ) -> (r: Result<Option<usize>, Error>)
        requires
            old(self).wf(),
        ensures
            final(self).wf(),
            r == poll_outcome(old(self)@, token),
            final(self)@ == waiting(old(self)@, token, waker, interest, same_task),
    {
        let r = match handle_mut(&mut self.registrations, token) {
            Some(HandleRegistration::Poll(registration)) => {
                registration.interest = interest;
                offer_waiter(&mut registration.waiter, waker, same_task);
                if registration.poll_token.is_none() {
                    Ok(Some(registration.socket))
                } else {
                    Ok(None)
                }
            },
            Some(HandleRegistration::Completion) => Err(Error::NotPollMode(token)),
            None => Err(Error::NotRegistered(token)),
        };
        proof {
            if old(self)@.registrations.contains_key(token)
                && old(self)@.registrations[token] is Completion {
                assert(self@.registrations =~= old(self)@.registrations);
            }
            assert(self@ =~= waiting(old(self)@, token, waker, interest, same_task));
        }
        r
    }

    /// Has a task wait for a socket. Returns the socket to poll, unless a poll is under way.
    pub fn submit_poll(&mut self, token: usize, waker: Waker, interest: Interest) -> (r: Result<
        Option<usize>,
        Error,
    >)
        requires
            old(self).wf(),
        ensures
            final(self).wf(),
            r == poll_outcome(old(self)@, token),
            exists|same_task: bool|
                is_answer(waiter_in(old(self)@, token), waker, same_task) && final(self)@
                    == #[trigger] waiting(old(self)@, token, waker, interest, same_task),
    {
        let same_task = holds_same_task(self.waiter_of(token), &waker);
        self.submit_poll_of(token, waker, interest, same_task)
    }

    /// Takes the result of an operation, once there is one.
    pub fn get_completion_result(&mut self, token: usize) -> (result: Option<i32>)
        requires
            old(self).wf(),
        ensures
            final(self).wf(),
            result == result_of(old(self)@.completions, token),
            final(self)@ == if result is Some {
                Books { completions: old(self)@.completions.remove(token), ..old(self)@ }
            } else {
                old(self)@
            },
    {
        let result: Option<i32> = self.completions.get_completion_result(token);
        assert(self@ =~= Books { completions: self@.completions, ..old(self)@ });
        result
    }

    /// Has a task wait for an operation.
    pub fn set_completion_waker(&mut self, token: usize, waker: Waker)
        requires
            old(self).wf(),
        ensures
            final(self).wf(),
            final(self)@.registrations == old(self)@.registrations,
            final(self)@.poll_ops == old(self)@.poll_ops,
            exists|same_task: bool|
                is_answer(
                    completions::waiter_in(old(self)@.completions, token),
                    waker,
                    same_task,
                ) && final(self)@.completions == #[trigger] awaiting(
                    old(self)@.completions,
                    token,
                    waker,
                    same_task,
                ),
    {
        let ghost before = self.completions@;
        self.completions.set_completion_waker(token, waker);
        proof {
            let same_task = choose|same_task: bool|
                is_answer(completions::waiter_in(before, token), waker, same_task)
                    && self.completions@ == #[trigger] awaiting(before, token, waker, same_task);
            assert(self@.completions == awaiting(
                old(self)@.completions,
                token,
                waker,
                same_task,
            ));
        }
    }

    /// Has the result of an operation dropped when it comes. Returns whether the operation is in
    /// the books.
    pub fn ignore_completion(&mut self, token: usize) -> (ignored: bool)
        requires
            old(self).wf(),
        ensures
            final(self).wf(),
            ignored == old(self)@.completions.contains_key(token),
            final(self)@ == (Books {
                completions: ignoring(old(self)@.completions, token),
                ..old(self)@
            }),
    {
        let ignored = self.completions.ignore_completion(token);
        assert(self@ =~= Books { completions: self@.completions, ..old(self)@ });
        ignored
    }
}

/// Where an AFD poll could not be submitted, taking it off the record leaves the books as they
/// were before it was put there.
pub proof fn law_a_failed_poll_is_undone(books: Books, token: usize, poll_token: usize)
    requires
        poll_outcome(books, token) matches Ok(Some(_)),
        !books.poll_ops.contains_key(poll_token),
    ensures
        disarmed(armed(books, token, poll_token), token, poll_token) == books,
{
    assert(disarmed(armed(books, token, poll_token), token, poll_token) =~= books);
}

/// A task that waits for a socket is woken when the AFD poll put on record for it ends, and the
/// next wait asks for a poll again.
pub proof fn law_a_poll_is_answered(
    books: Books,
    token: usize,
    poll_token: usize,
    waker: Waker,
    interest: Interest,
    result: i32,
)
    requires
        poll_outcome(books, token) matches Ok(Some(_)),
        !books.poll_ops.contains_key(poll_token),
    ensures
        ({
            let now = armed(waiting(books, token, waker, interest, false), token, poll_token);
            let entry = PortEntry {
                key: AFD_POLL_COMPLETION_KEY,
                token: Some(poll_token),
                result,
            };
            &&& woken_by(now, entry) == Some(waker)
            &&& poll_outcome(now, token) == Ok::<Option<usize>, Error>(None)
            &&& poll_outcome(on_entry(now, entry), token) == poll_outcome(books, token)
            &&& on_entry(now, entry).poll_ops == books.poll_ops
        }),
{
    let now = armed(waiting(books, token, waker, interest, false), token, poll_token);
    let entry = PortEntry { key: AFD_POLL_COMPLETION_KEY, token: Some(poll_token), result };
    assert(on_entry(now, entry).poll_ops =~= books.poll_ops);
}

/// Entries neither add nor drop registrations, add neither operations nor polls, and leave each
/// poll under way on record for its registration.
pub proof fn law_entries_add_nothing(books: Books, entries: Seq<PortEntry>)
    requires
        linked(books),
    ensures
        linked(after_entries(books, entries)),
        after_entries(books, entries).registrations.dom() == books.registrations.dom(),
        after_entries(books, entries).completions.dom().subset_of(books.completions.dom()),
        after_entries(books, entries).poll_ops.dom().subset_of(books.poll_ops.dom()),
    decreases entries.len(),
{
    if entries.len() > 0 {
        law_entries_add_nothing(books, entries.drop_last());
        assert(after_entries(books, entries).registrations.dom() =~= books.registrations.dom());
    }
}

/// Only a socket that is registered for polling can be waited for. A poll of it is asked for just
/// where none is under way.
pub proof fn law_a_wait_asks_for_what_is_missing(books: Books, token: usize)
    ensures
        !books.registrations.contains_key(token) ==> poll_outcome(books, token) == Err::<
            Option<usize>,
            Error,
        >(Error::NotRegistered(token)),
        books.registrations.contains_key(token) && books.registrations[token] is Completion
            ==> poll_outcome(books, token) == Err::<Option<usize>, Error>(Error::NotPollMode(token)),
        books.registrations.contains_key(token) && books.registrations[token] is Poll ==> {
            let r = books.registrations[token]->Poll_0;
            &&& r.poll_token is None ==> poll_outcome(books, token) == Ok::<Option<usize>, Error>(
                Some(r.socket),
            )
            &&& r.poll_token is Some ==> poll_outcome(books, token) == Ok::<Option<usize>, Error>(
                None,
            )
        },
{
}

/// A wait notes its waker and its interest with its socket, and changes nothing else.
pub proof fn law_a_wait_is_for_its_socket(
    books: Books,
    token: usize,
    waker: Waker,
    interest: Interest,
    same_task: bool,
    other: usize,
)
    ensures
        ({
            let now = waiting(books, token, waker, interest, same_task);
            &&& now.completions == books.completions
            &&& now.poll_ops == books.poll_ops
            &&& now.registrations.contains_key(other) == books.registrations.contains_key(other)
            &&& other != token && books.registrations.contains_key(other)
                ==> now.registrations[other] == books.registrations[other]
            &&& books.registrations.contains_key(token) && books.registrations[token] is Poll ==> {
                let r = books.registrations[token]->Poll_0;
                let n = now.registrations[token]->Poll_0;
                &&& now.registrations[token] is Poll
                &&& n.socket == r.socket && n.poll_token == r.poll_token
                &&& n.interest == interest
                &&& n.waiter is Some
                &&& !same_task || r.waiter is None ==> n.waiter == Some(waker)
                &&& same_task && r.waiter is Some ==> n.waiter == r.waiter
                &&& waiter_in(books, token) == r.waiter
            }
            &&& !books.registrations.contains_key(token) ==> waiter_in(books, token) is None
        }),
{
}

/// A poll that is put on record is for its registration, and no other is touched.
pub proof fn law_a_poll_is_for_its_registration(
    books: Books,
    token: usize,
    poll_token: usize,
    other: usize,
)
    requires
        poll_outcome(books, token) matches Ok(Some(_)),
    ensures
        ({
            let now = armed(books, token, poll_token);
            let r = books.registrations[token]->Poll_0;
            &&& now.completions == books.completions
            &&& now.registrations[token] is Poll
            &&& now.registrations[token]->Poll_0.poll_token == Some(poll_token)
            &&& now.registrations[token]->Poll_0.socket == r.socket
            &&& now.registrations[token]->Poll_0.waiter == r.waiter
            &&& now.registrations[token]->Poll_0.interest == r.interest
            &&& now.poll_ops.contains_key(poll_token)
            &&& now.poll_ops[poll_token].registration_token == token
            &&& other != poll_token && books.poll_ops.contains_key(other)
                ==> now.poll_ops.contains_key(other) && now.poll_ops[other] == books.poll_ops[other]
            &&& other != token && books.registrations.contains_key(other)
                ==> now.registrations[other] == books.registrations[other]
        }),
{
}

/// An entry is for the poll or the operation whose token it carries. An entry without a token and the
/// interrupt are for none.
pub proof fn law_an_entry_is_for_its_token(books: Books, entry: PortEntry, other: usize)
    ensures
        ({
            let now = on_entry(books, entry);
            &&& entry.token is None || entry.key == usize::MAX ==> {
                &&& now == books
                &&& woken_by(books, entry) is None
                &&& !releases(books, entry)
            }
            &&& entry.token matches Some(token) ==> {
                &&& entry.key == usize::MAX - 1 ==> {
                    &&& now.completions == books.completions
                    &&& !now.poll_ops.contains_key(token)
                    &&& other != token && books.poll_ops.contains_key(other)
                        ==> now.poll_ops.contains_key(other) && now.poll_ops[other]
                        == books.poll_ops[other]
                    &&& books.registrations.contains_key(other) && !(books.poll_ops.contains_key(
                        token,
                    ) && books.poll_ops[token].registration_token == other)
                        ==> now.registrations[other] == books.registrations[other]
                    &&& !releases(books, entry)
                }
                &&& entry.key < usize::MAX - 1 ==> {
                    &&& now.registrations == books.registrations
                    &&& now.poll_ops == books.poll_ops
                    &&& other != token && books.completions.contains_key(other)
                        ==> now.completions.contains_key(other) && now.completions[other]
                        == books.completions[other]
                }
            }
        }),
{
}

/// The entry of an operation wakes the task that waits for it. Its result is put on record, or, where
/// nobody will ask for it, the operation leaves the books and what it held is released.
pub proof fn law_an_operation_is_answered(books: Books, key: usize, token: usize, result: i32)
    requires
        key < usize::MAX - 1,
        books.completions.contains_key(token),
    ensures
        ({
            let entry = PortEntry { key, token: Some(token), result };
            let now = on_entry(books, entry);
            &&& woken_by(books, entry) == books.completions[token].waiter
            &&& releases(books, entry) <==> books.completions[token].ignored
            &&& books.completions[token].ignored ==> !now.completions.contains_key(token)
            &&& !books.completions[token].ignored ==> result_of(now.completions, token) == Some(
                result,
            )
            &&& released_by_entries(books, seq![entry]) == if books.completions[token].ignored {
                seq![token]
            } else {
                Seq::empty()
            }
        }),
{
    let entry = PortEntry { key, token: Some(token), result };
    let one = seq![entry];
    assert(one.drop_last() =~= Seq::empty());
    assert(after_entries(books, one.drop_last()) == books);
    assert(released_by_entries(books, one.drop_last()) =~= Seq::empty());
    assert(released_by_entries(books, one) =~= if books.completions[token].ignored {
        seq![token]
    } else {
        Seq::empty()
    });
}

/// The end of a poll wakes whoever waits for the socket, which keeps its interest and is polled no
/// longer, unless another poll has taken over.
pub proof fn law_the_end_of_a_poll_wakes(books: Books, token: usize, poll_token: usize, result: i32)
    requires
        books.poll_ops.contains_key(poll_token),
        books.poll_ops[poll_token].registration_token == token,
        books.registrations.contains_key(token),
        books.registrations[token] is Poll,
    ensures
        ({
            let entry = PortEntry { key: (usize::MAX - 1) as usize, token: Some(poll_token), result };
            let r = books.registrations[token]->Poll_0;
            let now = on_entry(books, entry).registrations[token]->Poll_0;
            &&& woken_by(books, entry) == r.waiter
            &&& now.waiter is None
            &&& now.socket == r.socket && now.interest == r.interest
            &&& r.poll_token == Some(poll_token) ==> now.poll_token is None
            &&& r.poll_token != Some(poll_token) ==> now.poll_token == r.poll_token
        }),
{
}

/// Entries are taken one after the other: those of two batches do what they do as one.
pub proof fn law_entries_come_one_after_the_other(
    books: Books,
    first: Seq<PortEntry>,
    then_come: Seq<PortEntry>,
    entry: PortEntry,
)
    ensures
        after_entries(books, seq![entry]) == on_entry(books, entry),
        woken_by_entries(books, seq![entry]) == match woken_by(books, entry) {
            Some(waker) => seq![waker],
            None => Seq::empty(),
        },
        after_entries(books, first + then_come) == after_entries(
            after_entries(books, first),
            then_come,
        ),
        woken_by_entries(books, first + then_come) == woken_by_entries(books, first)
            + woken_by_entries(after_entries(books, first), then_come),
        released_by_entries(books, first + then_come) == released_by_entries(books, first)
            + released_by_entries(after_entries(books, first), then_come),
    decreases then_come.len(),
{
    let one = seq![entry];
    assert(one.drop_last() =~= Seq::empty());
    assert(after_entries(books, one.drop_last()) == books);
    assert(woken_by_entries(books, one.drop_last()) =~= Seq::empty());
    assert(woken_by_entries(books, one) =~= match woken_by(books, entry) {
        Some(waker) => seq![waker],
        None => Seq::empty(),
    });
    let between = after_entries(books, first);
    if then_come.len() == 0 {
        assert(first + then_come =~= first);
        assert(woken_by_entries(books, first) + Seq::empty() =~= woken_by_entries(books, first));
        assert(released_by_entries(books, first) + Seq::empty() =~= released_by_entries(
            books,
            first,
        ));
    } else {
        let all = first + then_come;
        assert(all.drop_last() =~= first + then_come.drop_last());
        assert(all.last() == then_come.last());
        law_entries_come_one_after_the_other(books, first, then_come.drop_last(), entry);
        assert(woken_by_entries(books, all) =~= woken_by_entries(books, first) + woken_by_entries(
            between,
            then_come,
        ));
        assert(released_by_entries(books, all) =~= released_by_entries(books, first)
            + released_by_entries(between, then_come));
    }
}

} // verus!
