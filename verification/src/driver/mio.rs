//! The readiness driver's books: which handles are watched, for what, and who waits.

use crate::driver::{any, holds_same_task, is_answer, offer_waiter, offered, Interest};
use crate::error::Error;
use crate::slots::{
    slab_contents, slab_get, slab_get_mut, slab_insert, slab_new, slab_try_remove, Record,
};
use slab::Slab;
use std::task::Waker;
use vstd::prelude::*;

verus! {

/// The token of the event that interrupts a wait.
pub const INTERRUPT_TOKEN: usize = usize::MAX;

/// A handle that is watched for readiness.
pub struct Registration {
    pub fd: i32,
    pub waiter_read: Option<Waker>,
    /// Who waits for writability, or for both.
    pub waiter_write: Option<Waker>,
    /// What the handle is watched for, unless an event has used that up.
    pub interest: Option<Interest>,
}

/// The registrations after an event: the one it is for is no longer watched, and nobody waits.
pub open spec fn on_event(registrations: Map<usize, Registration>, token: usize) -> Map<
    usize,
    Registration,
> {
    if token != INTERRUPT_TOKEN && registrations.contains_key(token) {
        registrations.insert(
            token,
            Registration {
                waiter_read: None,
                waiter_write: None,
                interest: None,
                ..registrations[token]
            },
        )
    } else {
        registrations
    }
}

/// The waiters that an event wakes.
pub open spec fn woken_by(registrations: Map<usize, Registration>, token: usize) -> Seq<Waker> {
    if token != INTERRUPT_TOKEN && registrations.contains_key(token) {
        any(registrations[token].waiter_read) + any(registrations[token].waiter_write)
    } else {
        Seq::empty()
    }
}

/// The registrations after the events, in order.
pub open spec fn after_events(registrations: Map<usize, Registration>, tokens: Seq<usize>) -> Map<
    usize,
    Registration,
>
    decreases tokens.len(),
{
    if tokens.len() == 0 {
        registrations
    } else {
        on_event(after_events(registrations, tokens.drop_last()), tokens.last())
    }
}

/// The waiters that the events wake, in order.
pub open spec fn woken_by_events(
    registrations: Map<usize, Registration>,
    tokens: Seq<usize>,
) -> Seq<Waker>
    decreases tokens.len(),
{
    if tokens.len() == 0 {
        Seq::empty()
    } else {
        woken_by_events(registrations, tokens.drop_last()) + woken_by(
            after_events(registrations, tokens.drop_last()),
            tokens.last(),
        )
    }
}

/// What waiting for a handle calls for.
#[derive(Debug, Clone, Copy, PartialEq, Eq, Structural)]
pub enum PollStep {
    /// Watch the handle for this interest first.
    Reregister(i32, Interest),
    /// The handle is watched for the interest already.
    Wait,
}

/// What a handle has to be watched for once a task waits for it: its interest, and that of whoever
/// waits already.
pub open spec fn wanted(r: Registration, interest: Interest) -> Interest {
    Interest {
        readable: interest.readable || r.waiter_read is Some,
        writable: interest.writable || r.waiter_write is Some,
    }
}

/// The first step of waiting for a handle.
pub open spec fn poll_step_of(
    registrations: Map<usize, Registration>,
    token: usize,
    interest: Interest,
) -> Result<PollStep, Error> {
    if !registrations.contains_key(token) {
        Err(Error::NotRegistered(token))
    } else if registrations[token].interest == Some(wanted(registrations[token], interest)) {
        Ok(PollStep::Wait)
    } else {
        Ok(PollStep::Reregister(registrations[token].fd, wanted(registrations[token], interest)))
    }
}

/// Who waits for a handle in the interest's direction.
pub open spec fn waiter_in(
    registrations: Map<usize, Registration>,
    token: usize,
    interest: Interest,
) -> Option<Waker> {
    if registrations.contains_key(token) {
        if interest.writable {
            registrations[token].waiter_write
        } else {
            registrations[token].waiter_read
        }
    } else {
        None
    }
}

/// The registrations once a task waits for a handle: its waker is the one for the interest's
/// direction, and the handle is watched for what all who wait want.
pub open spec fn waiting(
    registrations: Map<usize, Registration>,
    token: usize,
    waker: Waker,
    interest: Interest,
    same_task: bool,
) -> Map<usize, Registration> {
    if registrations.contains_key(token) {
        let r = registrations[token];
        let watched = Registration { interest: Some(wanted(r, interest)), ..r };
        registrations.insert(
            token,
            if interest.writable {
                Registration {
                    waiter_write: offered(r.waiter_write, waker, same_task),
                    ..watched
                }
            } else {
                Registration { waiter_read: offered(r.waiter_read, waker, same_task), ..watched }
            },
        )
    } else {
        registrations
    }
}

spec fn watches_only(e: Map<usize, Record>) -> bool {
    forall|k: usize| #[trigger] e.contains_key(k) ==> e[k] is Watch
}

spec fn watches(e: Map<usize, Record>) -> Map<usize, Registration> {
    e.map_values(|r: Record| r->Watch_0)
}

/// What a handle has to be watched for once a task waits for it.
fn all_wanted(registration: &Registration, interest: Interest) -> (all: Interest)
    ensures
        all == wanted(*registration, interest),
{
    Interest {
        readable: interest.readable || registration.waiter_read.is_some(),
        writable: interest.writable || registration.waiter_write.is_some(),
    }
}

/// Adds a waker, if there is one.
fn push_any(wakers: &mut Vec<Waker>, waiter: Option<Waker>)
    ensures
        final(wakers)@ == old(wakers)@ + any(waiter),
{
    match waiter {
        Some(waker) => {
            wakers.push(waker);
        },
        None => {},
    }
    assert(wakers@ =~= old(wakers)@ + any(waiter));
}

/// The registrations of the readiness driver.
pub struct MioState {
    registrations: Slab<Record>,
}

impl MioState {
    pub closed spec fn wf(&self) -> bool {
        watches_only(slab_contents(self.registrations))
    }

    /// The registrations, by token.
    pub closed spec fn view(&self) -> Map<usize, Registration> {
        watches(slab_contents(self.registrations))
    }

    /// No registrations.
    pub fn new() -> (state: Self)
        ensures
            state.wf(),
            state@.dom().is_empty(),
    {
        MioState { registrations: slab_new() }
    }

    /// The registration under a token, for changing in place.
    fn registration_mut(&mut self, token: usize) -> (registration: Option<&mut Registration>)
        requires
            old(self).wf(),
        ensures
            final(self).wf(),
            match registration {
                Some(r) => {
                    &&& old(self)@.contains_key(token)
                    &&& *r == old(self)@[token]
                    &&& final(self)@ == old(self)@.insert(token, *final(r))
                },
                None => {
                    &&& !old(self)@.contains_key(token)
                    &&& final(self)@ == old(self)@
                },
            },
    {
        match slab_get_mut(&mut self.registrations, token) {
            Some(Record::Watch(registration)) => Some(registration),
            _ => None,
        }
    }

    /// Takes note of events and returns the waiters to wake. An event uses the interest up, so
    /// that the next wait watches the handle anew.
    pub fn process_events(&mut self, tokens: &Vec<usize>) -> (wakers: Vec<Waker>)
        requires
            old(self).wf(),
        ensures
            final(self).wf(),
            final(self)@ == after_events(old(self)@, tokens@),
            wakers@ == woken_by_events(old(self)@, tokens@),
    {
        let mut wakers: Vec<Waker> = Vec::new();
        let ghost before = self@;
        let mut i: usize = 0;
        assert(tokens@.take(0) =~= Seq::empty());
        while i < tokens.len()
            invariant
                i <= tokens@.len(),
                self.wf(),
                before == old(self)@,
                self@ == after_events(before, tokens@.take(i as int)),
                wakers@ == woken_by_events(before, tokens@.take(i as int)),
            decreases tokens@.len() - i,
        {
            let token: usize = tokens[i];
            let ghost now = self@;
            proof {
                let upto = tokens@.take(i + 1);
                assert(upto.drop_last() =~= tokens@.take(i as int));
                assert(upto.last() == token);
            }
            let mut reader: Option<Waker> = None;
            let mut writer: Option<Waker> = None;
            if token != INTERRUPT_TOKEN {
                match self.registration_mut(token) {
                    Some(registration) => {
                        registration.interest = None;
                        reader = registration.waiter_read.take();
                        writer = registration.waiter_write.take();
                    },
                    None => {},
                }
            }
            assert(self@ =~= on_event(now, token));
            let ghost woken = wakers@;
            push_any(&mut wakers, reader);
            push_any(&mut wakers, writer);
            proof {
                assert(any(reader) + any(writer) =~= woken_by(now, token));
                assert(wakers@ =~= woken + woken_by(now, token));
            }
            i += 1;
        }
        assert(tokens@.take(tokens@.len() as int) =~= tokens@);
        wakers
    }

    /// Puts a handle on record and returns its token.
    pub fn register_handle(&mut self, fd: i32, interest: Interest) -> (token: usize)
        requires
            old(self).wf(),
        ensures
            final(self).wf(),
            !old(self)@.contains_key(token),
            token != INTERRUPT_TOKEN,
            final(self)@ == old(self)@.insert(
                token,
                (Registration {
                    fd,
                    waiter_read: None,
                    waiter_write: None,
                    interest: Some(interest),
                }),
            ),
    {
        let token: usize = slab_insert(
            &mut self.registrations,
            Record::Watch(
                Registration {
                    fd,
                    waiter_read: None,
                    waiter_write: None,
                    interest: Some(interest),
                },
            ),
        );
        assert(self@ =~= old(self)@.insert(
            token,
            Registration {
                fd,
                waiter_read: None,
                waiter_write: None,
                interest: Some(interest),
            },
        ));
        token
    }

    /// Takes a handle off the record: it could not be watched, or is no longer.
    pub fn forget_handle(&mut self, token: usize)
        requires
            old(self).wf(),
        ensures
            final(self).wf(),
            final(self)@ == old(self)@.remove(token),
    {
        let _ = slab_try_remove(&mut self.registrations, token);
        assert(self@ =~= old(self)@.remove(token));
    }

    /// The handle registered under a token.
    pub fn registered_fd(&self, token: usize) -> (r: Result<i32, Error>)
        requires
            self.wf(),
        ensures
            r == if self@.contains_key(token) {
                Ok::<i32, Error>(self@[token].fd)
            } else {
                Err(Error::NotRegistered(token))
            },
    {
        match slab_get(&self.registrations, token) {
            Some(Record::Watch(registration)) => Ok(registration.fd),
            _ => Err(Error::NotRegistered(token)),
        }
    }

    /// Takes note of what a handle is now watched for.
    pub fn reregister_handle(&mut self, token: usize, interest: Interest)
        requires
            old(self).wf(),
        ensures
            final(self).wf(),
            final(self)@ == if old(self)@.contains_key(token) {
                old(self)@.insert(
                    token,
                    Registration { interest: Some(interest), ..old(self)@[token] },
                )
            } else {
                old(self)@
            },
    {
        match self.registration_mut(token) {
            Some(registration) => {
                registration.interest = Some(interest);
            },
            None => {},
        }
    }

    /// The first step of waiting for a handle: it is watched anew only where it is not watched for
    /// what all who wait then want.
    pub fn poll_step(&self, token: usize, interest: Interest) -> (r: Result<PollStep, Error>)
        requires
            self.wf(),
        ensures
            r == poll_step_of(self@, token, interest),
    {
        match slab_get(&self.registrations, token) {
            Some(Record::Watch(registration)) => {
                let all = all_wanted(registration, interest);
                let watched = match registration.interest {
                    Some(current) => current == all,
                    None => false,
                };
                if watched {
                    Ok(PollStep::Wait)
                } else {
                    Ok(PollStep::Reregister(registration.fd, all))
                }
            },
            _ => Err(Error::NotRegistered(token)),
        }
    }

    /// Who waits for a handle in the interest's direction.
    pub fn waiter_of(&self, token: usize, interest: Interest) -> (waiter: Option<&Waker>)
        requires
            self.wf(),
        ensures
            match waiter {
                Some(w) => waiter_in(self@, token, interest) == Some(*w),
                None => waiter_in(self@, token, interest) is None,
            },
    {
        match slab_get(&self.registrations, token) {
            Some(Record::Watch(registration)) => if interest.writable {
                registration.waiter_write.as_ref()
            } else {
                registration.waiter_read.as_ref()
            },
            _ => None,
        }
    }

    /// Has a task wait for a handle that is watched for the interest, where it is already known
    /// whether the waker now waiting wakes the same task.
    pub fn submit_poll_of(&mut self, token: usize, waker: Waker, interest: Interest, same_task: bool)
        requires
            old(self).wf(),
        ensures
            final(self).wf(),
            final(self)@ == waiting(old(self)@, token, waker, interest, same_task),
    {
        match self.registration_mut(token) {
            Some(registration) => {
                let all = all_wanted(registration, interest);
                registration.interest = Some(all);
                if interest.writable {
                    offer_waiter(&mut registration.waiter_write, waker, same_task);
                } else {
                    offer_waiter(&mut registration.waiter_read, waker, same_task);
                }
            },
            None => {},
        }
        assert(self@ =~= waiting(old(self)@, token, waker, interest, same_task));
    }

    /// Has a task wait for a handle that is watched for the interest.
    pub fn submit_poll(&mut self, token: usize, waker: Waker, interest: Interest)
        requires
            old(self).wf(),
        ensures
            final(self).wf(),
            exists|same_task: bool|
                is_answer(waiter_in(old(self)@, token, interest), waker, same_task) && final(self)@
                    == #[trigger] waiting(old(self)@, token, waker, interest, same_task),
    {
        let same_task = holds_same_task(self.waiter_of(token, interest), &waker);
        self.submit_poll_of(token, waker, interest, same_task);
    }
}

/// Events neither add nor drop registrations.
pub proof fn law_events_keep_registrations(
    registrations: Map<usize, Registration>,
    tokens: Seq<usize>,
)
    ensures
        after_events(registrations, tokens).dom() == registrations.dom(),
    decreases tokens.len(),
{
    if tokens.len() > 0 {
        law_events_keep_registrations(registrations, tokens.drop_last());
        assert(after_events(registrations, tokens).dom() =~= registrations.dom());
    }
}

/// A task that waits for a registered handle is woken by the handle's next event, as is whoever
/// waits in the other direction, and after that event the handle has to be watched anew.
pub proof fn law_an_event_wakes_its_waiters(
    registrations: Map<usize, Registration>,
    token: usize,
    waker: Waker,
    interest: Interest,
    next: Interest,
)
    requires
        waiter_in(registrations, token, interest) == Some(waker),
        token != INTERRUPT_TOKEN,
    ensures
        woken_by(registrations, token).contains(waker),
        woken_by(on_event(registrations, token), token).len() == 0,
        poll_step_of(on_event(registrations, token), token, next) == Ok::<PollStep, Error>(
            PollStep::Reregister(registrations[token].fd, next),
        ),
{
    let woken = woken_by(registrations, token);
    if interest.writable {
        assert(woken[woken.len() - 1] == waker);
    } else {
        assert(woken[0] == waker);
    }
}

/// The handle is watched for what each who waits wants.
pub open spec fn is_watched_for_all(r: Registration) -> bool {
    &&& r.waiter_read is Some ==> r.interest is Some && r.interest->0.readable
    &&& r.waiter_write is Some ==> r.interest is Some && r.interest->0.writable
}

/// A wait puts its waker on record, leaves who waits in the other direction alone, and has the
/// handle watched for the interest and for what everybody else who waits wants.
pub proof fn law_a_wait_leaves_the_other_direction_alone(
    registrations: Map<usize, Registration>,
    token: usize,
    waker: Waker,
    interest: Interest,
    other: Interest,
    same_task: bool,
)
    requires
        registrations.contains_key(token),
        interest.readable || interest.writable,
        other.writable != interest.writable,
    ensures
        ({
            let now = waiting(registrations, token, waker, interest, same_task);
            &&& waiter_in(now, token, interest) == offered(
                waiter_in(registrations, token, interest),
                waker,
                same_task,
            )
            &&& waiter_in(now, token, other) == waiter_in(registrations, token, other)
            &&& is_watched_for_all(now[token])
            &&& now[token].interest matches Some(watched) && (interest.readable ==> watched.readable)
                && (interest.writable ==> watched.writable)
        }),
{
}

/// Taking a handle off the record that was just put on it leaves the others as they were.
pub proof fn law_forget_undoes_register(
    registrations: Map<usize, Registration>,
    token: usize,
    r: Registration,
)
    requires
        !registrations.contains_key(token),
    ensures
        registrations.insert(token, r).remove(token) == registrations,
{
    assert(registrations.insert(token, r).remove(token) =~= registrations);
}

/// A handle is watched for a direction just where somebody wants it: the one who comes, or one who
/// waits already.
pub proof fn law_a_handle_is_watched_for_no_more_than_is_wanted(
    registrations: Map<usize, Registration>,
    token: usize,
    waker: Waker,
    interest: Interest,
    same_task: bool,
)
    requires
        registrations.contains_key(token),
    ensures
        ({
            let r = registrations[token];
            let now = waiting(registrations, token, waker, interest, same_task)[token];
            &&& now.fd == r.fd
            &&& now.interest is Some
            &&& now.interest->0.readable <==> interest.readable || r.waiter_read is Some
            &&& now.interest->0.writable <==> interest.writable || r.waiter_write is Some
            &&& interest.writable ==> now.waiter_read == r.waiter_read && now.waiter_write is Some
            &&& interest.writable && !same_task ==> now.waiter_write == Some(waker)
            &&& !interest.writable ==> now.waiter_write == r.waiter_write && now.waiter_read is Some
            &&& !interest.writable && !same_task ==> now.waiter_read == Some(waker)
        }),
{
}

/// The first step of a wait is to watch the handle for what the wait will have it watched for,
/// unless it is watched for just that.
pub proof fn law_a_wait_is_prepared_for(
    registrations: Map<usize, Registration>,
    token: usize,
    waker: Waker,
    interest: Interest,
    same_task: bool,
)
    ensures
        !registrations.contains_key(token) ==> poll_step_of(registrations, token, interest) == Err::<
            PollStep,
            Error,
        >(Error::NotRegistered(token)),
        registrations.contains_key(token) ==> {
            let now = waiting(registrations, token, waker, interest, same_task)[token];
            if registrations[token].interest == now.interest {
                poll_step_of(registrations, token, interest) == Ok::<PollStep, Error>(PollStep::Wait)
            } else {
                poll_step_of(registrations, token, interest) == Ok::<PollStep, Error>(
                    PollStep::Reregister(registrations[token].fd, now.interest->0),
                )
            }
        },
{
}

/// A wait is for its handle: the others are left alone.
pub proof fn law_a_wait_is_for_its_handle(
    registrations: Map<usize, Registration>,
    token: usize,
    waker: Waker,
    interest: Interest,
    same_task: bool,
    other: usize,
)
    ensures
        ({
            let now = waiting(registrations, token, waker, interest, same_task);
            &&& now.contains_key(other) == registrations.contains_key(other)
            &&& other != token && registrations.contains_key(other) ==> now[other]
                == registrations[other]
        }),
{
}

/// An event is for its handle: it wakes those who wait for the handle and nobody else, each once,
/// the handle stays on record, and the others are left alone. An interrupt is for none.
pub proof fn law_an_event_is_for_its_handle(
    registrations: Map<usize, Registration>,
    token: usize,
    other: usize,
)
    ensures
        other != token && registrations.contains_key(other) ==> on_event(registrations, token)[other]
            == registrations[other],
        token == usize::MAX || !registrations.contains_key(token) ==> {
            &&& on_event(registrations, token) == registrations
            &&& woken_by(registrations, token).len() == 0
        },
        token < usize::MAX && registrations.contains_key(token) ==> {
            let r = registrations[token];
            let now = on_event(registrations, token)[token];
            &&& now.fd == r.fd
            &&& now.waiter_read is None && now.waiter_write is None && now.interest is None
            &&& woken_by(registrations, token).len() == (if r.waiter_read is Some {
                1int
            } else {
                0
            }) + (if r.waiter_write is Some {
                1int
            } else {
                0
            })
            &&& r.waiter_read matches Some(reader) ==> woken_by(registrations, token)[0] == reader
            &&& r.waiter_write matches Some(writer) ==> woken_by(registrations, token).last()
                == writer
        },
{
}

/// Events are taken one after the other: those of two batches do what they do as one.
pub proof fn law_events_come_one_after_the_other(
    registrations: Map<usize, Registration>,
    first: Seq<usize>,
    then_come: Seq<usize>,
    token: usize,
)
    ensures
        after_events(registrations, seq![token]) == on_event(registrations, token),
        woken_by_events(registrations, seq![token]) == woken_by(registrations, token),
        after_events(registrations, first + then_come) == after_events(
            after_events(registrations, first),
            then_come,
        ),
        woken_by_events(registrations, first + then_come) == woken_by_events(registrations, first)
            + woken_by_events(after_events(registrations, first), then_come),
    decreases then_come.len(),
{
    let one = seq![token];
    assert(one.drop_last() =~= Seq::empty());
    assert(after_events(registrations, one.drop_last()) == registrations);
    assert(woken_by_events(registrations, one.drop_last()) =~= Seq::empty());
    assert(woken_by_events(registrations, one) =~= woken_by(registrations, token));
    if then_come.len() == 0 {
        assert(first + then_come =~= first);
        assert(woken_by_events(registrations, first) + Seq::empty() =~= woken_by_events(
            registrations,
            first,
        ));
    } else {
        let all = first + then_come;
        assert(all.drop_last() =~= first + then_come.drop_last());
        assert(all.last() == then_come.last());
        law_events_come_one_after_the_other(registrations, first, then_come.drop_last(), token);
        assert(woken_by_events(registrations, all) =~= woken_by_events(registrations, first)
            + woken_by_events(after_events(registrations, first), then_come));
    }
}

} // verus!
