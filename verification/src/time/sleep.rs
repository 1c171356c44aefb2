//! The sleep: a wait for a deadline, kept in the timer while it lasts.

use crate::timer::{ticks_between, Submission, Timer};
use crate::wheel::{Alarm, TimerHandle};
use std::task::Waker;
use vstd::prelude::*;

verus! {

/// Behavior for sleeps below the timer's resolution.
#[derive(Debug, Clone, Copy, PartialEq, Eq, Structural)]
pub enum ZeroBehavior {
    /// Complete immediately.
    Immediate,
    /// Yield to the scheduler once, and complete on the following poll.
    Yield,
}

/// What a sleep is in.
pub struct SleepModel {
    /// The timer it has scheduled, if any.
    pub handle: Option<TimerHandle>,
    /// Whether it is over.
    pub fired: bool,
    /// Whether it has yielded.
    pub yielded: bool,
    pub zero_behavior: ZeroBehavior,
    pub deadline: u128,
}

/// A wait for a deadline.
pub struct Sleep {
    handle: Option<TimerHandle>,
    fired: bool,
    yield_scheduled: bool,
    zero_behavior: ZeroBehavior,
    deadline: u128,
}

/// The outcome of polling a sleep.
pub struct SleepPoll {
    /// Whether the sleep is over.
    pub ready: bool,
    /// A waker that the timer did not keep, to be woken.
    pub wake: Option<Waker>,
    /// Whether the task is to be woken to poll again.
    pub wake_again: bool,
}

impl Sleep {
    pub closed spec fn view(&self) -> SleepModel {
        SleepModel {
            handle: self.handle,
            fired: self.fired,
            yielded: self.yield_scheduled,
            zero_behavior: self.zero_behavior,
            deadline: self.deadline,
        }
    }

    /// A sleep that was not polled yet.
    pub open spec fn fresh(deadline: u128, zero_behavior: ZeroBehavior) -> SleepModel {
        SleepModel { handle: None, fired: false, yielded: false, zero_behavior, deadline }
    }

    /// A sleep of `duration` nanoseconds from `now` on.
    pub fn new(now: u128, duration: u128) -> (sleep: Self)
        requires
            now + duration <= u128::MAX,
        ensures
            sleep@ == Self::fresh((now + duration) as u128, ZeroBehavior::Immediate),
            sleep@.deadline == now + duration,
            !sleep@.fired,
    {
        Self::new_with_zero_behavior(now, duration, ZeroBehavior::Immediate)
    }

    /// A sleep with custom behavior for durations below the timer's resolution.
    pub fn new_with_zero_behavior(now: u128, duration: u128, zero_behavior: ZeroBehavior) -> (sleep:
        Self)
        requires
            now + duration <= u128::MAX,
        ensures
            sleep@ == Self::fresh((now + duration) as u128, zero_behavior),
            sleep@.deadline == now + duration,
            sleep@.zero_behavior == zero_behavior,
            !sleep@.fired,
    {
        Sleep {
            handle: None,
            fired: false,
            yield_scheduled: false,
            zero_behavior,
            deadline: now + duration,
        }
    }

    /// A sleep until `deadline`.
    pub fn sleep_until(deadline: u128) -> (sleep: Self)
        ensures
            sleep@ == Self::fresh(deadline, ZeroBehavior::Immediate),
            sleep@.deadline == deadline,
            !sleep@.fired,
    {
        Sleep {
            handle: None,
            fired: false,
            yield_scheduled: false,
            zero_behavior: ZeroBehavior::Immediate,
            deadline,
        }
    }

    /// Starts the sleep over with another deadline. Returns the timer to cancel, if one is
    /// scheduled.
    pub fn reset(&mut self, deadline: u128) -> (cancel: Option<TimerHandle>)
        ensures
            final(self)@ == Self::fresh(deadline, old(self)@.zero_behavior),
            final(self)@.deadline == deadline,
            final(self)@.zero_behavior == old(self)@.zero_behavior,
            !final(self)@.fired,
            final(self)@.handle is None,
            cancel == old(self)@.handle,
    {
        self.deadline = deadline;
        self.fired = false;
        self.yield_scheduled = false;
        self.handle.take()
    }

    /// Gives up the timer, if one is scheduled, so that it can be cancelled.
    pub fn release(&mut self) -> (cancel: Option<TimerHandle>)
        ensures
            final(self)@ == (SleepModel { handle: None, ..old(self)@ }),
            cancel == old(self)@.handle,
    {
        self.handle.take()
    }

    /// Whether the sleep is over.
    pub fn is_fired(&self) -> (fired: bool)
        ensures
            fired == self@.fired,
    {
        self.fired
    }

    /// What to do where the timer did not schedule the wakeup because the deadline is too close.
    fn handle_immediate_wakeup(&mut self) -> (r: (bool, bool))
        ensures
            ({
                let yields = old(self)@.zero_behavior == ZeroBehavior::Yield && !old(self)@.yielded;
                &&& r == (!yields, yields)
                &&& final(self)@ == (SleepModel {
                    fired: old(self)@.fired || !yields,
                    yielded: old(self)@.yielded || yields,
                    ..old(self)@
                })
            }),
    {
        match self.zero_behavior {
            ZeroBehavior::Immediate => {
                self.fired = true;
                (true, false)
            },
            ZeroBehavior::Yield => {
                if !self.yield_scheduled {
                    self.yield_scheduled = true;
                    (false, true)
                } else {
                    self.fired = true;
                    (true, false)
                }
            },
        }
    }

    /// Polls the sleep at clock reading `now`.
    ///
    /// The first poll schedules a wakeup. A later poll is over once the deadline has passed, and
    /// else schedules the wakeup anew, for the task may have another waker by now.
    pub fn poll(&mut self, timer: &mut Timer, waker: Waker, now: u128) -> (r: SleepPoll)
        requires
            old(timer).wf(),
            old(timer).tick() + ticks_between(old(timer).last_spin(), old(self)@.deadline)
                <= u64::MAX,
            old(timer).inserted() < u64::MAX,
        ensures
            final(timer).wf(),
            final(timer).tick() == old(timer).tick(),
            final(timer).last_spin() == old(timer).last_spin(),
            final(timer).inserted() <= old(timer).inserted() + 1,
            final(self)@.deadline == old(self)@.deadline,
            final(self)@.zero_behavior == old(self)@.zero_behavior,
            r.ready == final(self)@.fired,
            // No sleep ends a whole tick or more before its deadline.
            r.ready && !old(self)@.fired ==> now >= old(self)@.deadline || old(timer).last_spin()
                + 1000000 > old(self)@.deadline,
            ({
                let s = old(self)@;
                let ticks = ticks_between(old(timer).last_spin(), s.deadline);
                let over = s.fired || (s.handle is Some && now >= s.deadline);
                let before = match s.handle {
                    Some(handle) => old(timer)@.remove(handle),
                    None => old(timer)@,
                };
                if over {
                    &&& r.ready && r.wake is None && !r.wake_again
                    &&& final(timer)@ == old(timer)@
                    &&& final(self)@ == (SleepModel {
                        fired: true,
                        handle: if s.fired {
                            s.handle
                        } else {
                            None
                        },
                        ..s
                    })
                } else if ticks >= 1 {
                    &&& !r.ready && r.wake is None && !r.wake_again
                    &&& final(self)@.handle matches Some(handle) && {
                        &&& !before.contains_key(handle)
                        &&& final(timer)@ == before.insert(
                            handle,
                            Alarm { waker, expiration: (old(timer).tick() + ticks) as u64 },
                        )
                    }
                    &&& final(self)@ == (SleepModel { handle: final(self)@.handle, ..s })
                } else {
                    let yields = s.handle is None && s.zero_behavior == ZeroBehavior::Yield
                        && !s.yielded;
                    &&& r.ready == !yields && r.wake == Some(waker) && r.wake_again == yields
                    &&& final(timer)@ == before
                    &&& final(self)@ == (SleepModel {
                        handle: None,
                        fired: !yields,
                        yielded: s.yielded || yields,
                        ..s
                    })
                }
            }),
    {
        if self.fired {
            return SleepPoll { ready: true, wake: None, wake_again: false };
        }
        match self.handle.take() {
            None => match timer.submit(self.deadline, waker) {
                Submission::Scheduled(handle) => {
                    self.handle = Some(handle);
                    SleepPoll { ready: false, wake: None, wake_again: false }
                },
                Submission::Elapsed(waker) => {
                    let (ready, wake_again) = self.handle_immediate_wakeup();
                    SleepPoll { ready, wake: Some(waker), wake_again }
                },
            },
            Some(handle) => {
                if now >= self.deadline {
                    self.fired = true;
                    return SleepPoll { ready: true, wake: None, wake_again: false };
                }
                timer.cancel(handle);
                match timer.submit(self.deadline, waker) {
                    Submission::Scheduled(handle) => {
                        self.handle = Some(handle);
                        SleepPoll { ready: false, wake: None, wake_again: false }
                    },
                    Submission::Elapsed(waker) => {
                        self.fired = true;
                        SleepPoll { ready: true, wake: Some(waker), wake_again: false }
                    },
                }
            },
        }
    }
}

/// A sleep starts with its deadline ahead: it is not over, has not yielded and has no timer.
pub proof fn law_a_sleep_starts_with_its_deadline(deadline: u128, zero_behavior: ZeroBehavior)
    ensures
        ({
            let fresh = Sleep::fresh(deadline, zero_behavior);
            &&& fresh.deadline == deadline
            &&& fresh.zero_behavior == zero_behavior
            &&& fresh.handle is None
            &&& !fresh.fired && !fresh.yielded
        }),
{
}

} // verus!
