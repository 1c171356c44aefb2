//! The timeout: a race of an operation against a sleep.

use crate::time::sleep::{Sleep, SleepModel, SleepPoll, ZeroBehavior};
use crate::timer::{ticks_between, Timer};
use crate::wheel::{Alarm, TimerHandle};
use std::task::Waker;
use vstd::prelude::*;

verus! {

/// Error returned when a timeout expires.
#[derive(Debug, Clone, Copy, PartialEq, Eq, Structural)]
pub struct TimeoutError;

impl TimeoutError {
    /// What the error says.
    pub fn message(&self) -> (message: &'static str)
        ensures
            message == "operation timed out",
    {
        "operation timed out"
    }
}

/// The outcome of polling an operation under a timeout.
pub enum TimeoutPoll<T> {
    /// The operation was done first, or the time was up first.
    Ready(Result<T, TimeoutError>),
    /// Neither. The sleep tells what to wake.
    Pending(SleepPoll),
    /// The time is up now. The sleep tells what to wake.
    Expired(SleepPoll),
}

/// A race of an operation against a sleep.
pub struct Timeout {
    sleep: Sleep,
    /// Whether the sleep has won.
    timed_out: bool,
}

impl Timeout {
    /// The sleep.
    pub closed spec fn sleep(&self) -> SleepModel {
        self.sleep@
    }

    /// Whether the sleep has won.
    pub closed spec fn expired(&self) -> bool {
        self.timed_out
    }

    /// A timeout of `duration` nanoseconds from `now` on.
    pub fn new(now: u128, duration: u128) -> (timeout: Self)
        requires
            now + duration <= u128::MAX,
        ensures
            timeout.sleep() == Sleep::fresh((now + duration) as u128, ZeroBehavior::Immediate),
            timeout.sleep().deadline == now + duration,
            !timeout.sleep().fired,
            !timeout.expired(),
    {
        Timeout { sleep: Sleep::new(now, duration), timed_out: false }
    }

    /// Whether the time was up at an earlier poll, so that the operation is not to be polled.
    pub fn is_expired(&self) -> (expired: bool)
        ensures
            expired == self.expired(),
    {
        self.timed_out
    }

    /// Gives up the timer, if one is scheduled, so that it can be cancelled.
    pub fn release(&mut self) -> (cancel: Option<TimerHandle>)
        ensures
            cancel == old(self).sleep().handle,
            final(self).sleep() == (SleepModel { handle: None, ..old(self).sleep() }),
            final(self).expired() == old(self).expired(),
    {
        self.sleep.release()
    }

    /// Goes on after the operation was polled: what it gave counts, and only where it gave nothing
    /// is the sleep polled. A timeout that has expired stays expired.
    pub fn poll<T>(&mut self, output: Option<T>, timer: &mut Timer, waker: Waker, now: u128) -> (r:
        TimeoutPoll<T>)
        requires
            old(timer).wf(),
            old(timer).tick() + ticks_between(old(timer).last_spin(), old(self).sleep().deadline)
                <= u64::MAX,
            old(timer).inserted() < u64::MAX,
        ensures
            final(timer).wf(),
            final(timer).tick() == old(timer).tick(),
            final(timer).last_spin() == old(timer).last_spin(),
            final(timer).inserted() <= old(timer).inserted() + 1,
            ({
                let s = old(self).sleep();
                let ticks = ticks_between(old(timer).last_spin(), s.deadline);
                let over = s.fired || (s.handle is Some && now >= s.deadline);
                if old(self).expired() {
                    &&& r == TimeoutPoll::<T>::Ready(Err(TimeoutError))
                    &&& final(self).expired() && final(self).sleep() == s
                    &&& final(timer)@ == old(timer)@
                } else if output is Some {
                    &&& r == TimeoutPoll::<T>::Ready(Ok(output->0))
                    &&& !final(self).expired() && final(self).sleep() == s
                    &&& final(timer)@ == old(timer)@
                } else {
                    let before = match s.handle {
                        Some(handle) => old(timer)@.remove(handle),
                        None => old(timer)@,
                    };
                    let yields = !over && ticks < 1 && s.handle is None && s.zero_behavior
                        == ZeroBehavior::Yield && !s.yielded;
                    let ready = over || (ticks < 1 && !yields);
                    let wake = if over || ticks >= 1 {
                        None
                    } else {
                        Some(waker)
                    };
                    &&& final(self).expired() == ready
                    &&& final(self).sleep() == (SleepModel {
                        handle: if s.fired {
                            s.handle
                        } else if over || ticks < 1 {
                            None
                        } else {
                            final(self).sleep().handle
                        },
                        fired: ready,
                        yielded: s.yielded || yields,
                        ..s
                    })
                    &&& match r {
                        TimeoutPoll::Expired(p) => ready && p.ready && p.wake == wake
                            && !p.wake_again,
                        TimeoutPoll::Pending(p) => !ready && !p.ready && p.wake == wake
                            && p.wake_again == yields,
                        TimeoutPoll::Ready(_) => false,
                    }
                    &&& if over {
                        final(timer)@ == old(timer)@
                    } else if ticks < 1 {
                        final(timer)@ == before
                    } else {
                        &&& final(self).sleep().handle matches Some(handle) && {
                            &&& !before.contains_key(handle)
                            &&& final(timer)@ == before.insert(
                                handle,
                                Alarm { waker, expiration: (old(timer).tick() + ticks) as u64 },
                            )
                        }
                    }
                }
            }),
    {
        if self.timed_out {
            return TimeoutPoll::Ready(Err(TimeoutError));
        }
        match output {
            Some(output) => TimeoutPoll::Ready(Ok(output)),
            None => {
                let polled = self.sleep.poll(timer, waker, now);
                if polled.ready {
                    self.timed_out = true;
                    TimeoutPoll::Expired(polled)
                } else {
                    TimeoutPoll::Pending(polled)
                }
            },
        }
    }
}

} // verus!
