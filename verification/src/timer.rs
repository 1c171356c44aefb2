//! The timer: deadlines on a nanosecond clock, kept in a wheel of millisecond ticks.

use crate::wheel::{
    due, fires, is_earliest, lists, wakers_of, Alarm, TimerHandle, TimingWheel,
};
use std::task::Waker;
use vstd::prelude::*;

verus! {

/// Nanoseconds in one tick.
pub const NANOS_PER_TICK: u128 = 1000000;

/// Whole ticks from one instant to another, none where the second is not later.
pub open spec fn ticks_between(from: u128, to: u128) -> int {
    if to <= from {
        0
    } else {
        (to - from) / 1000000
    }
}

/// What became of a request for a wakeup.
pub enum Submission {
    /// The wakeup is scheduled.
    Scheduled(TimerHandle),
    /// The deadline is less than one tick away: the task is to be woken at once.
    Elapsed(Waker),
}

/// The outcome of letting the timer catch up with the clock.
pub struct Spin {
    /// The wakers of the timers that expired.
    pub fired: Vec<Waker>,
    /// Milliseconds until the next wakeup is due.
    pub deadline: Option<u64>,
    /// Whether any timer expired.
    pub woken_up: bool,
}

/// Timers on a clock that counts nanoseconds.
pub struct Timer {
    wheel: TimingWheel,
    /// The clock reading at which the wheel was last brought up to date.
    instant: u128,
}

/// Whole ticks from one instant to another.
fn whole_ticks(from: u128, to: u128) -> (ticks: u128)
    ensures
        ticks == ticks_between(from, to),
{
    to.saturating_sub(from) / NANOS_PER_TICK
}

impl Timer {
    /// No timer expires at the tick that the wheel starts from.
    pub closed spec fn wf(&self) -> bool {
        &&& self.wheel.wf()
        &&& forall|h: TimerHandle| #[trigger]
            self.wheel@.contains_key(h) ==> self.wheel@[h].expiration > 0
    }

    /// The scheduled timers, each with the tick at which it expires.
    pub closed spec fn view(&self) -> Map<TimerHandle, Alarm> {
        self.wheel@
    }

    /// The wheel's tick.
    pub closed spec fn tick(&self) -> u64 {
        self.wheel.tick()
    }

    /// The number of timers ever scheduled.
    pub closed spec fn inserted(&self) -> u64 {
        self.wheel.inserted()
    }

    /// The clock reading that the wheel's tick stands for.
    pub closed spec fn last_spin(&self) -> u128 {
        self.instant
    }

    /// A timer without deadlines, at clock reading `now`.
    pub fn new(now: u128) -> (timer: Self)
        ensures
            timer.wf(),
            timer@.dom().is_empty(),
            timer.tick() == 0,
            timer.inserted() == 0,
            timer.last_spin() == now,
    {
        Timer { wheel: TimingWheel::new(), instant: now }
    }

    /// Whether a deadline can be told in ticks.
    pub fn can_tell(&self, deadline: u128) -> (can: bool)
        requires
            self.wf(),
        ensures
            can == (self.tick() + ticks_between(self.last_spin(), deadline) <= u64::MAX),
    {
        let ticks: u128 = whole_ticks(self.instant, deadline);
        let now: u64 = self.wheel.now();
        ticks <= (u64::MAX - now) as u128
    }

    /// Schedules a wakeup at `deadline`, or hands the waker back where that is less than one tick
    /// after the last spin.
    pub fn submit(&mut self, deadline: u128, waker: Waker) -> (submission: Submission)
        requires
            old(self).wf(),
            old(self).tick() + ticks_between(old(self).last_spin(), deadline) <= u64::MAX,
            old(self).inserted() < u64::MAX,
        ensures
            final(self).wf(),
            final(self).tick() == old(self).tick(),
            final(self).last_spin() == old(self).last_spin(),
            match submission {
                Submission::Scheduled(handle) => {
                    let ticks = ticks_between(old(self).last_spin(), deadline);
                    &&& ticks >= 1
                    &&& !old(self)@.contains_key(handle)
                    &&& final(self)@ == old(self)@.insert(
                        handle,
                        (Alarm { waker, expiration: (old(self).tick() + ticks) as u64 }),
                    )
                    &&& final(self).inserted() == old(self).inserted() + 1
                    &&& handle.serial() == final(self).inserted()
                    &&& {
                        let away = final(self)@[handle].expiration - old(self).tick();
                        &&& old(self).last_spin() + away * 1000000 <= deadline
                        &&& deadline < old(self).last_spin() + (away + 1) * 1000000
                    }
                },
                Submission::Elapsed(w) => {
                    &&& deadline < old(self).last_spin() + 1000000
                    &&& ticks_between(old(self).last_spin(), deadline) < 1
                    &&& w == waker
                    &&& final(self)@ == old(self)@
                    &&& final(self).inserted() == old(self).inserted()
                },
            },
    {
        let ticks: u128 = whole_ticks(self.instant, deadline);
        if ticks < 1 {
            return Submission::Elapsed(waker);
        }
        let now: u64 = self.wheel.now();
        Submission::Scheduled(self.wheel.insert(waker, now + ticks as u64))
    }

    /// Unschedules a wakeup, if it is still scheduled.
    pub fn cancel(&mut self, handle: TimerHandle)
        requires
            old(self).wf(),
        ensures
            final(self).wf(),
            final(self)@ == old(self)@.remove(handle),
            final(self).tick() == old(self).tick(),
            final(self).inserted() == old(self).inserted(),
            final(self).last_spin() == old(self).last_spin(),
    {
        self.wheel.remove(handle);
    }

    /// Brings the wheel up to clock reading `now`. The time until the next wakeup is never given
    /// as less than one millisecond, so that a caller that waits for it does not spin.
    pub fn spin_and_get_deadline(&mut self, now: u128) -> (spin: Spin)
        requires
            old(self).wf(),
            !old(self)@.dom().is_empty() ==> old(self).tick() + ticks_between(
                old(self).last_spin(),
                now,
            ) <= u64::MAX,
        ensures
            final(self).wf(),
            final(self).last_spin() == now,
            final(self).inserted() == old(self).inserted(),
            spin.woken_up == (spin.fired@.len() > 0),
            spin.deadline is None <==> final(self)@.dom().is_empty(),
            spin.deadline matches Some(millis) ==> exists|nearest: u64| #[trigger]
                is_earliest(final(self)@, nearest) && millis == if nearest > final(self).tick() {
                    nearest - final(self).tick()
                } else {
                    1
                },
            old(self)@.dom().is_empty() ==> {
                &&& final(self)@ == old(self)@
                &&& final(self).tick() == old(self).tick()
                &&& spin.fired@.len() == 0
            },
            !old(self)@.dom().is_empty() ==> {
                let ticks = ticks_between(old(self).last_spin(), now);
                &&& final(self).tick() == old(self).tick() + ticks
                &&& ticks == 0 ==> final(self)@ == old(self)@ && spin.fired@.len() == 0
                &&& spin.woken_up == (ticks > 0 && exists|h: TimerHandle| #[trigger]
                    due(old(self)@, final(self).tick() as int).contains(h))
                &&& ticks > 0 ==> {
                    &&& final(self)@ == old(self)@.remove_keys(
                        due(old(self)@, final(self).tick() as int),
                    )
                    &&& fires(old(self)@, final(self).tick() as int, spin.fired@)
                }
            },
    {
        if self.wheel.is_empty() {
            self.instant = now;
            return Spin { fired: Vec::new(), deadline: None, woken_up: false };
        }
        let elapsed: u128 = whole_ticks(self.instant, now);
        self.instant = now;
        let ghost before = self.wheel@;
        let fired = self.wheel.advance(elapsed as u64);
        let woken_up = fired.len() > 0;
        proof {
            if elapsed > 0 {
                let now = self.wheel.tick() as int;
                let handles = choose|handles: Seq<TimerHandle>| #[trigger]
                    lists(handles, due(before, now)) && fired@ == wakers_of(before, handles);
                if fired@.len() > 0 {
                    assert(handles.contains(handles[0]));
                    assert(due(before, now).contains(handles[0]));
                }
                assert forall|h: TimerHandle| #[trigger] due(before, now).contains(h) implies fired@.len()
                    > 0 by {
                    assert(handles.contains(h));
                }
            }
        }
        let now_tick: u64 = self.wheel.now();
        let deadline = match self.wheel.nearest_wakeup() {
            Some(nearest) => {
                assert(is_earliest(self@, nearest));
                let millis: u64 = nearest.saturating_sub(now_tick);
                Some(
                    if millis < 1 {
                        1
                    } else {
                        millis
                    },
                )
            },
            None => None,
        };
        Spin { fired, deadline, woken_up }
    }
}

/// Ticks are counted whole: as many as lie between the two instants, and none where the second is not
/// later.
pub proof fn law_ticks_are_whole(from: u128, to: u128)
    ensures
        to <= from ==> ticks_between(from, to) == 0,
        to > from ==> ticks_between(from, to) * 1000000 <= to - from < (ticks_between(from, to) + 1)
            * 1000000,
        ticks_between(from, to) >= 0,
{
}

} // verus!
