//! Sleeps, intervals and timeouts on a clock that counts nanoseconds.

use crate::time::interval::{Interval, MissedTickBehavior};
use crate::time::sleep::{Sleep, ZeroBehavior};
use vstd::prelude::*;

pub mod interval;
pub mod sleep;
pub mod timeout;

verus! {

/// A sleep of `duration` nanoseconds from `now` on.
pub fn sleep(now: u128, duration: u128) -> (r: Sleep)
    requires
        now + duration <= u128::MAX,
    ensures
        r@ == Sleep::fresh((now + duration) as u128, ZeroBehavior::Immediate),
{
    Sleep::new(now, duration)
}

/// A sleep of `duration` nanoseconds from `now` on, with a say in what durations below the
/// timer's resolution do.
pub fn sleep_with_zero_behavior(now: u128, duration: u128, behavior: ZeroBehavior) -> (r: Sleep)
    requires
        now + duration <= u128::MAX,
    ensures
        r@ == Sleep::fresh((now + duration) as u128, behavior),
{
    Sleep::new_with_zero_behavior(now, duration, behavior)
}

/// A sleep until `deadline`.
pub fn sleep_until(deadline: u128) -> (r: Sleep)
    ensures
        r@ == Sleep::fresh(deadline, ZeroBehavior::Immediate),
{
    Sleep::sleep_until(deadline)
}

/// An interval whose first tick is one period after it is first awaited.
pub fn interval(period: u128) -> (r: Interval)
    ensures
        r.period == period,
        r.next_deadline is None,
        r.missed_tick_behavior == MissedTickBehavior::Skip,
{
    Interval::new(period)
}

/// An interval whose first tick is at `first_tick_instant`, and further ticks every `period`.
pub fn interval_at(first_tick_instant: u128, period: u128) -> (r: Interval)
    ensures
        r.period == period,
        r.next_deadline == Some(first_tick_instant),
        r.missed_tick_behavior == MissedTickBehavior::Skip,
{
    let mut iv = Interval::new(period);
    iv.next_deadline = Some(first_tick_instant);
    iv
}

/// How long a wait until `deadline` is from `now` on.
pub fn until(deadline: u128, now: u128) -> (duration: u128)
    ensures
        duration == if deadline <= now {
            0
        } else {
            deadline - now
        },
{
    deadline.saturating_sub(now)
}

} // verus!
