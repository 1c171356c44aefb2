//! Periodic ticks that keep to multiples of the period.

use crate::time::sleep::ZeroBehavior;
use crate::timer::NANOS_PER_TICK;
use vstd::arithmetic::div_mod::{lemma_fundamental_div_mod, lemma_mod_multiples_basic};
use vstd::prelude::*;

verus! {

/// How to handle missed ticks for `Interval`.
#[derive(Debug, Clone, Copy, PartialEq, Eq, Structural)]
pub enum MissedTickBehavior {
    /// Skip missed ticks and schedule the next tick at the next future multiple.
    Skip,
    /// Return the number of missed ticks so the caller can catch up.
    CatchUp,
}

/// Periodic ticks at a steady cadence: each tick tries to occur at an integer multiple of the
/// period from the interval's start.
pub struct Interval {
    pub period: u128,
    /// When the next tick is due. Without it, the next tick is scheduled relative to the time at
    /// which it is awaited.
    pub next_deadline: Option<u128>,
    pub missed_tick_behavior: MissedTickBehavior,
}

/// What awaiting a tick calls for.
#[derive(Debug, Clone, Copy, PartialEq, Eq, Structural)]
pub enum TickStep {
    /// Sleep until this instant, and finish the tick from it.
    SleepUntil(u128),
    /// Finish the tick from a fresh clock reading.
    FinishNow,
    /// So many ticks are due; the schedule is up to date.
    Caught(u64),
}

/// How many periods after `base` the first multiple after `now` lies, where `base` is not after
/// `now`.
pub open spec fn periods_past(base: u128, now: u128, period: u128) -> int {
    (now - base) / (period as int) + 1
}

/// Where the next tick of an interval that skips missed ticks is due: the first multiple of the
/// period in the future.
pub open spec fn skip_target(base: u128, now: u128, period: u128) -> int {
    if base > now {
        base as int
    } else if period == 0 {
        now as int
    } else {
        base + periods_past(base, now, period) * period
    }
}

/// The instant of a schedule that is `k` periods after `first`.
pub open spec fn instant(first: int, k: int, period: u128) -> int {
    first + k * period
}

/// So many instants of a schedule, from `first` on.
pub open spec fn instants(first: int, count: nat, period: u128) -> Seq<int> {
    Seq::new(count, |k: int| instant(first, k, period))
}

/// The instant that a tick is due at: the one scheduled, or else one period from now.
pub open spec fn base_of(next_deadline: Option<u128>, now: u128, period: u128) -> int {
    match next_deadline {
        Some(deadline) => deadline as int,
        None => now + period,
    }
}

proof fn lemma_periods(base: u128, now: u128, period: u128)
    requires
        base <= now,
        period > 0,
    ensures
        now < base + periods_past(base, now, period) * period <= now + period,
        periods_past(base, now, period) >= 1,
{
    let q = (now - base) / (period as int);
    lemma_fundamental_div_mod((now - base) as int, period as int);
    assert(q >= 0) by (nonlinear_arith)
        requires
            q == (now - base) / (period as int),
            now >= base,
            period > 0,
    ;
    assert((q + 1) * period == q * period + period) by (nonlinear_arith);
    assert(period * q == q * period) by (nonlinear_arith);
}

impl Interval {
    /// An interval that skips missed ticks, whose first tick is one period after it is first
    /// awaited.
    #[must_use]
    pub fn new(period: u128) -> (interval: Self)
        ensures
            interval.period == period,
            interval.next_deadline is None,
            interval.missed_tick_behavior == MissedTickBehavior::Skip,
    {
        Interval {
            period,
            next_deadline: None,
            missed_tick_behavior: MissedTickBehavior::Skip,
        }
    }

    /// Configures how missed ticks are handled.
    pub fn set_missed_tick_behavior(&mut self, behavior: MissedTickBehavior)
        ensures
            final(self).missed_tick_behavior == behavior,
            final(self).period == old(self).period,
            final(self).next_deadline == old(self).next_deadline,
    {
        self.missed_tick_behavior = behavior;
    }

    /// Restarts the cadence: the next tick is scheduled relative to when it is awaited.
    pub fn reset(&mut self)
        ensures
            final(self).next_deadline is None,
            final(self).period == old(self).period,
            final(self).missed_tick_behavior == old(self).missed_tick_behavior,
    {
        self.next_deadline = None;
    }

    /// Starts to await the next tick at clock reading `now`.
    pub fn tick(&mut self, now: u128) -> (step: TickStep)
        requires
            now + old(self).period <= u128::MAX,
            ({
                let base = base_of(old(self).next_deadline, now, old(self).period);
                old(self).missed_tick_behavior == MissedTickBehavior::CatchUp && base <= now
                    && old(self).period > 0 ==> periods_past(
                    base as u128,
                    now,
                    old(self).period,
                ) <= u64::MAX
            }),
        ensures
            final(self).period == old(self).period,
            final(self).missed_tick_behavior == old(self).missed_tick_behavior,
            old(self).next_deadline matches Some(deadline) ==> (deadline > now ==> step
                == TickStep::SleepUntil(deadline)),
            old(self).next_deadline is None && old(self).period > 0 ==> step
                == TickStep::SleepUntil((now + old(self).period) as u128),
            step matches TickStep::SleepUntil(target) ==> {
                &&& target >= now
                &&& old(self).next_deadline matches Some(deadline) ==> target >= deadline
                &&& old(self).period > 0 ==> target > now
                &&& final(self).next_deadline == old(self).next_deadline
            },
            step matches TickStep::Caught(ticks) ==> {
                &&& old(self).next_deadline is Some
                &&& {
                    let first = old(self).next_deadline->0;
                    let period = old(self).period;
                    &&& ticks >= 1 && period > 0
                    &&& first + (ticks - 1) * period <= now < first + ticks * period
                    &&& final(self).next_deadline == Some((first + ticks * period) as u128)
                }
            },
            ({
                let period = old(self).period;
                let base = base_of(old(self).next_deadline, now, period) as u128;
                match old(self).missed_tick_behavior {
                    MissedTickBehavior::Skip => {
                        &&& step == TickStep::SleepUntil(skip_target(base, now, period) as u128)
                        &&& skip_target(base, now, period) <= u128::MAX
                        &&& final(self).next_deadline == old(self).next_deadline
                    },
                    MissedTickBehavior::CatchUp => if base > now {
                        &&& step == TickStep::SleepUntil(base)
                        &&& final(self).next_deadline == old(self).next_deadline
                    } else if period == 0 {
                        &&& step == TickStep::FinishNow
                        &&& final(self).next_deadline == old(self).next_deadline
                    } else {
                        let missed = periods_past(base, now, period);
                        &&& step == TickStep::Caught(missed as u64)
                        &&& final(self).next_deadline == Some((base + missed * period) as u128)
                        &&& base + missed * period <= u128::MAX
                    },
                }
            }),
    {
        let base_next: u128 = match self.next_deadline {
            Some(deadline) => deadline,
            None => now + self.period,
        };
        if base_next > now {
            return TickStep::SleepUntil(base_next);
        }
        if self.period == 0 {
            return match self.missed_tick_behavior {
                MissedTickBehavior::Skip => TickStep::SleepUntil(now),
                MissedTickBehavior::CatchUp => TickStep::FinishNow,
            };
        }
        proof {
            lemma_periods(base_next, now, self.period);
        }
        let periods: u128 = (now - base_next) / self.period + 1;
        match self.missed_tick_behavior {
            MissedTickBehavior::Skip => {
                TickStep::SleepUntil(base_next + periods * self.period)
            },
            MissedTickBehavior::CatchUp => {
                self.next_deadline = Some(base_next + periods * self.period);
                TickStep::Caught(periods as u64)
            },
        }
    }

    /// Finishes a tick that was waited for until `target`: the next one is one period later.
    pub fn finish_tick(&mut self, target: u128) -> (ticks: u64)
        requires
            target + old(self).period <= u128::MAX,
        ensures
            ticks == 1,
            final(self).next_deadline == Some((target + old(self).period) as u128),
            final(self).period == old(self).period,
            final(self).missed_tick_behavior == old(self).missed_tick_behavior,
    {
        self.next_deadline = Some(target + self.period);
        1
    }
}

/// How long to sleep until `target` from `now` on, and what that does where it is below the
/// timer's resolution: yield once, so that the caller does not spin.
pub fn tick_sleep(target: u128, now: u128) -> (r: (u128, ZeroBehavior))
    ensures
        r.0 == if target <= now {
            0
        } else {
            target - now
        },
        r.1 == if r.0 < 1000000 {
            ZeroBehavior::Yield
        } else {
            ZeroBehavior::Immediate
        },
{
    let remaining: u128 = target.saturating_sub(now);
    if remaining / NANOS_PER_TICK == 0 {
        (remaining, ZeroBehavior::Yield)
    } else {
        (remaining, ZeroBehavior::Immediate)
    }
}

/// An interval that skips missed ticks waits for an instant in the future, not more than one
/// period away, that keeps to the multiples of the period.
pub proof fn law_skipping_keeps_the_cadence(base: u128, now: u128, period: u128)
    requires
        period > 0,
        base <= now,
    ensures
        now < skip_target(base, now, period) <= now + period,
        (skip_target(base, now, period) - base) % (period as int) == 0,
{
    lemma_periods(base, now, period);
    lemma_mod_multiples_basic(periods_past(base, now, period), period as int);
}

/// An interval that catches up counts exactly the scheduled instants that have come by now, and
/// schedules the next tick at the first one that has not.
pub proof fn law_catching_up_keeps_the_cadence(base: u128, now: u128, period: u128)
    requires
        period > 0,
        base <= now,
    ensures
        ({
            let missed = periods_past(base, now, period);
            &&& forall|k: int|
                0 <= k ==> (k < missed <==> #[trigger] instant(base as int, k, period) <= now)
            &&& now < base + missed * period <= now + period
        }),
{
    lemma_periods(base, now, period);
    let missed = periods_past(base, now, period);
    assert forall|k: int| 0 <= k implies (k < missed <==> #[trigger] instant(
        base as int,
        k,
        period,
    ) <= now) by {
        if k < missed {
            assert(k * period <= (missed - 1) * period) by (nonlinear_arith)
                requires
                    k <= missed - 1,
                    period > 0,
            ;
            assert((missed - 1) * period == missed * period - period) by (nonlinear_arith);
        } else {
            assert(k * period >= missed * period) by (nonlinear_arith)
                requires
                    k >= missed,
                    period > 0,
            ;
        }
    }
}

/// Two catches in a row deliver each scheduled instant that has come exactly once and in order,
/// and leave the same schedule as one catch at the later time.
pub proof fn law_each_instant_is_delivered_once(base: u128, now: u128, later: u128, period: u128)
    requires
        period > 0,
        base <= now <= later,
        now + period <= u128::MAX,
        base + periods_past(base, now, period) * period <= later,
    ensures
        ({
            let missed = periods_past(base, now, period);
            let next = base + missed * period;
            let more = periods_past(next as u128, later, period);
            let total = periods_past(base, later, period);
            &&& missed >= 1 && more >= 1
            &&& instants(base as int, missed as nat, period) + instants(next, more as nat, period)
                == instants(base as int, total as nat, period)
            &&& instants(base as int, total as nat, period).no_duplicates()
            &&& next + more * period == base + total * period
        }),
{
    let missed = periods_past(base, now, period);
    let next = base + missed * period;
    let more = periods_past(next as u128, later, period);
    let total = periods_past(base, later, period);
    lemma_periods(base, now, period);
    lemma_periods(next as u128, later, period);
    lemma_periods(base, later, period);
    assert(missed * period + more * period == (missed + more) * period) by (nonlinear_arith);
    assert(missed + more == total) by (nonlinear_arith)
        requires
            later < base + (missed + more) * period <= later + period,
            later < base + total * period <= later + period,
            period > 0,
    ;
    assert(instants(base as int, missed as nat, period) + instants(next, more as nat, period)
        =~= instants(base as int, total as nat, period)) by {
        assert forall|k: int| missed <= k < total implies #[trigger] instant(base as int, k, period)
            == instant(next, k - missed, period) by {
            assert(k * period == missed * period + (k - missed) * period) by (nonlinear_arith);
        }
    }
    lemma_instants_differ(base as int, total as nat, period);
}

/// After a catch, the tick that is waited for is the instant right after those delivered.
pub proof fn law_the_tick_after_a_catch_is_the_next_instant(base: u128, now: u128, period: u128)
    requires
        period > 0,
        base <= now,
    ensures
        ({
            let missed = periods_past(base, now, period);
            &&& instants(base as int, missed as nat, period).push(base + missed * period)
                == instants(base as int, (missed + 1) as nat, period)
            &&& instants(base as int, (missed + 1) as nat, period).no_duplicates()
        }),
{
    lemma_periods(base, now, period);
    let missed = periods_past(base, now, period);
    assert(instants(base as int, missed as nat, period).push(base + missed * period) =~= instants(
        base as int,
        (missed + 1) as nat,
        period,
    ));
    lemma_instants_differ(base as int, (missed + 1) as nat, period);
}

proof fn lemma_instants_differ(first: int, count: nat, period: u128)
    requires
        period > 0,
    ensures
        instants(first, count, period).no_duplicates(),
{
    assert forall|i: int, j: int| 0 <= i < count && 0 <= j < count && i != j implies instants(
        first,
        count,
        period,
    )[i] != instants(first, count, period)[j] by {
        assert(i * period != j * period) by (nonlinear_arith)
            requires
                i != j,
                period > 0,
        ;
    }
}

/// An interval that skips never ticks before the instant scheduled, and only at a whole number of
/// periods after it: right then where it is to come, and else at the first such instant to come.
pub proof fn law_a_skip_keeps_to_the_schedule(base: u128, now: u128, period: u128)
    requires
        period > 0,
    ensures
        skip_target(base, now, period) >= base,
        skip_target(base, now, period) > now,
        (skip_target(base, now, period) - base) % (period as int) == 0,
        base > now ==> skip_target(base, now, period) == base,
        forall|k: int|
            0 <= k && base + k * period > now ==> skip_target(base, now, period) <= base + #[trigger] (
            k * period),
{
    if base > now {
        assert forall|k: int| 0 <= k && base + k * period > now implies base <= base + #[trigger] (k
            * period) by {
            assert(k * period >= 0) by (nonlinear_arith)
                requires
                    k >= 0,
                    period > 0,
            ;
        }
        assert(0int % (period as int) == 0) by (nonlinear_arith)
            requires
                period > 0,
        ;
    } else {
        law_skipping_keeps_the_cadence(base, now, period);
        let n = periods_past(base, now, period);
        lemma_periods(base, now, period);
        assert forall|k: int| 0 <= k && base + k * period > now implies base + n * period <= base
            + #[trigger] (k * period) by {
            if k < n {
                assert(k * period <= (n - 1) * period) by (nonlinear_arith)
                    requires
                        k <= n - 1,
                        period > 0,
                ;
                assert((n - 1) * period == n * period - period) by (nonlinear_arith);
            } else {
                assert(k * period >= n * period) by (nonlinear_arith)
                    requires
                        k >= n,
                        period > 0,
                ;
            }
        }
    }
}

/// An interval is due at the instant scheduled, whatever the time; one without a schedule is due one
/// period from now.
pub proof fn law_an_interval_is_due_as_scheduled(deadline: u128, now: u128, period: u128)
    ensures
        base_of(Some(deadline), now, period) == deadline,
        base_of(None, now, period) == now + period,
{
}

/// The ticks caught up on are as many as there are scheduled instants from `base` up to now.
pub proof fn law_every_missed_tick_is_counted(base: u128, now: u128, period: u128)
    requires
        period > 0,
        base <= now,
    ensures
        ({
            let missed = periods_past(base, now, period);
            &&& missed >= 1
            &&& base + (missed - 1) * period <= now < base + missed * period
        }),
{
    lemma_periods(base, now, period);
    let missed = periods_past(base, now, period);
    assert((missed - 1) * period == missed * period - period) by (nonlinear_arith);
}

} // verus!
