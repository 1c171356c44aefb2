use std::sync::{Arc, Mutex};
use std::task::{Wake, Waker};

use zincio::time::interval::{tick_sleep, Interval, MissedTickBehavior, TickStep};
use zincio::time::sleep::{Sleep, ZeroBehavior};
use zincio::time::timeout::{Timeout, TimeoutError, TimeoutPoll};
use zincio::time::{interval, interval_at, sleep, sleep_until, sleep_with_zero_behavior, until};
use zincio::timer::Timer;

const MS: u128 = 1_000_000;

struct Counting(Mutex<u32>);

impl Wake for Counting {
    fn wake(self: Arc<Self>) {
        *self.0.lock().unwrap() += 1;
    }
}

fn task() -> (Arc<Counting>, Waker) {
    let counting = Arc::new(Counting(Mutex::new(0)));
    (counting.clone(), Waker::from(counting))
}

/// Runs a sleep to its end on a clock that moves on by a tenth of a millisecond.
fn run(sleep: &mut Sleep, timer: &mut Timer, mut now: u128) -> u128 {
    let (counting, waker) = task();
    let mut polled = 0;
    loop {
        let woken = *counting.0.lock().unwrap();
        if polled <= woken {
            polled = woken + 1;
            let poll = sleep.poll(timer, waker.clone(), now);
            if let Some(waker) = poll.wake {
                waker.wake();
            }
            if poll.wake_again {
                waker.wake_by_ref();
            }
            if poll.ready {
                return now;
            }
        }
        now += 1_100_000;
        for waker in timer.spin_and_get_deadline(now).fired {
            waker.wake();
        }
    }
}

#[test]
fn sleep_completes() {
    let mut timer = Timer::new(0);
    let mut sleep = Sleep::new(0, MS);
    let end = run(&mut sleep, &mut timer, 0);
    assert!(end >= MS);
    assert!(sleep.is_fired());
}

#[test]
fn timeout_expires() {
    let mut timer = Timer::new(0);
    let mut timeout = Timeout::new(0, MS);
    let (_, waker) = task();
    let first = timeout.poll::<()>(None, &mut timer, waker.clone(), 0);
    assert!(matches!(first, TimeoutPoll::Pending(_)));
    let spin = timer.spin_and_get_deadline(2 * MS);
    assert_eq!(spin.fired.len(), 1);
    let second = timeout.poll::<()>(None, &mut timer, waker.clone(), 2 * MS);
    assert!(matches!(second, TimeoutPoll::Expired(_)));
    let res = match timeout.poll(Some(()), &mut timer, waker, 3 * MS) {
        TimeoutPoll::Ready(res) => res,
        _ => panic!("expired"),
    };
    assert!(res.is_err());
    assert!(timeout.is_expired());
}

#[test]
fn timeout_succeeds_if_future_completes() {
    let mut timer = Timer::new(0);
    let mut timeout = Timeout::new(0, 1000 * MS);
    let (_, waker) = task();
    let res = match timeout.poll(Some(123usize), &mut timer, waker, 0) {
        TimeoutPoll::Ready(res) => res,
        _ => panic!("ready"),
    };
    assert_eq!(res, Ok(123usize));
    assert!(!timeout.is_expired());
}

#[test]
fn interval_ticks_skip() {
    let mut timer = Timer::new(0);
    let mut interval = Interval::new(MS);
    let mut now = 0;
    // two ticks should complete quickly
    for _ in 0..2 {
        match interval.tick(now) {
            TickStep::SleepUntil(target) => {
                let (duration, behavior) = tick_sleep(target, now);
                let mut sleep = Sleep::new_with_zero_behavior(now, duration, behavior);
                now = run(&mut sleep, &mut timer, now);
                assert_eq!(interval.finish_tick(target), 1);
            }
            other => panic!("{other:?}"),
        }
    }
}

#[test]
fn interval_catchup_returns_multiple() {
    let mut interval = Interval::new(MS);
    interval.set_missed_tick_behavior(MissedTickBehavior::CatchUp);
    // Initialise baseline
    assert_eq!(interval.tick(100 * MS), TickStep::SleepUntil(101 * MS));
    assert_eq!(interval.finish_tick(101 * MS), 1);
    // Artificially push next_deadline into the past to simulate missed ticks
    interval.next_deadline = Some(101 * MS - 10 * MS);
    let missed = match interval.tick(101 * MS) {
        TickStep::Caught(missed) => missed,
        other => panic!("{other:?}"),
    };
    assert!(missed >= 1);
    assert_eq!(missed, 11);
    assert_eq!(interval.next_deadline, Some(102 * MS));
}

#[test]
fn skipping_goes_to_the_next_multiple() {
    let mut iv = interval_at(10, 7);
    assert_eq!(iv.tick(9), TickStep::SleepUntil(10));
    assert_eq!(iv.tick(10), TickStep::SleepUntil(17));
    assert_eq!(iv.tick(30), TickStep::SleepUntil(31));
    assert_eq!(iv.tick(31), TickStep::SleepUntil(38));
    assert_eq!(iv.next_deadline, Some(10));
    assert_eq!(iv.finish_tick(38), 1);
    assert_eq!(iv.next_deadline, Some(45));
    iv.reset();
    assert_eq!(iv.next_deadline, None);
    assert_eq!(iv.tick(100), TickStep::SleepUntil(107));
}

#[test]
fn a_zero_period_does_not_loop() {
    let mut iv = interval(0);
    assert_eq!(iv.tick(5), TickStep::SleepUntil(5));
    iv.set_missed_tick_behavior(MissedTickBehavior::CatchUp);
    assert_eq!(iv.tick(5), TickStep::FinishNow);
}

#[test]
fn short_waits_of_an_interval_yield() {
    assert_eq!(tick_sleep(10, 20), (0, ZeroBehavior::Yield));
    assert_eq!(tick_sleep(MS + 19, 20), (MS - 1, ZeroBehavior::Yield));
    assert_eq!(tick_sleep(MS + 20, 20), (MS, ZeroBehavior::Immediate));
}

#[test]
fn a_short_sleep_ends_at_once_or_yields_first() {
    let mut timer = Timer::new(0);
    let (counting, waker) = task();
    let mut short = sleep(0, MS - 1);
    let poll = short.poll(&mut timer, waker.clone(), 0);
    assert!(poll.ready && poll.wake.is_some() && !poll.wake_again);

    let mut yielding = sleep_with_zero_behavior(0, MS - 1, ZeroBehavior::Yield);
    let poll = yielding.poll(&mut timer, waker.clone(), 0);
    assert!(!poll.ready && poll.wake_again);
    let poll = yielding.poll(&mut timer, waker.clone(), 0);
    assert!(poll.ready);
    assert!(yielding.is_fired());
    assert_eq!(*counting.0.lock().unwrap(), 0);
}

#[test]
fn a_sleep_woken_for_another_reason_goes_on() {
    let mut timer = Timer::new(0);
    let (_, waker) = task();
    let mut long = sleep_until(10 * MS);
    assert!(!long.poll(&mut timer, waker.clone(), 0).ready);
    assert!(!long.poll(&mut timer, waker.clone(), 3 * MS).ready);
    let spin = timer.spin_and_get_deadline(10 * MS);
    assert_eq!(spin.fired.len(), 1);
    assert!(long.poll(&mut timer, waker.clone(), 10 * MS).ready);
    assert!(long.poll(&mut timer, waker, 0).ready);
}

#[test]
fn resetting_a_sleep_gives_its_timer_up() {
    let mut timer = Timer::new(0);
    let (_, waker) = task();
    let mut sleep = sleep_until(10 * MS);
    assert!(sleep.reset(5 * MS).is_none());
    assert!(!sleep.poll(&mut timer, waker.clone(), 0).ready);
    let handle = sleep.reset(20 * MS).expect("a timer is scheduled");
    timer.cancel(handle);
    assert!(timer.spin_and_get_deadline(6 * MS).deadline.is_none());
    assert!(!sleep.poll(&mut timer, waker, 6 * MS).ready);
    assert!(sleep.release().is_some());
    assert!(sleep.release().is_none());
}

#[test]
fn the_timeout_error_says_so() {
    assert_eq!(TimeoutError.message(), "operation timed out");
    assert_eq!(until(10, 3), 7);
    assert_eq!(until(3, 10), 0);
}

#[test]
fn catching_up_keeps_the_cadence() {
    let t0 = 1000 * MS;
    let mut iv = interval_at(t0, 10 * MS);
    iv.set_missed_tick_behavior(MissedTickBehavior::CatchUp);
    assert_eq!(iv.tick(t0 + 25 * MS), TickStep::Caught(3));
    assert_eq!(iv.next_deadline, Some(t0 + 30 * MS));
    assert_eq!(
        iv.tick(t0 + 26 * MS),
        TickStep::SleepUntil(t0 + 30 * MS)
    );
    assert_eq!(iv.tick(t0 + 49 * MS), TickStep::Caught(2));
    assert_eq!(iv.next_deadline, Some(t0 + 50 * MS));
    assert_eq!(iv.tick(t0 + 50 * MS), TickStep::Caught(1));
    assert_eq!(iv.next_deadline, Some(t0 + 60 * MS));

    let mut once = interval_at(t0, 10 * MS);
    once.set_missed_tick_behavior(MissedTickBehavior::CatchUp);
    assert_eq!(once.tick(t0 + 50 * MS), TickStep::Caught(6));
    assert_eq!(once.next_deadline, iv.next_deadline);
}

#[test]
fn a_skip_goes_past_any_number_of_periods() {
    let far = (1u128 << 70) + 7;
    let mut iv = interval_at(0, 1);
    assert_eq!(iv.tick(far), TickStep::SleepUntil(far + 1));
    let mut slow = interval_at(3, 10);
    let now = 3 + 10 * (1u128 << 65);
    assert_eq!(slow.tick(now + 4), TickStep::SleepUntil(now + 10));
}

#[test]
fn the_timer_tells_which_deadlines_it_can_keep() {
    let mut timer = Timer::new(0);
    let (_, waker) = task();
    let last = u128::from(u64::MAX) * MS;
    assert!(timer.can_tell(0));
    assert!(timer.can_tell(last + MS - 1));
    assert!(!timer.can_tell(last + MS));
    let _ = timer.submit(10 * MS, waker);
    timer.spin_and_get_deadline(4 * MS);
    assert!(timer.can_tell(last));
    assert!(!timer.can_tell(last + MS));
}
