use std::sync::{Arc, Mutex};
use std::task::{Wake, Waker};
use std::time::{Duration, Instant};

use zincio::timer::{Submission, Timer};
use zincio::wheel::TimingWheel;

struct Counting(Arc<Mutex<u32>>);

impl Wake for Counting {
    fn wake(self: Arc<Self>) {
        *self.0.lock().unwrap() += 1;
    }
}

fn mock_waker(counter: Arc<Mutex<u32>>) -> Waker {
    Waker::from(Arc::new(Counting(counter)))
}

fn nanos(base: Instant, at: Instant) -> u128 {
    at.duration_since(base).as_nanos()
}

#[test]
fn test_timer_submit_and_deadline() {
    let base = Instant::now();
    let mut timer = Timer::new(nanos(base, Instant::now()));
    let counter = Arc::new(Mutex::new(0));
    let waker = mock_waker(counter.clone());

    // Submit a timer for 50 ms
    let _handle = timer.submit(
        nanos(base, Instant::now() + Duration::from_millis(50)),
        waker,
    );

    // The deadline should be Some and close to 50 ms
    let spin = timer.spin_and_get_deadline(nanos(base, Instant::now()));
    let deadline = spin.deadline;
    assert!(deadline.is_some());
    let ms = deadline.unwrap();
    assert!(ms <= 50 && ms > 0, "Deadline should be <= 50ms, got {ms}");
}

#[test]
fn test_timer_cancel() {
    let base = Instant::now();
    let mut timer = Timer::new(nanos(base, Instant::now()));
    let counter = Arc::new(Mutex::new(0));
    let waker = mock_waker(counter.clone());

    // Submit a timer and then cancel it
    let handle = match timer.submit(
        nanos(base, Instant::now() + Duration::from_millis(100)),
        waker,
    ) {
        Submission::Scheduled(handle) => handle,
        Submission::Elapsed(_) => panic!("Failed to submit timer"),
    };
    timer.cancel(handle);

    // After cancel, deadline should be None
    let spin = timer.spin_and_get_deadline(nanos(base, Instant::now()));
    assert!(spin.deadline.is_none());
}

#[test]
fn test_timer_wake() {
    let mut timer = Timer::new(0);
    let counter = Arc::new(Mutex::new(0));
    let waker = mock_waker(counter.clone());

    // Submit a timer for 1 ms
    let _handle = timer.submit(1_000_000, waker);

    // Let a bit of time pass and spin the wheel
    let spin = timer.spin_and_get_deadline(5_000_000);
    assert!(spin.woken_up);
    for waker in spin.fired {
        waker.wake();
    }

    // The waker should have been called
    let count = counter.lock().unwrap();
    assert!(
        *count >= 1,
        "Waker should have been called or at least not panic"
    );
}

#[test]
fn test_timing_wheel_empty() {
    let mut wheel = TimingWheel::new();
    assert!(wheel.is_empty());
    assert_eq!(wheel.now(), 0);
    assert!(wheel.nearest_wakeup().is_none());
}

#[test]
fn test_timing_wheel_insert_and_expire_single() {
    let mut wheel = TimingWheel::new();
    let counter = Arc::new(Mutex::new(0));
    let waker = mock_waker(counter.clone());

    // Insert timer for 10 ticks
    let _handle = wheel.insert(waker, 10);
    assert!(!wheel.is_empty());
    assert_eq!(wheel.nearest_wakeup(), Some(10));

    // Advance to tick 9 - should not expire
    let expired = wheel.advance(9);
    assert!(expired.is_empty());
    assert_eq!(wheel.now(), 9);

    // Advance 1 more tick - should expire
    let expired = wheel.advance(1);
    assert_eq!(expired.len(), 1);
    assert!(wheel.is_empty());
    assert!(wheel.nearest_wakeup().is_none());
}

#[test]
fn test_timing_wheel_insert_and_expire_immediate() {
    let mut wheel = TimingWheel::new();
    let counter = Arc::new(Mutex::new(0));
    let waker = mock_waker(counter.clone());

    // Insert timer that's already expired (expiration <= current_tick)
    let _handle = wheel.insert(waker, 0);
    // Note: nearest_wakeup returns None for tick 0 because NonZeroU64 can't represent 0
    // But the timer is still in the wheel
    assert!(!wheel.is_empty());

    // Advance 1 tick - should expire immediately
    let expired = wheel.advance(1);
    assert_eq!(expired.len(), 1);
}

#[test]
fn test_timing_wheel_cancel() {
    let mut wheel = TimingWheel::new();
    let counter = Arc::new(Mutex::new(0));
    let waker = mock_waker(counter.clone());

    let handle = wheel.insert(waker, 100);
    assert!(!wheel.is_empty());

    wheel.remove(handle);
    assert!(wheel.is_empty());
    assert!(wheel.nearest_wakeup().is_none());
}

#[test]
fn test_timing_wheel_cancel_wrong_generation() {
    let mut wheel = TimingWheel::new();
    let counter = Arc::new(Mutex::new(0));
    let waker = mock_waker(counter.clone());

    let first_handle = wheel.insert(waker, 100);
    wheel.remove(first_handle);

    // Re-insert with same slab_index but different generation
    let waker2 = mock_waker(counter.clone());
    let second_handle = wheel.insert(waker2, 200);

    // Old handle should not cancel the new timer
    wheel.remove(first_handle);
    assert!(!wheel.is_empty());
    assert_eq!(wheel.nearest_wakeup(), Some(200));

    // New handle should work
    wheel.remove(second_handle);
    assert!(wheel.is_empty());
}

#[test]
fn test_timing_wheel_multiple_timers_same_slot() {
    let mut wheel = TimingWheel::new();
    let counter1 = Arc::new(Mutex::new(0));
    let counter2 = Arc::new(Mutex::new(0));
    let counter3 = Arc::new(Mutex::new(0));

    // Insert 3 timers for the same expiration tick
    let _h1 = wheel.insert(mock_waker(counter1.clone()), 50);
    let _h2 = wheel.insert(mock_waker(counter2.clone()), 50);
    let _h3 = wheel.insert(mock_waker(counter3.clone()), 50);

    assert_eq!(wheel.nearest_wakeup(), Some(50));

    // Advance to expiration
    let expired = wheel.advance(50);
    assert_eq!(expired.len(), 3);

    // Wake the expired timers
    for waker in expired {
        waker.wake();
    }

    // All wakers should have been called
    assert_eq!(*counter1.lock().unwrap(), 1);
    assert_eq!(*counter2.lock().unwrap(), 1);
    assert_eq!(*counter3.lock().unwrap(), 1);
}

#[test]
fn test_timing_wheel_multiple_timers_different_levels() {
    let mut wheel = TimingWheel::new();
    let counter1 = Arc::new(Mutex::new(0));
    let counter2 = Arc::new(Mutex::new(0));
    let counter3 = Arc::new(Mutex::new(0));

    // Level 0: 1-63ms
    let _h1 = wheel.insert(mock_waker(counter1.clone()), 10);
    // Level 1: 64-4095ms
    let _h2 = wheel.insert(mock_waker(counter2.clone()), 100);
    // Level 2: 4096-262143ms
    let _h3 = wheel.insert(mock_waker(counter3.clone()), 5000);

    assert_eq!(wheel.nearest_wakeup(), Some(10));

    // Advance to first expiration
    let expired = wheel.advance(10);
    assert_eq!(expired.len(), 1);
    expired.into_iter().for_each(std::task::Waker::wake);
    assert_eq!(*counter1.lock().unwrap(), 1);

    // Advance to second expiration (90 more ticks)
    let expired = wheel.advance(90);
    assert_eq!(expired.len(), 1);
    expired.into_iter().for_each(std::task::Waker::wake);
    assert_eq!(*counter2.lock().unwrap(), 1);

    // Advance to third expiration (4900 more ticks)
    let expired = wheel.advance(4900);
    assert_eq!(expired.len(), 1);
    expired.into_iter().for_each(std::task::Waker::wake);
    assert_eq!(*counter3.lock().unwrap(), 1);
}

#[test]
fn test_timing_wheel_large_advance() {
    let mut wheel = TimingWheel::new();
    let counter = Arc::new(Mutex::new(0));
    let waker = mock_waker(counter.clone());

    // Insert timer for 1000 ticks
    let _handle = wheel.insert(waker, 1000);

    // Advance all at once (should be efficient, not 1000 iterations)
    let expired = wheel.advance(1000);
    assert_eq!(expired.len(), 1);
    assert_eq!(wheel.now(), 1000);
}

#[test]
fn test_timing_wheel_wrap_around_level_0() {
    let mut wheel = TimingWheel::new();
    let counter1 = Arc::new(Mutex::new(0));
    let counter2 = Arc::new(Mutex::new(0));

    // Insert timer at slot 63 (near wrap)
    let _h1 = wheel.insert(mock_waker(counter1.clone()), 63);
    // Insert timer that wraps around
    let _h2 = wheel.insert(mock_waker(counter2.clone()), 65);

    // Advance past wrap point
    let expired = wheel.advance(65);
    assert_eq!(expired.len(), 2);
}

#[test]
fn test_timing_wheel_nearest_wakeup_updates() {
    let mut wheel = TimingWheel::new();
    let counter = Arc::new(Mutex::new(0));

    // Insert timers in non-sorted order
    let _h1 = wheel.insert(mock_waker(counter.clone()), 100);
    assert_eq!(wheel.nearest_wakeup(), Some(100));

    let _h2 = wheel.insert(mock_waker(counter.clone()), 50);
    assert_eq!(wheel.nearest_wakeup(), Some(50));

    let _h3 = wheel.insert(mock_waker(counter.clone()), 200);
    assert_eq!(wheel.nearest_wakeup(), Some(50));

    // Expire the 50 tick timer
    wheel.advance(50);
    // Now 100 should be the nearest
    assert_eq!(wheel.nearest_wakeup(), Some(100));
}

#[test]
fn test_timing_wheel_boundary_values() {
    let mut wheel = TimingWheel::new();
    let counter = Arc::new(Mutex::new(0));

    // Test boundary: exactly 63 (last slot of level 0)
    let _h1 = wheel.insert(mock_waker(counter.clone()), 63);
    let expired = wheel.advance(63);
    assert_eq!(expired.len(), 1);

    // Test boundary: exactly 64 (first slot of level 1)
    let _h2 = wheel.insert(mock_waker(counter.clone()), 64);
    let expired = wheel.advance(64);
    assert_eq!(expired.len(), 1);

    // Test boundary: 4095 (last slot of level 1)
    let _h3 = wheel.insert(mock_waker(counter.clone()), 4095);
    let expired = wheel.advance(4095);
    assert_eq!(expired.len(), 1);

    // Test boundary: 4096 (first slot of level 2)
    let _h4 = wheel.insert(mock_waker(counter.clone()), 4096);
    let expired = wheel.advance(4096);
    assert_eq!(expired.len(), 1);
}

#[test]
fn test_timing_wheel_zero_advance() {
    let mut wheel = TimingWheel::new();
    let counter = Arc::new(Mutex::new(0));
    let waker = mock_waker(counter.clone());

    let _handle = wheel.insert(waker, 100);
    let expired = wheel.advance(0);
    assert!(expired.is_empty());
    assert_eq!(wheel.now(), 0);
}

#[test]
fn test_timing_wheel_cascade_from_higher_levels() {
    let mut wheel = TimingWheel::new();
    let counter = Arc::new(Mutex::new(0));

    // Insert timer at level 2 (4096+)
    let _handle = wheel.insert(mock_waker(counter.clone()), 5000);

    // Advance past the expiration - cascade should bring it down through levels
    let expired = wheel.advance(5000);
    assert_eq!(expired.len(), 1);
}

#[test]
fn test_timing_wheel_many_timers() {
    let mut wheel = TimingWheel::new();
    let mut handles = Vec::new();
    let counter = Arc::new(Mutex::new(0));

    // Insert 100 timers at various intervals
    for i in 1..=100 {
        let waker = mock_waker(counter.clone());
        let handle = wheel.insert(waker, i * 10);
        handles.push(handle);
    }

    assert_eq!(wheel.nearest_wakeup(), Some(10));

    // Cancel every other timer
    for (i, handle) in handles.iter().enumerate() {
        if i % 2 == 0 {
            wheel.remove(*handle);
        }
    }

    // Advance and check that only 50 timers expire
    let expired = wheel.advance(1000);
    assert_eq!(expired.len(), 50);
}

#[test]
fn test_timing_wheel_reinsert_on_early_wake() {
    let mut wheel = TimingWheel::new();
    let counter = Arc::new(Mutex::new(0));
    let waker = mock_waker(counter.clone());

    // Insert timer for 100 ticks
    let _handle = wheel.insert(waker, 100);

    // Advance only 50 ticks - timer should be re-inserted at appropriate level
    let expired = wheel.advance(50);
    assert!(expired.is_empty());
    assert!(!wheel.is_empty());

    // The timer should still be tracked
    assert_eq!(wheel.nearest_wakeup(), Some(100));

    // Advance remaining 50 ticks
    let expired = wheel.advance(50);
    assert_eq!(expired.len(), 1);
}

#[test]
fn a_timer_set_while_the_clock_runs_fires_at_its_tick() {
    let mut wheel = TimingWheel::new();
    let counter = Arc::new(Mutex::new(0));
    assert!(wheel.advance(10).is_empty());
    wheel.insert(mock_waker(counter.clone()), 15);
    assert_eq!(wheel.nearest_wakeup(), Some(15));
    assert!(wheel.advance(4).is_empty());
    assert_eq!(wheel.advance(1).len(), 1);
    assert_eq!(wheel.now(), 15);
}

#[test]
fn timers_fire_once_and_never_early_from_any_tick() {
    for start in [0u64, 1, 5, 62, 63, 64, 65, 100, 4095, 4096, 5000] {
        for delay in [1u64, 2, 62, 63, 64, 65, 127, 128, 4095, 4096, 4097, 300_000] {
            for step in [1u64, 7, 63, 64, 65, 1000] {
                let counter = Arc::new(Mutex::new(0));
                let mut wheel = TimingWheel::new();
                wheel.advance(start);
                wheel.insert(mock_waker(counter.clone()), start + delay);
                let mut fired = 0;
                if delay / step > 5000 {
                    continue;
                }
                while wheel.now() < start + delay + 200 {
                    let expired = wheel.advance(step);
                    if wheel.now() < start + delay {
                        assert!(expired.is_empty());
                    }
                    fired += expired.len();
                    if wheel.now() >= start + delay {
                        assert_eq!(fired, 1);
                    }
                }
                assert!(wheel.is_empty());
            }
        }
    }
}

#[test]
fn a_timer_due_already_fires_at_the_next_step() {
    let counter = Arc::new(Mutex::new(0));
    let mut wheel = TimingWheel::new();
    wheel.advance(70);
    wheel.insert(mock_waker(counter.clone()), 3);
    assert!(wheel.advance(0).is_empty());
    assert_eq!(wheel.advance(1).len(), 1);
}

#[test]
fn a_far_timer_stays_on_the_top_level() {
    let counter = Arc::new(Mutex::new(0));
    let mut wheel = TimingWheel::new();
    wheel.insert(mock_waker(counter.clone()), 1 << 45);
    assert!(wheel.advance((1 << 45) - 1).is_empty());
    assert_eq!(wheel.advance(1).len(), 1);
}

#[test]
fn a_reused_slot_gives_another_handle() {
    let counter = Arc::new(Mutex::new(0));
    let mut wheel = TimingWheel::new();
    let first = wheel.insert(mock_waker(counter.clone()), 10);
    wheel.remove(first);
    let second = wheel.insert(mock_waker(counter.clone()), 10);
    assert_ne!(first, second);
}

#[test]
fn a_deadline_less_than_a_tick_away_is_not_scheduled() {
    let counter = Arc::new(Mutex::new(0));
    let mut timer = Timer::new(1_000);
    match timer.submit(1_000_999, mock_waker(counter.clone())) {
        Submission::Elapsed(waker) => waker.wake(),
        Submission::Scheduled(_) => panic!("scheduled"),
    }
    assert_eq!(*counter.lock().unwrap(), 1);
    let spin = timer.spin_and_get_deadline(9_000_000);
    assert!(spin.deadline.is_none());
    assert!(!spin.woken_up);
}

#[test]
fn the_deadline_is_counted_from_the_last_spin() {
    let counter = Arc::new(Mutex::new(0));
    let mut timer = Timer::new(0);
    timer.submit(30_000_000, mock_waker(counter.clone()));
    timer.submit(50_500_000, mock_waker(counter.clone()));
    let spin = timer.spin_and_get_deadline(10_200_000);
    assert_eq!(spin.deadline, Some(20));
    assert!(!spin.woken_up);
    let spin = timer.spin_and_get_deadline(31_000_000);
    assert_eq!(spin.fired.len(), 1);
    assert!(spin.woken_up);
    assert_eq!(spin.deadline, Some(20));
}

#[test]
fn no_deadline_means_no_timer_is_left() {
    let mut timer = Timer::new(0);
    let spin = timer.spin_and_get_deadline(5_000_000);
    assert!(spin.deadline.is_none() && !spin.woken_up);
    let first = timer.submit(9_000_000, Waker::noop().clone());
    let second = timer.submit(30_000_000, Waker::noop().clone());
    assert!(matches!(first, Submission::Scheduled(_)));
    let spin = timer.spin_and_get_deadline(6_000_000);
    assert_eq!((spin.deadline, spin.woken_up), (Some(3), false));
    let spin = timer.spin_and_get_deadline(10_000_000);
    assert_eq!((spin.deadline, spin.woken_up), (Some(20), true));
    match second {
        Submission::Scheduled(handle) => timer.cancel(handle),
        Submission::Elapsed(_) => panic!("the timer is due later"),
    }
    let spin = timer.spin_and_get_deadline(11_000_000);
    assert_eq!((spin.deadline, spin.woken_up), (None, false));
}
