use std::collections::VecDeque;

use zincio::blocking::{spawn_blocking, SpawnBlockingError, DEFAULT_MAX_THREADS};
use zincio::builder::{
    after_failure, BestStep, BlockingPool, DriverKind, DriverPlan, RuntimeBuilder,
};
use zincio::error::Error;
use zincio::heap::{Deadline, DeadlineHeap};
use zincio::process::{pidfd_available, reap_on_drop, DropStep, TryWait, ZombieReaper};
use zincio::task::{remote_interrupt, wake_target, ReadyQueues, Target};

#[test]
fn a_heap_gives_deadlines_in_order() {
    let mut heap = DeadlineHeap::new();
    assert!(heap.peek().is_none());
    for tick in [5u64, 3, 9, 1, 1, 7, 2, 8, 0, 6] {
        heap.push(Deadline {
            tick,
            index: tick as usize,
            generation: tick,
        });
    }
    assert_eq!(heap.peek().map(|d| d.tick), Some(0));
    let mut ticks = Vec::new();
    while let Some(deadline) = heap.pop() {
        assert_eq!(deadline.index as u64, deadline.tick);
        ticks.push(deadline.tick);
    }
    assert_eq!(ticks, vec![0, 1, 1, 2, 3, 5, 6, 7, 8, 9]);
}

#[test]
fn woken_tasks_are_queued_where_there_is_room() {
    assert_eq!(wake_target(true, false, Some(7), true), Target::Next);
    assert_eq!(wake_target(true, false, Some(8), true), Target::Main);
    assert_eq!(wake_target(true, false, None, true), Target::Main);
    assert_eq!(wake_target(true, false, None, false), Target::Nowhere);
    assert_eq!(wake_target(true, true, Some(0), true), Target::Nowhere);
    assert_eq!(wake_target(false, false, Some(0), true), Target::Remote);
    assert_eq!(wake_target(false, false, Some(0), false), Target::Nowhere);
    assert_eq!(wake_target(false, true, Some(0), true), Target::Nowhere);
}

#[test]
fn a_task_is_queued_once() {
    let mut queues = ReadyQueues::new();
    for task in 0..10 {
        let mut queued = false;
        queues.enqueue_if_needed(&mut queued, task);
        assert!(queued);
        queues.enqueue_if_needed(&mut queued, task);
    }
    assert_eq!(queues.next, VecDeque::from([0, 1, 2, 3, 4, 5, 6, 7]));
    assert_eq!(queues.main, VecDeque::from([8, 9]));
}

#[test]
fn one_interrupt_is_enough() {
    let mut pending = false;
    assert!(!remote_interrupt(true, true, &mut pending));
    assert!(!remote_interrupt(false, false, &mut pending));
    assert!(!pending);
    assert!(remote_interrupt(false, true, &mut pending));
    assert!(pending);
    assert!(!remote_interrupt(false, true, &mut pending));
}

#[test]
fn blocking_tasks_report_what_they_left() {
    assert_eq!(spawn_blocking(Some(4)), Ok(4));
    assert_eq!(spawn_blocking::<u8>(None), Err(SpawnBlockingError));
    assert_eq!(
        SpawnBlockingError.message(),
        "failed to spawn blocking task"
    );
}

#[test]
fn builders_start_with_everything_off() {
    let builder: RuntimeBuilder<u8, u16> = RuntimeBuilder::new();
    assert!(builder.driver_kind.is_none());
    assert!(!builder.enable_timer);
    assert!(!builder.enable_fs_offload);
    assert!(builder.blocking_pool.is_none());
    assert_eq!(builder.batch_size, 256);
    let builder = builder
        .driver(DriverKind::Mock)
        .enable_timer(true)
        .enable_fs_offload(true)
        .blocking_pool(9)
        .batch_size(3);
    assert!(matches!(
        builder.blocking_pool,
        Some(BlockingPool::Custom(9))
    ));
    let builder = builder.default_blocking_pool(DEFAULT_MAX_THREADS);
    assert!(matches!(
        builder.blocking_pool,
        Some(BlockingPool::Default(DEFAULT_MAX_THREADS))
    ));
    assert!(builder.enable_timer && builder.enable_fs_offload);
    assert_eq!(builder.batch_size, 3);
    assert!(matches!(
        builder.default_blocking_pool(2).blocking_pool,
        Some(BlockingPool::Default(2))
    ));
}

fn plan(kind: Option<DriverKind<u8>>) -> DriverPlan<u8> {
    let mut builder: RuntimeBuilder<u8, ()> = RuntimeBuilder::new();
    builder.driver_kind = kind;
    builder.into_plan()
}

#[test]
fn drivers_are_planned_by_kind() {
    assert!(matches!(plan(None), DriverPlan::Best));
    assert!(matches!(plan(Some(DriverKind::Mio)), DriverPlan::Mio));
    assert!(matches!(plan(Some(DriverKind::Iocp)), DriverPlan::Iocp));
    assert!(matches!(plan(Some(DriverKind::Mock)), DriverPlan::Mock));
    assert!(matches!(
        plan(Some(DriverKind::IoUring)),
        DriverPlan::Ring(4096, None)
    ));
    assert!(matches!(
        plan(Some(DriverKind::IoUringEntries(8))),
        DriverPlan::Ring(8, None)
    ));
    assert!(matches!(
        plan(Some(DriverKind::IoUringCustom(5))),
        DriverPlan::Ring(4096, Some(5))
    ));
    assert!(matches!(
        plan(Some(DriverKind::IoUringCustomEntries(8, 5))),
        DriverPlan::Ring(8, Some(5))
    ));
    assert_eq!(after_failure(BestStep::RingWithFlags), BestStep::PlainRing);
    assert_eq!(after_failure(BestStep::PlainRing), BestStep::Mio);
    assert_eq!(after_failure(BestStep::Mio), BestStep::Nothing);
}

#[test]
fn ring_configurations_are_changed_in_place() {
    let builder: RuntimeBuilder<u8, ()> = RuntimeBuilder::new().uring(5);
    let (builder, taken) = builder.take_uring();
    assert_eq!(taken, Some(5));
    assert!(builder.driver_kind.is_none());
    let (_, taken) = builder
        .driver(DriverKind::IoUringCustomEntries(8, 5))
        .take_uring();
    assert_eq!(taken, None);
}

#[test]
fn children_are_kept_until_they_exit() {
    let mut reaper = ZombieReaper::new();
    assert_eq!(reaper.on_process("a", TryWait::Exited), Some("a"));
    assert_eq!(reaper.on_process("b", TryWait::Failed), Some("b"));
    for name in ["c", "d", "e"] {
        assert_eq!(reaper.on_process(name, TryWait::Running), None);
    }
    let all = reaper.take_all();
    assert_eq!(all, VecDeque::from(["c", "d", "e"]));
    let done = reaper.on_signal(
        all,
        &vec![TryWait::Exited, TryWait::Running, TryWait::Failed],
    );
    assert_eq!(done, vec!["c", "e"]);
    assert_eq!(reaper.take_all(), VecDeque::from(["d"]));
}

#[test]
fn dropped_children_are_still_waited_for() {
    assert_eq!(reap_on_drop(TryWait::Exited, false), DropStep::Nothing);
    assert_eq!(reap_on_drop(TryWait::Running, true), DropStep::Send);
    assert_eq!(reap_on_drop(TryWait::Failed, false), DropStep::Thread);
    assert!(pidfd_available(Ok(3)));
    assert!(pidfd_available(Err(Error::Os(1))));
    assert!(!pidfd_available(Err(Error::Os(38))));
}
