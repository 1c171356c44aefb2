use std::sync::{Arc, Mutex};
use std::task::{Wake, Waker};

use zincio::driver::completions::Completions;
use zincio::driver::iocp::{
    after_ask_base, after_ask_poll, after_batch, batch_outcome, completion_result_from_entry,
    duration_to_timeout_ms, interest_to_afd_events, ntstatus_to_io_error, open_afd_outcome,
    raw_os_handle_to_socket, status_is_success, DeregisterStep, IocpState, PortEntry, RawOsHandle,
    ResolveStep, WaitStep, AFD_POLL_COMPLETION_KEY, INVALID_SOCKET,
};
use zincio::driver::mio::{MioState, PollStep, INTERRUPT_TOKEN};
use zincio::driver::mock::MockDriver;
use zincio::driver::uring::{
    decode_token, encode_completion_key, encode_poll_key, interest_to_poll_mask,
    is_completion_key, push_step, push_step_after_submit, submitter_call_result, CollectStep,
    PushStep, QueueEntry, UringState, EBUSY, ETIME, INTERRUPT_KEY, POLLIN, POLLOUT, TIMEOUT_KEY,
};
use zincio::driver::{
    iocp, offer_waiter, unsupported_completion_error, unsupported_poll_error, update_waiter,
    CompletionIoResult, Interest, RegistrationMode,
};
use zincio::error::{Error, ErrorKind};

const READ: Interest = Interest {
    readable: true,
    writable: false,
};
const WRITE: Interest = Interest {
    readable: false,
    writable: true,
};
const BOTH: Interest = Interest {
    readable: true,
    writable: true,
};

struct Counting(Mutex<u32>);

impl Wake for Counting {
    fn wake(self: Arc<Self>) {
        *self.0.lock().unwrap() += 1;
    }
}

fn task() -> (Arc<Counting>, Waker) {
    let counting = Arc::new(Counting(Mutex::new(0)));
    (counting.clone(), Waker::from(counting))
}

fn count(counting: &Arc<Counting>) -> u32 {
    *counting.0.lock().unwrap()
}

fn wake_all(wakers: Vec<Waker>) {
    for waker in wakers {
        waker.wake();
    }
}

#[test]
fn constants_are_those_of_the_system() {
    assert_eq!(POLLIN, libc::POLLIN as u32);
    assert_eq!(POLLOUT, libc::POLLOUT as u32);
    assert_eq!(EBUSY, libc::EBUSY);
    assert_eq!(ETIME, libc::ETIME);
    assert_eq!(INTERRUPT_KEY, u64::MAX);
    assert_eq!(TIMEOUT_KEY, u64::MAX - 1);
    assert_eq!(INTERRUPT_TOKEN, usize::MAX);
}

#[test]
fn a_waiter_of_the_same_task_is_kept() {
    let (a, waker_a) = task();
    let (b, waker_b) = task();
    let mut slot = None;
    update_waiter(&mut slot, waker_a.clone());
    update_waiter(&mut slot, waker_a.clone());
    slot.take().unwrap().wake();
    assert_eq!((count(&a), count(&b)), (1, 0));
    slot = Some(waker_a.clone());
    update_waiter(&mut slot, waker_b.clone());
    slot.take().unwrap().wake();
    assert_eq!((count(&a), count(&b)), (1, 1));
    slot = Some(waker_a);
    offer_waiter(&mut slot, waker_b.clone(), true);
    slot.take().unwrap().wake();
    assert_eq!((count(&a), count(&b)), (2, 1));
    offer_waiter(&mut slot, waker_b, true);
    assert!(slot.is_some());
}

#[test]
fn keys_hold_the_token_and_its_kind() {
    assert_eq!(encode_completion_key(0), 1);
    assert_eq!(encode_completion_key(5), 11);
    assert_eq!(encode_poll_key(5), 10);
    for token in [0usize, 1, 77, 1 << 40] {
        assert_eq!(decode_token(encode_completion_key(token)), token);
        assert_eq!(decode_token(encode_poll_key(token)), token);
        assert!(is_completion_key(encode_completion_key(token)));
        assert!(!is_completion_key(encode_poll_key(token)));
    }
}

#[test]
fn masks_follow_the_interest() {
    assert_eq!(interest_to_poll_mask(READ), 1);
    assert_eq!(interest_to_poll_mask(WRITE), 4);
    assert_eq!(interest_to_poll_mask(BOTH), 5);
    assert_eq!(
        interest_to_poll_mask(Interest {
            readable: false,
            writable: false
        }),
        0
    );
}

#[test]
fn a_busy_kernel_is_no_failure() {
    assert_eq!(submitter_call_result(Ok(3)), Ok(()));
    assert_eq!(submitter_call_result(Err(Error::Os(16))), Ok(()));
    assert_eq!(submitter_call_result(Err(Error::Os(62))), Ok(()));
    assert_eq!(submitter_call_result(Err(Error::Os(4))), Err(Error::Os(4)));
    assert_eq!(push_step(true), PushStep::Submit);
    assert_eq!(push_step(false), PushStep::Push);
    assert_eq!(push_step_after_submit(Err(Error::Os(16))), PushStep::Push);
    assert_eq!(
        push_step_after_submit(Err(Error::Os(5))),
        PushStep::Fail(Error::Os(5))
    );
}

#[test]
fn pushes_leave_submissions_pending() {
    let mut state = UringState::new(true);
    assert!(!state.should_flush());
    assert_eq!(
        state.finish_push(false),
        Err(Error::Custom(
            ErrorKind::Other,
            "io_uring submission queue is full"
        ))
    );
    assert!(!state.should_flush());
    assert_eq!(state.finish_push(true), Ok(()));
    assert!(state.should_flush());
    assert_eq!(
        state.collect_completions(false, None, false, false),
        CollectStep::Submit
    );
    assert_eq!(state.after_submit(Ok(1), false), CollectStep::Drain);
    assert!(state.should_flush());
    assert_eq!(state.after_submit(Ok(1), true), CollectStep::Drain);
    assert!(!state.should_flush());
    assert_eq!(
        state.after_submit(Err(Error::Os(9)), true),
        CollectStep::Fail(Error::Os(9))
    );
}

#[test]
fn waits_keep_time_by_what_the_kernel_has() {
    let mut new = UringState::new(true);
    assert_eq!(
        new.collect_completions(false, None, true, false),
        CollectStep::Drain
    );
    assert_eq!(
        new.collect_completions(true, None, true, false),
        CollectStep::SubmitAndWait
    );
    assert_eq!(
        new.collect_completions(true, Some(7), true, true),
        CollectStep::SubmitAndWaitFor(7)
    );
    let mut old = UringState::new(false);
    assert_eq!(
        old.collect_completions(true, Some(7), true, false),
        CollectStep::PushTimeout(7)
    );
    assert_eq!(
        old.collect_completions(true, Some(7), false, true),
        CollectStep::MakeRoom(7)
    );
    assert_eq!(
        UringState::after_make_room(7, Err(Error::Os(62))),
        CollectStep::PushTimeout(7)
    );
    assert_eq!(
        UringState::after_make_room(7, Err(Error::Os(1))),
        CollectStep::Fail(Error::Os(1))
    );
    assert_eq!(
        UringState::after_push_timeout(true),
        CollectStep::SubmitAndWait
    );
    assert_eq!(
        UringState::after_push_timeout(false),
        CollectStep::Fail(Error::Custom(
            ErrorKind::Other,
            "io_uring submission queue is full"
        ))
    );
}

#[test]
fn a_poll_wakes_its_waiter_once() {
    let mut state = UringState::new(true);
    let (reader, waker) = task();
    let token = state.register_handle_with_mode(3, READ, RegistrationMode::Poll);
    assert_eq!(
        state.submit_poll(token, waker.clone(), READ),
        Ok(Some((3, 1)))
    );
    assert_eq!(state.submit_poll(token, waker.clone(), READ), Ok(None));
    let entries = vec![
        QueueEntry {
            key: encode_poll_key(token),
            result: 1,
        },
        QueueEntry {
            key: encode_poll_key(token),
            result: 1,
        },
        QueueEntry {
            key: TIMEOUT_KEY,
            result: -62,
        },
    ];
    let (wakers, released, interrupt) = state.drain_completions(&entries);
    assert_eq!(wakers.len(), 1);
    assert!(released.is_empty());
    assert!(!interrupt);
    wake_all(wakers);
    assert_eq!(count(&reader), 1);
    assert_eq!(state.submit_poll(token, waker, READ), Ok(Some((3, 1))));
}

#[test]
fn many_waiters_come_out_in_order() {
    let mut state = UringState::new(true);
    let mut entries = Vec::new();
    let mut tasks = Vec::new();
    for fd in 0..40 {
        let token = state.register_handle_with_mode(fd, WRITE, RegistrationMode::Poll);
        let (counting, waker) = task();
        assert_eq!(state.submit_poll(token, waker, WRITE), Ok(Some((fd, 4))));
        entries.push(QueueEntry {
            key: encode_poll_key(token),
            result: 4,
        });
        tasks.push(counting);
    }
    let (wakers, _, _) = state.drain_completions(&entries);
    assert_eq!(wakers.len(), 40);
    for (i, waker) in wakers.into_iter().enumerate() {
        waker.wake();
        assert_eq!(count(&tasks[i]), 1);
    }
}

#[test]
fn a_poll_of_one_direction_leaves_the_other_armed() {
    let mut state = UringState::new(true);
    let (reader, read_waker) = task();
    let (writer, write_waker) = task();
    let token = state.register_handle_with_mode(3, BOTH, RegistrationMode::Poll);
    let entry = |result: i32| QueueEntry {
        key: encode_poll_key(token),
        result,
    };
    assert_eq!(
        state.submit_poll(token, read_waker.clone(), READ),
        Ok(Some((3, 1)))
    );
    assert_eq!(
        state.submit_poll(token, write_waker.clone(), WRITE),
        Ok(Some((3, 4)))
    );
    // The reader's poll ends: only the reader is woken, and only it has to poll again.
    wake_all(state.drain_completions(&vec![entry(1)]).0);
    assert_eq!((count(&reader), count(&writer)), (1, 0));
    assert_eq!(state.submit_poll(token, write_waker.clone(), WRITE), Ok(None));
    assert_eq!(
        state.submit_poll(token, read_waker.clone(), READ),
        Ok(Some((3, 1)))
    );
    // The writer's poll ends.
    wake_all(state.drain_completions(&vec![entry(4)]).0);
    assert_eq!((count(&reader), count(&writer)), (1, 1));
    assert_eq!(state.submit_poll(token, read_waker.clone(), READ), Ok(None));
    // A wait for both directions goes with the writer, and readability is news for both.
    assert_eq!(
        state.submit_poll(token, write_waker.clone(), BOTH),
        Ok(Some((3, 5)))
    );
    wake_all(state.drain_completions(&vec![entry(1)]).0);
    assert_eq!((count(&reader), count(&writer)), (2, 2));
    // An error is news for whoever waits.
    assert!(state.submit_poll(token, read_waker, READ).is_ok());
    assert!(state.submit_poll(token, write_waker, WRITE).is_ok());
    wake_all(state.drain_completions(&vec![entry(-125)]).0);
    assert_eq!((count(&reader), count(&writer)), (3, 3));
}

#[test]
fn undoing_a_wait_leaves_the_other_direction_alone() {
    let mut state = UringState::new(true);
    let (reader, read_waker) = task();
    let (writer, write_waker) = task();
    let token = state.register_handle_with_mode(3, BOTH, RegistrationMode::Poll);
    assert!(state.submit_poll(token, read_waker.clone(), READ).is_ok());
    assert!(state.submit_poll(token, write_waker, BOTH).is_ok());
    state.poll_not_submitted(token);
    assert!(state.waiter_of(token, WRITE).is_none());
    assert!(state.waiter_of(token, READ).unwrap().will_wake(&read_waker));
    let (wakers, _, _) = state.drain_completions(&vec![QueueEntry {
        key: encode_poll_key(token),
        result: 1,
    }]);
    wake_all(wakers);
    assert_eq!((count(&reader), count(&writer)), (1, 0));
}

#[test]
fn a_poll_that_was_not_submitted_is_undone() {
    let mut state = UringState::new(true);
    let (counting, waker) = task();
    let token = state.register_handle_with_mode(3, READ, RegistrationMode::Poll);
    assert_eq!(
        state.submit_poll(token, waker.clone(), WRITE),
        Ok(Some((3, 4)))
    );
    state.poll_not_submitted(token);
    let (wakers, _, _) = state.drain_completions(&vec![QueueEntry {
        key: encode_poll_key(token),
        result: 4,
    }]);
    assert!(wakers.is_empty());
    assert_eq!(count(&counting), 0);
    assert_eq!(state.submit_poll(token, waker, WRITE), Ok(Some((3, 4))));
    state.poll_not_submitted(99);
}

#[test]
fn handles_are_polled_only_in_poll_mode() {
    let mut state = UringState::new(true);
    let (_, waker) = task();
    let token = state.register_handle(3, READ);
    assert_eq!(
        state.submit_poll(token, waker.clone(), READ),
        Err(Error::NotPollMode(token))
    );
    assert_eq!(
        state.submit_poll(token + 1, waker, READ),
        Err(Error::NotRegistered(token + 1))
    );
    assert_eq!(
        Error::NotPollMode(token).kind(),
        Some(ErrorKind::Unsupported)
    );
    assert_eq!(
        Error::NotRegistered(token).kind(),
        Some(ErrorKind::NotFound)
    );
    assert_eq!(state.reregister_handle(token, WRITE), Ok(()));
    assert_eq!(state.deregister_handle(token), Ok(()));
    assert_eq!(
        state.reregister_handle(token, WRITE),
        Err(Error::NotRegistered(token))
    );
    assert_eq!(
        state.deregister_handle(token),
        Err(Error::NotRegistered(token))
    );
}

#[test]
fn an_operation_is_answered_once() {
    let mut state = UringState::new(true);
    let (first, waker_first) = task();
    let (second, waker_second) = task();
    let (token, key) = state.completion_key();
    assert_eq!(key, encode_completion_key(token));
    assert_eq!(
        state.submit_completion(Err(Error::Os(12)), waker_first.clone()),
        CompletionIoResult::SubmitErr(Error::Os(12))
    );
    assert_eq!(state.completion_key(), (token, key));
    assert_eq!(
        state.submit_completion(Ok(()), waker_first),
        CompletionIoResult::Retry(token)
    );
    assert_ne!(state.completion_key().0, token);
    assert_eq!(state.get_completion_result(token), None);
    state.set_completion_waker(token, waker_second);
    let (wakers, released, interrupt) = state.drain_completions(&vec![
        QueueEntry { key, result: 17 },
        QueueEntry {
            key: INTERRUPT_KEY,
            result: 8,
        },
    ]);
    wake_all(wakers);
    assert!(released.is_empty());
    assert!(interrupt);
    assert_eq!((count(&first), count(&second)), (0, 1));
    assert_eq!(state.get_completion_result(token), Some(17));
    assert_eq!(state.get_completion_result(token), None);
}

#[test]
fn an_ignored_operation_is_released() {
    let mut state = UringState::new(true);
    let (counting, waker) = task();
    let (token, key) = state.completion_key();
    state.submit_completion(Ok(()), waker);
    assert!(state.ignore_completion(token));
    assert!(!state.ignore_completion(token + 1));
    let (wakers, released, _) = state.drain_completions(&vec![QueueEntry { key, result: 1 }]);
    assert_eq!(released, vec![token]);
    wake_all(wakers);
    assert_eq!(count(&counting), 1);
    assert_eq!(state.get_completion_result(token), None);
    assert_eq!(state.completion_key().0, token);
}

#[test]
fn an_event_uses_the_interest_up() {
    let mut state = MioState::new();
    let (counting, waker) = task();
    let token = state.register_handle(8, READ);
    assert_eq!(state.registered_fd(token), Ok(8));
    assert_eq!(state.poll_step(token, READ), Ok(PollStep::Wait));
    assert_eq!(
        state.poll_step(token, WRITE),
        Ok(PollStep::Reregister(8, WRITE))
    );
    state.submit_poll(token, waker.clone(), READ);
    wake_all(state.process_events(&vec![INTERRUPT_TOKEN, token, token, 55]));
    assert_eq!(count(&counting), 1);
    assert_eq!(
        state.poll_step(token, READ),
        Ok(PollStep::Reregister(8, READ))
    );
    state.reregister_handle(token, READ);
    assert_eq!(state.poll_step(token, READ), Ok(PollStep::Wait));
    state.submit_poll(token, waker, WRITE);
    assert_eq!(state.poll_step(token, WRITE), Ok(PollStep::Wait));
    state.forget_handle(token);
    assert_eq!(state.registered_fd(token), Err(Error::NotRegistered(token)));
    assert_eq!(
        state.poll_step(token, READ),
        Err(Error::NotRegistered(token))
    );
}

#[test]
fn the_mock_driver_refuses_handles() {
    let driver = MockDriver::new();
    assert_eq!(
        driver.register_handle(),
        Err(Error::Custom(
            ErrorKind::Unsupported,
            "MockDriver does not support I/O handle registration"
        ))
    );
    assert_eq!(
        driver.reregister_handle(),
        Err(Error::Custom(
            ErrorKind::Unsupported,
            "MockDriver does not support I/O handle re-registration"
        ))
    );
    assert_eq!(
        driver.deregister_handle(),
        Err(Error::Custom(
            ErrorKind::Unsupported,
            "MockDriver does not support I/O handle deregistration"
        ))
    );
    assert_eq!(
        unsupported_completion_error(),
        Error::Custom(
            ErrorKind::Unsupported,
            "driver does not support completion-based I/O submission"
        )
    );
    assert_eq!(
        unsupported_poll_error(),
        Error::Custom(
            ErrorKind::Unsupported,
            "driver does not support poll-based I/O submission"
        )
    );
}

#[test]
fn port_results_are_bytes_or_negated_errors() {
    assert_eq!(completion_result_from_entry(0, 12, 0), 12);
    assert_eq!(completion_result_from_entry(0xc000_0011, 0, 38), -38);
    assert_eq!(completion_result_from_entry(259, 0, 0), -259);
    assert_eq!(ntstatus_to_io_error(-1, 5), Error::Os(5));
    assert_eq!(ntstatus_to_io_error(-1, 0), Error::Os(-1));
    assert!(status_is_success(0x103));
    assert!(!status_is_success(-1));
}

#[test]
fn port_waits_are_capped() {
    assert_eq!(duration_to_timeout_ms(None), u32::MAX);
    assert_eq!(duration_to_timeout_ms(Some(1_999_999)), 1);
    assert_eq!(duration_to_timeout_ms(Some(u128::MAX)), u32::MAX);
    assert_eq!(batch_outcome(Err(Error::Os(258))), Ok(0));
    assert_eq!(batch_outcome(Err(Error::Os(735))), Ok(0));
    assert_eq!(batch_outcome(Err(Error::Os(6))), Err(Error::Os(6)));
    assert_eq!(batch_outcome(Ok(4)), Ok(4));
    assert_eq!(after_batch(Ok(4), false), WaitStep::Again);
    assert_eq!(after_batch(Ok(0), false), WaitStep::Done);
    assert_eq!(after_batch(Err(Error::Os(4)), true), WaitStep::Done);
    assert_eq!(
        after_batch(Err(Error::Os(4)), false),
        WaitStep::Broken(Error::Os(4))
    );
}

#[test]
fn afd_events_follow_the_interest() {
    assert_eq!(interest_to_afd_events(READ), 0xbb);
    assert_eq!(interest_to_afd_events(WRITE), 0x17c);
    assert_eq!(interest_to_afd_events(BOTH), 0x1ff);
    assert_eq!(
        interest_to_afd_events(Interest {
            readable: false,
            writable: false
        }),
        0xfd
    );
}

#[test]
fn base_sockets_are_looked_for_step_by_step() {
    assert_eq!(after_ask_base(3, Ok(4)), ResolveStep::Found(4));
    assert_eq!(
        after_ask_base(3, Err(Error::Os(1))),
        ResolveStep::AskPoll(3)
    );
    assert_eq!(after_ask_poll(3, Ok(4)), ResolveStep::AskBase(4));
    let stuck = ResolveStep::Fail(Error::Custom(
        ErrorKind::Other,
        "failed to resolve base socket for AFD polling",
    ));
    assert_eq!(after_ask_poll(3, Ok(3)), stuck);
    assert_eq!(after_ask_poll(3, Ok(INVALID_SOCKET)), stuck);
    assert_eq!(
        after_ask_poll(3, Err(Error::Os(1))),
        ResolveStep::Fail(Error::Os(1))
    );
    assert_eq!(raw_os_handle_to_socket(RawOsHandle::Socket(9)), Ok(9));
    assert_eq!(
        raw_os_handle_to_socket(RawOsHandle::Handle(9)),
        Err(Error::Custom(
            ErrorKind::Unsupported,
            "poll mode currently supports sockets only on Windows"
        ))
    );
    assert_eq!(open_afd_outcome(0, 0, false), Ok(()));
    assert_eq!(open_afd_outcome(-5, 2, false), Err(Error::Os(2)));
    assert_eq!(
        open_afd_outcome(0, 0, true),
        Err(Error::Custom(
            ErrorKind::Other,
            "NtCreateFile returned a null AFD handle"
        ))
    );
}

#[test]
fn a_port_poll_is_armed_and_answered() {
    let mut state = IocpState::new();
    let (counting, waker) = task();
    let token = state.register_handle_with_mode(77, READ, RegistrationMode::Poll);
    assert_eq!(state.submit_poll(token, waker.clone(), READ), Ok(Some(77)));
    let poll = match state.arm_poll_operation(token) {
        Ok(Some(poll)) => poll,
        other => panic!("{other:?}"),
    };
    assert_eq!(state.arm_poll_operation(token), Ok(None));
    assert_eq!(state.submit_poll(token, waker.clone(), READ), Ok(None));
    assert_eq!(state.finish_arm(token, poll, 0x103, 0), Ok(()));
    assert!(state.poll_in_flight(poll));
    let (wakers, released) = state.process_entries(&vec![
        PortEntry {
            key: iocp::INTERRUPT_KEY,
            token: None,
            result: 0,
        },
        PortEntry {
            key: AFD_POLL_COMPLETION_KEY,
            token: Some(poll),
            result: 0,
        },
        PortEntry {
            key: AFD_POLL_COMPLETION_KEY,
            token: None,
            result: 0,
        },
    ]);
    wake_all(wakers);
    assert!(released.is_empty());
    assert_eq!(count(&counting), 1);
    assert!(!state.poll_in_flight(poll));
    assert_eq!(state.submit_poll(token, waker, READ), Ok(Some(77)));
}

#[test]
fn a_port_poll_that_failed_is_undone() {
    let mut state = IocpState::new();
    let (_, waker) = task();
    let token = state.register_handle_with_mode(77, READ, RegistrationMode::Poll);
    assert_eq!(state.submit_poll(token, waker.clone(), READ), Ok(Some(77)));
    let poll = state.arm_poll_operation(token).unwrap().unwrap();
    assert_eq!(state.finish_arm(token, poll, -7, 87), Err(Error::Os(87)));
    assert!(!state.poll_in_flight(poll));
    assert_eq!(state.submit_poll(token, waker, READ), Ok(Some(77)));
}

#[test]
fn port_handles_come_and_go() {
    let mut state = IocpState::new();
    let (_, waker) = task();
    let done = state.register_handle_with_mode(0, READ, RegistrationMode::Completion);
    assert_eq!(
        state.submit_poll(done, waker.clone(), READ),
        Err(Error::NotPollMode(done))
    );
    assert_eq!(
        state.arm_poll_operation(done),
        Err(Error::NotPollMode(done))
    );
    assert_eq!(state.reregister_handle(done, WRITE), Ok(()));
    assert_eq!(
        state.deregister_handle(done),
        Ok(DeregisterStep::Disassociate)
    );
    assert_eq!(
        state.deregister_handle(done),
        Err(Error::NotRegistered(done))
    );
    assert_eq!(
        state.arm_poll_operation(done),
        Err(Error::NotRegistered(done))
    );
    let polled = state.register_handle_with_mode(5, READ, RegistrationMode::Poll);
    assert_eq!(state.reregister_handle(polled, WRITE), Ok(()));
    let poll = state.arm_poll_operation(polled).unwrap().unwrap();
    assert_eq!(
        state.deregister_handle(polled),
        Ok(DeregisterStep::CancelPoll(poll))
    );
    let failed = state.register_handle_with_mode(5, READ, RegistrationMode::Poll);
    state.register_failed(failed);
    assert_eq!(
        state.reregister_handle(failed, READ),
        Err(Error::NotRegistered(failed))
    );
    assert_eq!(
        state.submit_poll(failed, waker, READ),
        Err(Error::NotRegistered(failed))
    );
}

#[test]
fn a_port_operation_is_answered_or_withdrawn() {
    let mut state = IocpState::new();
    let (counting, waker) = task();
    let failed = state.submit_completion(waker.clone());
    state.submit_failed(failed);
    let token = state.submit_completion(waker.clone());
    state.set_completion_waker(token, waker.clone());
    let ignored = state.submit_completion(waker);
    assert!(state.ignore_completion(ignored));
    let (wakers, released) = state.process_entries(&vec![
        PortEntry {
            key: 3,
            token: Some(token),
            result: -38,
        },
        PortEntry {
            key: 3,
            token: Some(ignored),
            result: 4,
        },
        PortEntry {
            key: 3,
            token: None,
            result: 4,
        },
    ]);
    assert_eq!(wakers.len(), 2);
    assert_eq!(released, vec![ignored]);
    wake_all(wakers);
    assert_eq!(count(&counting), 2);
    assert_eq!(state.get_completion_result(token), Some(-38));
    assert_eq!(state.get_completion_result(token), None);
    assert_eq!(state.get_completion_result(ignored), None);
}

#[test]
fn each_direction_has_its_own_waiter() {
    let mut state = UringState::new(true);
    let (reader, waker_reader) = task();
    let (writer, waker_writer) = task();
    let token = state.register_handle_with_mode(3, READ, RegistrationMode::Poll);
    assert!(state.waiter_of(token, READ).is_none());
    assert!(state.submit_poll(token, waker_reader.clone(), READ).is_ok());
    assert!(state.submit_poll(token, waker_writer.clone(), WRITE).is_ok());
    // The reading task now waits for writing too.
    assert!(state.submit_poll(token, waker_reader.clone(), WRITE).is_ok());
    assert!(state.waiter_of(token, READ).unwrap().will_wake(&waker_reader));
    assert!(state.waiter_of(token, WRITE).unwrap().will_wake(&waker_reader));
    assert!(state.waiter_of(token + 1, READ).is_none());
    let (wakers, _, _) = state.drain_completions(&vec![QueueEntry {
        key: encode_poll_key(token),
        result: 4,
    }]);
    wake_all(wakers);
    assert_eq!(count(&writer), 0);
    assert!(count(&reader) >= 1);
}

#[test]
fn the_waiter_is_told_by_token() {
    let (_, waker) = task();
    let (_, other) = task();

    let mut mio = MioState::new();
    let token = mio.register_handle(8, READ);
    assert_ne!(token, INTERRUPT_TOKEN);
    assert!(mio.waiter_of(token, READ).is_none());
    mio.submit_poll(token, waker.clone(), READ);
    mio.submit_poll(token, other.clone(), READ);
    assert!(mio.waiter_of(token, READ).unwrap().will_wake(&other));
    mio.submit_poll_of(token, waker.clone(), READ, true);
    assert!(mio.waiter_of(token, READ).unwrap().will_wake(&other));

    let mut port = IocpState::new();
    let token = port.register_handle_with_mode(77, READ, RegistrationMode::Poll);
    assert!(port.waiter_of(token).is_none());
    assert!(port.submit_poll(token, waker.clone(), READ).is_ok());
    assert!(port.waiter_of(token).unwrap().will_wake(&waker));

    let mut operations = Completions::new();
    let token = operations.submit(waker.clone());
    assert!(operations.waiter_of(token).unwrap().will_wake(&waker));
    operations.set_completion_waker(token, other.clone());
    assert!(operations.waiter_of(token).unwrap().will_wake(&other));
    operations.withdraw(token);
    assert!(operations.waiter_of(token).is_none());
}

#[test]
fn a_watched_handle_has_a_waiter_for_each_direction() {
    let mut state = MioState::new();
    let (reader, read_waker) = task();
    let (writer, write_waker) = task();
    let token = state.register_handle(8, READ);
    assert_eq!(state.poll_step(token, READ), Ok(PollStep::Wait));
    state.submit_poll(token, read_waker.clone(), READ);
    assert_eq!(
        state.poll_step(token, WRITE),
        Ok(PollStep::Reregister(8, BOTH))
    );
    state.submit_poll(token, write_waker.clone(), WRITE);
    assert_eq!(state.poll_step(token, READ), Ok(PollStep::Wait));
    assert!(state.waiter_of(token, READ).unwrap().will_wake(&read_waker));
    assert!(state.waiter_of(token, WRITE).unwrap().will_wake(&write_waker));
    wake_all(state.process_events(&vec![token]));
    assert_eq!((count(&reader), count(&writer)), (1, 1));
    assert_eq!(
        state.poll_step(token, READ),
        Ok(PollStep::Reregister(8, READ))
    );
}
