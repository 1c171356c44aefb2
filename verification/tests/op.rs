use zincio::driver::CompletionIoResult;
use zincio::error::{Error, ErrorKind, EAGAIN};
use zincio::net::addrs::AddressTrial;
use zincio::net::listener::{bind_one, bind_one_windows, BindStep};
use zincio::net::udp::{Direction, Readiness};
use zincio::op::accept::{
    accept_ex_context, accept_ex_done, accept_ex_peer, after_accept, after_cloexec, after_peer,
    accept_poll, accept_poll_peer, accept_poll_tried, accept_socket_family, after_family,
    AcceptPollStep, AcceptEx, AcceptExStep, AcceptExSubmit, AcceptStep,
};
use zincio::op::accept_unix::{cloexec_flags, AcceptUnixOp, FD_CLOEXEC};
use zincio::op::connect::{
    self, after_error, after_error_of, after_peer_of, connect_ex_context, connect_ex_done,
    ConnectCodes, ConnectEx, ConnectExStep, ConnectOp, ConnectStep, WSAEADDRINUSE, WSAEINVAL,
};
use zincio::op::fsync::FsyncOp;
use zincio::op::io_util::{
    completion_result, entry_len, overlapped_outcome, overlapped_read_result, poll_result_or_wait,
    CompletionAction, CompletionOp, CompletionPoll, PollStep,
};
use zincio::op::recvfrom::{after_recvfrom, recv_flags, recvfrom_completed, MSG_PEEK};
use zincio::op::sockaddr::{
    socket_addr_to_raw, sockaddr_storage_to_socketaddr, windows_raw_to_socketaddr,
    windows_socket_addr_to_raw, SocketAddr, AF_INET, AF_INET6, WIN_AF_INET, WIN_AF_INET6,
};
use zincio::op::waitpid::{reap_outcome, Mode, WaitPidOp, WaitPidStep};
use zincio::op::writeat::WriteAtOp;

#[test]
fn codes_are_those_of_the_system() {
    assert_eq!(EAGAIN, libc::EAGAIN);
    assert_eq!(EAGAIN, libc::EWOULDBLOCK);
    assert_eq!(connect::EINPROGRESS, libc::EINPROGRESS);
    assert_eq!(connect::EALREADY, libc::EALREADY);
    assert_eq!(connect::ENOTCONN, libc::ENOTCONN);
    assert_eq!(AF_INET, libc::AF_INET);
    assert_eq!(AF_INET6, libc::AF_INET6);
    assert_eq!(FD_CLOEXEC, libc::FD_CLOEXEC);
    assert_eq!(zincio::process::ENOSYS, libc::ENOSYS);
}

#[test]
fn an_operation_goes_from_submission_to_result() {
    let mut op = CompletionOp::new();
    assert_eq!(op.action(), CompletionAction::Submit);
    assert_eq!(
        op.on_submitted(CompletionIoResult::SubmitErr(Error::Os(12))),
        CompletionPoll::Ready(Err(Error::Os(12)))
    );
    assert_eq!(
        op.on_submitted(CompletionIoResult::Done(4)),
        CompletionPoll::Ready(Ok(4))
    );
    assert_eq!(
        op.on_submitted(CompletionIoResult::Retry(7)),
        CompletionPoll::Pending
    );
    assert_eq!(op.action(), CompletionAction::Ask(7));
    assert_eq!(op.on_result(7, None), CompletionPoll::PendingWaker(7));
    assert_eq!(
        op.on_result(7, Some(-9)),
        CompletionPoll::Ready(Err(Error::Os(9)))
    );
    assert_eq!(op.abandon(), None);
    op.on_submitted(CompletionIoResult::Retry(8));
    assert_eq!(op.abandon(), Some(8));
    assert_eq!(op.abandon(), None);
}

#[test]
fn an_attempt_waits_where_it_would_block() {
    assert_eq!(poll_result_or_wait(Ok(3)), PollStep::Ready(Ok(3)));
    assert_eq!(
        poll_result_or_wait::<usize>(Err(Error::Os(EAGAIN))),
        PollStep::Wait
    );
    assert_eq!(
        poll_result_or_wait::<usize>(Err(Error::Custom(ErrorKind::WouldBlock, "later"))),
        PollStep::Wait
    );
    assert_eq!(
        poll_result_or_wait::<usize>(Err(Error::Os(9))),
        PollStep::Ready(Err(Error::Os(9)))
    );
    assert_eq!(completion_result(-2), Err(Error::Os(2)));
    assert_eq!(completion_result(0), Ok(0));
    assert_eq!(entry_len(12, "too large"), Ok(12));
    assert_eq!(
        entry_len(1 << 32, "too large"),
        Err(Error::Custom(ErrorKind::InvalidInput, "too large"))
    );
    assert_eq!(overlapped_outcome(Ok(())), Ok(()));
    assert_eq!(overlapped_outcome(Err(Error::Os(997))), Ok(()));
    assert_eq!(overlapped_outcome(Err(Error::Os(5))), Err(Error::Os(5)));
    assert_eq!(overlapped_read_result(-38), Ok(0));
    assert_eq!(overlapped_read_result(-5), Err(Error::Os(5)));
}

#[test]
fn requests_start_out_unsubmitted() {
    let fsync = FsyncOp::new(4, true);
    assert_eq!((fsync.fd, fsync.data_only), (4, true));
    assert_eq!(fsync.completion.action(), CompletionAction::Submit);
    let write = WriteAtOp::new(4, true, [1u8, 2, 3], 9);
    assert_eq!((write.fd, write.offset), (4, 9));
    assert_eq!(write.entry_len(), Ok(3));
    assert_eq!(write.buffer_ref(), Some(&[1, 2, 3]));
    assert_eq!(write.take_bufs(), [1, 2, 3]);
    let mut write = WriteAtOp::new(4, false, vec![5u8], 0);
    assert!(write.abandon().is_none());
    write
        .completion_mut()
        .on_submitted(CompletionIoResult::Retry(3));
    assert_eq!(write.abandon(), Some((3, Some(Box::new(vec![5])))));
}

#[test]
fn unix_connections_are_accepted() {
    let op = AcceptUnixOp::new(5);
    assert_eq!(op.fd, 5);
    assert_eq!(op.completion.action(), CompletionAction::Submit);
    assert_eq!(op.poll_poll(Ok(9), Ok(())), PollStep::Ready(Ok(9)));
    assert_eq!(
        op.poll_poll(Ok(9), Err(Error::Os(9))),
        PollStep::Ready(Err(Error::Os(9)))
    );
    assert_eq!(op.poll_poll(Err(Error::Os(11)), Ok(())), PollStep::Wait);
    assert_eq!(
        op.poll_poll(Err(Error::Os(24)), Ok(())),
        PollStep::Ready(Err(Error::Os(24)))
    );
    assert_eq!(cloexec_flags(0), Some(1));
    assert_eq!(cloexec_flags(2), Some(3));
    assert_eq!(cloexec_flags(1), None);
}

#[test]
fn addresses_survive_the_round_trip() {
    let v4 = SocketAddr::V4([127, 0, 0, 1], 8080);
    let raw = socket_addr_to_raw(v4);
    assert_eq!((raw.family, raw.len), (libc::AF_INET, 16));
    assert_eq!(raw.port, 8080u16.to_be_bytes());
    assert_eq!(sockaddr_storage_to_socketaddr(&raw), Ok(v4));
    let v6 = SocketAddr::V6 {
        ip: [0, 1, 2, 3, 4, 5, 6, 7, 8, 9, 10, 11, 12, 13, 14, 15],
        port: 443,
        flowinfo: 7,
        scope_id: 2,
    };
    let mut raw = socket_addr_to_raw(v6);
    assert_eq!((raw.family, raw.len), (libc::AF_INET6, 28));
    assert_eq!(sockaddr_storage_to_socketaddr(&raw), Ok(v6));
    raw.family = libc::AF_UNIX;
    assert_eq!(
        sockaddr_storage_to_socketaddr(&raw),
        Err(Error::Custom(
            ErrorKind::InvalidData,
            "unsupported socket family"
        ))
    );
}

#[test]
fn connections_are_accepted_with_their_peer() {
    let address = SocketAddr::V4([10, 0, 0, 2], 99);
    let raw = socket_addr_to_raw(address);
    assert_eq!(after_accept(Ok(8), true), AcceptStep::AskPeer(8));
    assert_eq!(after_accept(Ok(8), false), AcceptStep::SetCloexec(8));
    assert_eq!(after_accept(Err(Error::Os(11)), true), AcceptStep::Wait);
    assert_eq!(
        after_accept(Err(Error::Os(24)), true),
        AcceptStep::Fail(Error::Os(24))
    );
    assert_eq!(after_cloexec(8, Ok(())), AcceptStep::AskPeer(8));
    assert_eq!(
        after_cloexec(8, Err(Error::Os(9))),
        AcceptStep::Fail(Error::Os(9))
    );
    assert_eq!(
        after_peer(8, Ok(raw), true),
        AcceptStep::Accepted(8, address)
    );
    assert_eq!(after_peer(8, Err(Error::Os(11)), true), AcceptStep::Wait);
    assert_eq!(
        after_peer(8, Err(Error::Os(11)), false),
        AcceptStep::Fail(Error::Os(11))
    );
    let mut other = raw;
    other.family = 1;
    assert!(matches!(
        after_peer(8, Ok(other), true),
        AcceptStep::Fail(_)
    ));
}

#[test]
fn datagrams_come_with_their_source() {
    assert_eq!(MSG_PEEK, libc::MSG_PEEK);
    assert_eq!((recv_flags(true), recv_flags(false)), (libc::MSG_PEEK, 0));
    let address = SocketAddr::V4([10, 0, 0, 2], 99);
    let raw = socket_addr_to_raw(address);
    let mut other = raw;
    other.family = libc::AF_UNIX;
    assert_eq!(
        after_recvfrom(Ok((5, raw))),
        PollStep::Ready(Ok((5, address)))
    );
    assert!(matches!(
        after_recvfrom(Ok((5, other))),
        PollStep::Ready(Err(_))
    ));
    assert_eq!(after_recvfrom(Err(Error::Os(EAGAIN))), PollStep::Wait);
    assert_eq!(
        after_recvfrom(Err(Error::Os(9))),
        PollStep::Ready(Err(Error::Os(9)))
    );
    assert_eq!(recvfrom_completed(5, Some(raw)), Ok((5, address)));
    assert_eq!(recvfrom_completed(-9, Some(raw)), Err(Error::Os(9)));
    assert!(recvfrom_completed(5, Some(other)).is_err());
    assert_eq!(
        recvfrom_completed(5, None),
        Err(Error::Custom(
            ErrorKind::Other,
            "recvfrom completion missing source address"
        ))
    );
}

#[test]
fn overlapped_accepts_need_all_their_pieces() {
    let raw = socket_addr_to_raw(SocketAddr::V4([1, 2, 3, 4], 5));
    let mut socket = Some(6);
    assert!(matches!(
        accept_ex_done(false, &mut socket),
        AcceptExStep::Fail(_)
    ));
    assert_eq!(socket, Some(6));
    assert_eq!(
        accept_ex_done(true, &mut socket),
        AcceptExStep::SetContext(6)
    );
    assert_eq!(
        accept_ex_done(true, &mut socket),
        AcceptExStep::Fail(Error::Custom(
            ErrorKind::Other,
            "AcceptEx completion missing accepted socket"
        ))
    );
    assert_eq!(
        accept_ex_context(6, Ok(()), true, true),
        AcceptExStep::AskPeer(6)
    );
    assert_eq!(
        accept_ex_context(6, Err(Error::Os(1)), true, true),
        AcceptExStep::CloseAndFail(6, Error::Os(1))
    );
    assert_eq!(
        accept_ex_context(6, Ok(()), false, true),
        AcceptExStep::Fail(Error::Custom(
            ErrorKind::Other,
            "AcceptEx completion missing peer address"
        ))
    );
    assert_eq!(
        accept_ex_context(6, Ok(()), true, false),
        AcceptExStep::Fail(Error::Custom(
            ErrorKind::Unsupported,
            "GetAcceptExSockaddrs extension function is unavailable"
        ))
    );
    assert_eq!(
        accept_ex_peer(6, Some(raw)),
        AcceptExStep::Accepted(6, SocketAddr::V4([1, 2, 3, 4], 5))
    );
    assert!(matches!(accept_ex_peer(6, None), AcceptExStep::Fail(_)));
    let mut other = raw;
    other.family = 0;
    assert!(matches!(
        accept_ex_peer(6, Some(other)),
        AcceptExStep::CloseAndFail(6, _)
    ));
}

#[test]
fn connecting_takes_its_time() {
    let mut op = ConnectOp::new();
    assert_eq!(op.poll_poll(), ConnectStep::Start);
    assert_eq!(
        op.on_started(Err(Error::Os(111))),
        ConnectStep::Fail(Error::Os(111))
    );
    assert_eq!(op.poll_poll(), ConnectStep::Start);
    assert_eq!(op.on_started(Err(Error::Os(115))), ConnectStep::AskError);
    assert_eq!(op.poll_poll(), ConnectStep::AskError);
    assert_eq!(ConnectOp::new().on_started(Ok(())), ConnectStep::AskError);
    assert_eq!(after_error(Ok(0)), ConnectStep::AskPeer);
    assert_eq!(after_error(Ok(114)), ConnectStep::Wait);
    assert_eq!(after_error(Ok(111)), ConnectStep::Fail(Error::Os(111)));
    assert_eq!(after_error(Err(Error::Os(11))), ConnectStep::Wait);
    assert_eq!(
        after_error(Err(Error::Os(9))),
        ConnectStep::Fail(Error::Os(9))
    );
    assert_eq!(connect::after_peer(Ok(())), ConnectStep::Connected);
    assert_eq!(
        connect::after_peer(Err(Error::Os(107))),
        ConnectStep::Wait
    );
    assert_eq!(
        connect::after_peer(Err(Error::Os(9))),
        ConnectStep::Fail(Error::Os(9))
    );
}

#[test]
fn a_child_is_waited_for_and_reaped() {
    let mut op = WaitPidOp::new(42);
    assert_eq!(op.poll(), WaitPidStep::Open(42));
    assert_eq!(op.on_opened(42, Mode::Poll, Ok(())), WaitPidStep::Read);
    assert_eq!(op.on_read(42, Err(Error::Os(11))), WaitPidStep::Wait);
    assert_eq!(op.on_waiting(Ok(())), WaitPidStep::Pending);
    assert_eq!(
        op.on_waiting(Err(Error::Os(1))),
        WaitPidStep::Ready(Err(Error::Os(1)))
    );
    assert_eq!(op.poll(), WaitPidStep::Read);
    assert_eq!(op.on_read(42, Err(Error::Os(22))), WaitPidStep::Reap(42));
    assert_eq!(op.on_read(42, Ok(8)), WaitPidStep::Reap(42));
    assert_eq!(op.on_reaped(Ok(256)), WaitPidStep::Ready(Ok(256)));
    assert_eq!(
        op.poll(),
        WaitPidStep::Ready(Err(Error::Custom(
            ErrorKind::Other,
            "WaitPidOp already completed"
        )))
    );
    assert_eq!(reap_outcome(Ok(42), 9), Ok(9));
    assert_eq!(
        reap_outcome(Ok(0), 9),
        Err(Error::Custom(
            ErrorKind::WouldBlock,
            "child has not exited yet"
        ))
    );
    assert_eq!(reap_outcome(Err(Error::Os(10)), 9), Err(Error::Os(10)));
}

#[test]
fn a_child_that_cannot_be_watched_is_an_error() {
    let mut op = WaitPidOp::new(42);
    assert_eq!(
        op.on_opened(42, Mode::Poll, Err(Error::Os(24))),
        WaitPidStep::Ready(Err(Error::Os(24)))
    );
    assert_eq!(op.poll(), WaitPidStep::Open(42));
    assert_eq!(
        op.on_opened(42, Mode::Completion, Err(Error::Os(24))),
        WaitPidStep::Ready(Err(Error::Os(24)))
    );
    assert!(matches!(op.poll(), WaitPidStep::Ready(Err(_))));
    let mut op = WaitPidOp::new(42);
    assert_eq!(
        op.on_opened(42, Mode::Completion, Ok(())),
        WaitPidStep::Wait
    );
}

#[test]
fn addresses_are_tried_until_one_works() {
    let mut trial = AddressTrial::new();
    assert_eq!(trial.on_result::<u8>(Err(Error::Os(1))), None);
    assert_eq!(trial.on_result(Ok(7)), Some(7));
    assert_eq!(trial.on_result::<u8>(Err(Error::Os(2))), None);
    assert_eq!(trial.into_error(), Error::Os(2));
    assert_eq!(
        AddressTrial::new().into_error(),
        Error::Custom(ErrorKind::InvalidInput, "no addresses")
    );
}

#[test]
fn a_listener_is_set_up_step_by_step() {
    let mut steps = Vec::new();
    let mut step = BindStep::Socket;
    while step != BindStep::Done {
        steps.push(step);
        step = bind_one(step, AF_INET6, Ok(()));
    }
    assert_eq!(
        steps,
        vec![
            BindStep::Socket,
            BindStep::ReuseAddr,
            BindStep::DualStack,
            BindStep::Bind,
            BindStep::Listen
        ]
    );
    assert_eq!(
        bind_one(BindStep::ReuseAddr, AF_INET, Ok(())),
        BindStep::Bind
    );
    assert_eq!(
        bind_one(BindStep::Socket, AF_INET, Err(Error::Os(24))),
        BindStep::Fail(Error::Os(24))
    );
    assert_eq!(
        bind_one(BindStep::Bind, AF_INET, Err(Error::Os(98))),
        BindStep::CloseAndFail(Error::Os(98))
    );
}

#[test]
fn readiness_is_remembered_until_it_fails() {
    let mut read = Readiness::new(Direction::Read);
    assert_eq!(
        read.try_io(),
        Err(Error::Custom(ErrorKind::WouldBlock, "read not ready"))
    );
    assert!(read.needs_poll());
    assert_eq!(read.on_polled(None), None);
    assert!(read.needs_poll());
    assert_eq!(
        read.on_polled(Some(Err(Error::Os(9)))),
        Some(Err(Error::Os(9)))
    );
    assert!(read.needs_poll());
    assert_eq!(read.on_polled(Some(Ok(()))), Some(Ok(())));
    assert!(!read.needs_poll());
    assert_eq!(read.try_io(), Ok(()));
    read.on_io(false);
    assert_eq!(read.try_io(), Ok(()));
    read.on_io(true);
    assert!(read.needs_poll());
    assert_eq!(
        Readiness::new(Direction::Write).try_io(),
        Err(Error::Custom(ErrorKind::WouldBlock, "write not ready"))
    );
}

#[test]
fn each_system_has_its_codes_for_connecting() {
    let windows = ConnectCodes::windows();
    let mut op = ConnectOp::new();
    assert_eq!(
        op.poll_handle(false),
        ConnectStep::Fail(Error::Custom(ErrorKind::InvalidInput, "invalid raw handle"))
    );
    assert_eq!(op.poll_handle(true), ConnectStep::Start);
    assert_eq!(
        op.on_started_of(windows, Err(Error::Os(115))),
        ConnectStep::Fail(Error::Os(115))
    );
    assert_eq!(
        op.on_started_of(windows, Err(Error::Os(10035))),
        ConnectStep::AskError
    );
    assert_eq!(op.poll_handle(true), ConnectStep::AskError);
    for code in [10035, 10036, 10037] {
        assert_eq!(after_error_of(windows, Ok(code)), ConnectStep::Wait);
        assert_eq!(after_peer_of(windows, Err(Error::Os(code))), ConnectStep::Wait);
    }
    assert_eq!(after_error_of(windows, Ok(0)), ConnectStep::AskPeer);
    assert_eq!(
        after_error_of(windows, Ok(10057)),
        ConnectStep::Fail(Error::Os(10057))
    );
    assert_eq!(after_error_of(windows, Err(Error::Os(10035))), ConnectStep::Wait);
    assert_eq!(
        after_error_of(windows, Err(Error::Os(10036))),
        ConnectStep::Fail(Error::Os(10036))
    );
    assert_eq!(after_peer_of(windows, Err(Error::Os(10057))), ConnectStep::Wait);
    assert_eq!(
        after_peer_of(windows, Err(Error::Os(10061))),
        ConnectStep::Fail(Error::Os(10061))
    );
    assert_eq!(after_peer_of(windows, Ok(())), ConnectStep::Connected);
    assert_eq!(
        after_error_of(ConnectCodes::linux(), Ok(libc::EALREADY)),
        ConnectStep::Wait
    );
}

#[test]
fn an_overlapped_connect_binds_and_loads_once() {
    let mut op = ConnectEx::new();
    assert_eq!(
        op.begin(false, WIN_AF_INET),
        ConnectExStep::Fail(Error::Custom(
            ErrorKind::InvalidInput,
            "ConnectEx can be used only with socket handles"
        ))
    );
    assert_eq!(
        op.begin(true, 1),
        ConnectExStep::Fail(Error::Custom(
            ErrorKind::InvalidInput,
            "unsupported socket family for ConnectEx"
        ))
    );
    assert_eq!(op.begin(true, WIN_AF_INET6), ConnectExStep::Bind(23));
    assert_eq!(op.begin(true, WIN_AF_INET), ConnectExStep::Bind(2));
    assert_eq!(
        op.on_bound(Err(Error::Os(5))),
        ConnectExStep::Fail(Error::Os(5))
    );
    assert_eq!(op.on_bound(Err(Error::Os(WSAEADDRINUSE))), ConnectExStep::Load);
    assert_eq!(op.on_bound(Err(Error::Os(WSAEINVAL))), ConnectExStep::Load);
    assert_eq!(op.begin(true, WIN_AF_INET), ConnectExStep::Load);
    assert_eq!(
        op.on_loaded(Ok(false)),
        ConnectExStep::Fail(Error::Custom(
            ErrorKind::Unsupported,
            "ConnectEx extension function is unavailable"
        ))
    );
    assert_eq!(
        op.on_loaded(Err(Error::Os(6))),
        ConnectExStep::Fail(Error::Os(6))
    );
    assert_eq!(op.on_loaded(Ok(true)), ConnectExStep::Connect);
    assert_eq!(op.begin(true, WIN_AF_INET), ConnectExStep::Connect);
    assert_eq!(connect_ex_done(true), ConnectExStep::SetContext);
    assert!(matches!(connect_ex_done(false), ConnectExStep::Fail(_)));
    assert_eq!(connect_ex_context(Ok(())), ConnectExStep::Connected);
    assert_eq!(
        connect_ex_context(Err(Error::Os(7))),
        ConnectExStep::Fail(Error::Os(7))
    );
}

#[test]
fn an_overlapped_accept_gathers_what_it_needs() {
    let mut op = AcceptEx::new();
    assert_eq!(
        op.begin(false),
        AcceptExSubmit::Fail(Error::Custom(
            ErrorKind::InvalidInput,
            "AcceptEx can be used only with listening sockets"
        ))
    );
    assert_eq!(op.begin(true), AcceptExSubmit::LoadAccept);
    assert_eq!(
        op.on_accept_loaded(Ok(false)),
        AcceptExSubmit::Fail(Error::Custom(
            ErrorKind::Unsupported,
            "AcceptEx extension function is unavailable"
        ))
    );
    assert_eq!(op.on_accept_loaded(Ok(true)), AcceptExSubmit::LoadReader);
    assert_eq!(
        op.on_reader_loaded(Ok(false)),
        AcceptExSubmit::Fail(Error::Custom(
            ErrorKind::Unsupported,
            "GetAcceptExSockaddrs extension function is unavailable"
        ))
    );
    assert_eq!(op.on_reader_loaded(Ok(true)), AcceptExSubmit::AskFamily);
    assert_eq!(after_family(Ok(WIN_AF_INET6)), AcceptExSubmit::MakeSocket(23));
    assert_eq!(
        after_family(Ok(1)),
        AcceptExSubmit::Fail(Error::Custom(
            ErrorKind::InvalidInput,
            "unsupported listening socket family for AcceptEx"
        ))
    );
    assert_eq!(accept_socket_family(Ok(WIN_AF_INET)), Ok(2));
    assert_eq!(accept_socket_family(Err(Error::Os(8))), Err(Error::Os(8)));
    assert_eq!(
        op.on_socket(Err(Error::Os(9))),
        AcceptExSubmit::Fail(Error::Os(9))
    );
    assert_eq!(op.on_socket(Ok(40)), AcceptExSubmit::Accept(40));
    assert_eq!(op.begin(true), AcceptExSubmit::Accept(40));
    assert_eq!(
        op.on_started(Err(Error::Os(10))),
        AcceptExSubmit::CloseAndFail(40, Error::Os(10))
    );
    assert_eq!(op.begin(true), AcceptExSubmit::AskFamily);
    assert_eq!(op.on_socket(Ok(41)), AcceptExSubmit::Accept(41));
    assert_eq!(op.on_started(Err(Error::Os(997))), AcceptExSubmit::Submitted);
    assert_eq!(op.take_socket(), Some(41));
    assert_eq!(op.take_socket(), None);
}

#[test]
fn windows_has_its_own_family_numbers() {
    let v4 = SocketAddr::V4([1, 2, 3, 4], 80);
    let v6 = SocketAddr::V6 {
        ip: [7; 16],
        port: 0x1234,
        flowinfo: 5,
        scope_id: 6,
    };
    for address in [v4, v6] {
        let raw = windows_socket_addr_to_raw(address);
        assert_eq!(windows_raw_to_socketaddr(&raw), Ok(address));
    }
    let raw = windows_socket_addr_to_raw(v6);
    assert_eq!((raw.family, raw.len, raw.port), (WIN_AF_INET6, 28, [0x12, 0x34]));
    assert_eq!(windows_socket_addr_to_raw(v4).family, WIN_AF_INET);
    assert!(sockaddr_storage_to_socketaddr(&raw).is_err());
    assert!(windows_raw_to_socketaddr(&socket_addr_to_raw(v6)).is_err());
    assert_eq!(accept_ex_peer(6, Some(raw)), AcceptExStep::Accepted(6, v6));
}

#[test]
fn a_polled_accept_closes_what_it_cannot_name() {
    assert_eq!(accept_poll(true), AcceptPollStep::Accept);
    assert_eq!(
        accept_poll(false),
        AcceptPollStep::Fail(Error::Custom(ErrorKind::InvalidInput, "invalid raw handle"))
    );
    assert_eq!(accept_poll_tried(Err(Error::Os(10035))), AcceptPollStep::Wait);
    assert_eq!(
        accept_poll_tried(Err(Error::Os(11))),
        AcceptPollStep::Fail(Error::Os(11))
    );
    assert_eq!(accept_poll_tried(Ok(9)), AcceptPollStep::AskPeer(9));
    let address = SocketAddr::V4([1, 2, 3, 4], 80);
    let raw = windows_socket_addr_to_raw(address);
    assert_eq!(
        accept_poll_peer(9, Ok(raw)),
        AcceptPollStep::Accepted(9, address)
    );
    assert_eq!(
        accept_poll_peer(9, Err(Error::Os(10057))),
        AcceptPollStep::CloseAndFail(9, Error::Os(10057))
    );
    let mut other = raw;
    other.family = 1;
    assert_eq!(
        accept_poll_peer(9, Ok(other)),
        AcceptPollStep::CloseAndFail(
            9,
            Error::Custom(ErrorKind::InvalidData, "unsupported socket family")
        )
    );
}

#[test]
fn a_windows_listener_starts_the_socket_library_first() {
    let mut steps = vec![BindStep::Startup];
    while *steps.last().unwrap() != BindStep::Done {
        let next = bind_one_windows(*steps.last().unwrap(), WIN_AF_INET6, Ok(()));
        steps.push(next);
    }
    assert_eq!(
        steps,
        vec![
            BindStep::Startup,
            BindStep::Socket,
            BindStep::DualStack,
            BindStep::Bind,
            BindStep::Listen,
            BindStep::Done,
        ]
    );
    assert_eq!(
        bind_one_windows(BindStep::Socket, WIN_AF_INET, Ok(())),
        BindStep::Bind
    );
    let error = Error::Os(10013);
    assert_eq!(
        bind_one_windows(BindStep::Startup, WIN_AF_INET, Err(error)),
        BindStep::Fail(error)
    );
    assert_eq!(
        bind_one_windows(BindStep::Socket, WIN_AF_INET, Err(error)),
        BindStep::Fail(error)
    );
    assert_eq!(
        bind_one_windows(BindStep::Bind, WIN_AF_INET, Err(error)),
        BindStep::CloseAndFail(error)
    );
    assert_eq!(bind_one(BindStep::Startup, AF_INET, Ok(())), BindStep::Socket);
}
