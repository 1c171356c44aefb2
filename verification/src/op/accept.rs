//! Accepting connections on a listening socket.

use crate::error::{Error, ErrorKind};
use crate::op::connect::{is_later, says_later, windows_codes, ConnectCodes};
use crate::op::io_util::{
    attempt, overlapped_outcome, poll_result_or_wait, PollStep, ERROR_IO_PENDING,
};
use crate::op::sockaddr::{
    address_of, sockaddr_storage_to_socketaddr, windows_address_of, windows_raw_to_socketaddr, RawAddr,
    SocketAddr, WIN_AF_INET, WIN_AF_INET6,
};
use vstd::prelude::*;

verus! {

/// What accepting a connection calls for next.
#[derive(Debug, Clone, Copy, PartialEq, Eq)]
pub enum AcceptStep {
    /// Wait until the listener is readable.
    Wait,
    /// Have this descriptor closed on exec.
    SetCloexec(i32),
    /// Ask for the address of the peer of this descriptor.
    AskPeer(i32),
    /// A connection was accepted.
    Accepted(i32, SocketAddr),
    /// Give up.
    Fail(Error),
}

/// The step after an attempt to accept. `closes_on_exec` tells whether the call has the new
/// descriptor closed on exec.
pub fn after_accept(accepted: Result<i32, Error>, closes_on_exec: bool) -> (step: AcceptStep)
    ensures
        step == match attempt(accepted) {
            PollStep::Wait => AcceptStep::Wait,
            PollStep::Ready(Err(error)) => AcceptStep::Fail(error),
            PollStep::Ready(Ok(fd)) => if closes_on_exec {
                AcceptStep::AskPeer(fd)
            } else {
                AcceptStep::SetCloexec(fd)
            },
        },
        accepted matches Ok(fd) ==> step == if closes_on_exec {
            AcceptStep::AskPeer(fd)
        } else {
            AcceptStep::SetCloexec(fd)
        },
        accepted matches Err(error) ==> step == AcceptStep::Wait || step == AcceptStep::Fail(error),
{
    match poll_result_or_wait(accepted) {
        PollStep::Wait => AcceptStep::Wait,
        PollStep::Ready(Err(error)) => AcceptStep::Fail(error),
        PollStep::Ready(Ok(fd)) => if closes_on_exec {
            AcceptStep::AskPeer(fd)
        } else {
            AcceptStep::SetCloexec(fd)
        },
    }
}

/// The step after the new descriptor was to be closed on exec.
pub fn after_cloexec(fd: i32, result: Result<(), Error>) -> (step: AcceptStep)
    ensures
        step == match result {
            Ok(()) => AcceptStep::AskPeer(fd),
            Err(error) => AcceptStep::Fail(error),
        },
{
    match result {
        Ok(()) => AcceptStep::AskPeer(fd),
        Err(error) => AcceptStep::Fail(error),
    }
}

/// The step after the address of the peer was asked for. `polled` tells whether the connection was
/// accepted on the spot, in which case an answer that is not there yet is waited for.
pub fn after_peer(fd: i32, peer: Result<RawAddr, Error>, polled: bool) -> (step: AcceptStep)
    ensures
        step == match peer {
            Err(error) => if polled && error.would_block() {
                AcceptStep::Wait
            } else {
                AcceptStep::Fail(error)
            },
            Ok(raw) => match address_of(raw) {
                Ok(address) => AcceptStep::Accepted(fd, address),
                Err(error) => AcceptStep::Fail(error),
            },
        },
{
    match peer {
        Err(error) => if polled && error.is_would_block() {
            AcceptStep::Wait
        } else {
            AcceptStep::Fail(error)
        },
        Ok(raw) => match sockaddr_storage_to_socketaddr(&raw) {
            Ok(address) => AcceptStep::Accepted(fd, address),
            Err(error) => AcceptStep::Fail(error),
        },
    }
}

/// What accepting a connection on Windows calls for next, where the listener is driven by readiness.
#[derive(Debug, Clone, Copy, PartialEq, Eq)]
pub enum AcceptPollStep {
    /// Try to accept.
    Accept,
    /// Wait until the listener is readable.
    Wait,
    /// Ask for the address of the peer of this socket.
    AskPeer(usize),
    /// A connection was accepted.
    Accepted(usize, SocketAddr),
    /// Give up.
    Fail(Error),
    /// Close this socket and give up.
    CloseAndFail(usize, Error),
}

/// The first step of a poll on Windows: only sockets accept.
pub fn accept_poll(is_socket: bool) -> (step: AcceptPollStep)
    ensures
        step == if is_socket {
            AcceptPollStep::Accept
        } else {
            AcceptPollStep::Fail(Error::Custom(ErrorKind::InvalidInput, "invalid raw handle"))
        },
{
    if is_socket {
        AcceptPollStep::Accept
    } else {
        AcceptPollStep::Fail(Error::Custom(ErrorKind::InvalidInput, "invalid raw handle"))
    }
}

/// The step after an attempt to accept on Windows.
pub fn accept_poll_tried(accepted: Result<usize, Error>) -> (step: AcceptPollStep)
    ensures
        step == match accepted {
            Ok(socket) => AcceptPollStep::AskPeer(socket),
            Err(error) => if says_later(windows_codes(), error) {
                AcceptPollStep::Wait
            } else {
                AcceptPollStep::Fail(error)
            },
        },
{
    match accepted {
        Ok(socket) => AcceptPollStep::AskPeer(socket),
        Err(error) => if is_later(ConnectCodes::windows(), error) {
            AcceptPollStep::Wait
        } else {
            AcceptPollStep::Fail(error)
        },
    }
}

/// The step after the peer was asked for on Windows: without an address for it the new socket is
/// closed.
pub fn accept_poll_peer(socket: usize, peer: Result<RawAddr, Error>) -> (step: AcceptPollStep)
    ensures
        step == match peer {
            Err(error) => AcceptPollStep::CloseAndFail(socket, error),
            Ok(raw) => match windows_address_of(raw) {
                Ok(address) => AcceptPollStep::Accepted(socket, address),
                Err(error) => AcceptPollStep::CloseAndFail(socket, error),
            },
        },
{
    match peer {
        Err(error) => AcceptPollStep::CloseAndFail(socket, error),
        Ok(raw) => match windows_raw_to_socketaddr(&raw) {
            Ok(address) => AcceptPollStep::Accepted(socket, address),
            Err(error) => AcceptPollStep::CloseAndFail(socket, error),
        },
    }
}

/// The family of the socket to accept into: that of the listener, once it was asked for, if it is
/// one that can be accepted into.
pub open spec fn accept_family_of(listener: Result<i32, Error>) -> Result<i32, Error> {
    match listener {
        Err(error) => Err(error),
        Ok(family) => if family == WIN_AF_INET || family == WIN_AF_INET6 {
            Ok(family)
        } else {
            Err(
                Error::Custom(
                    ErrorKind::InvalidInput,
                    "unsupported listening socket family for AcceptEx",
                ),
            )
        },
    }
}

/// The family of the socket to accept into.
pub fn accept_socket_family(listener: Result<i32, Error>) -> (r: Result<i32, Error>)
    ensures
        r == accept_family_of(listener),
        r matches Ok(family) ==> listener == Ok::<i32, Error>(family),
        r is Ok <==> listener is Ok && (listener->Ok_0 == WIN_AF_INET || listener->Ok_0
            == WIN_AF_INET6),
{
    match listener {
        Err(error) => Err(error),
        Ok(family) => if family == WIN_AF_INET || family == WIN_AF_INET6 {
            Ok(family)
        } else {
            Err(
                Error::Custom(
                    ErrorKind::InvalidInput,
                    "unsupported listening socket family for AcceptEx",
                ),
            )
        },
    }
}

/// What submitting an overlapped accept calls for next.
#[derive(Debug, Clone, Copy, PartialEq, Eq)]
pub enum AcceptExSubmit {
    /// Load the function that accepts.
    LoadAccept,
    /// Load the function that reads the peer's address.
    LoadReader,
    /// Ask for the family of the listener.
    AskFamily,
    /// Make a socket of this family to accept into.
    MakeSocket(i32),
    /// Have the connection accepted into this socket.
    Accept(usize),
    /// It is under way.
    Submitted,
    /// Give up.
    Fail(Error),
    /// Close this socket and give up.
    CloseAndFail(usize, Error),
}

/// An overlapped accept: the functions are loaded once each, and the socket is kept until it is
/// used up.
pub struct AcceptEx {
    accept: bool,
    reader: bool,
    socket: Option<usize>,
}

impl AcceptEx {
    /// Whether the function that accepts is loaded.
    pub closed spec fn has_accept(&self) -> bool {
        self.accept
    }

    /// Whether the function that reads the peer's address is loaded.
    pub closed spec fn has_reader(&self) -> bool {
        self.reader
    }

    /// The socket to accept into.
    pub closed spec fn target(&self) -> Option<usize> {
        self.socket
    }

    /// What is called for: whatever is missing, and then the accept.
    pub open spec fn next(&self) -> AcceptExSubmit {
        if !self.has_accept() {
            AcceptExSubmit::LoadAccept
        } else if !self.has_reader() {
            AcceptExSubmit::LoadReader
        } else {
            match self.target() {
                None => AcceptExSubmit::AskFamily,
                Some(socket) => AcceptExSubmit::Accept(socket),
            }
        }
    }

    /// Nothing is there.
    pub fn new() -> (op: Self)
        ensures
            !op.has_accept(),
            !op.has_reader(),
            op.target() is None,
    {
        AcceptEx { accept: false, reader: false, socket: None }
    }

    fn step(&self) -> (step: AcceptExSubmit)
        ensures
            step == self.next(),
    {
        if !self.accept {
            AcceptExSubmit::LoadAccept
        } else if !self.reader {
            AcceptExSubmit::LoadReader
        } else {
            match self.socket {
                None => AcceptExSubmit::AskFamily,
                Some(socket) => AcceptExSubmit::Accept(socket),
            }
        }
    }

    /// The first step of submitting it.
    pub fn begin(&self, listener_is_socket: bool) -> (step: AcceptExSubmit)
        ensures
            step == if listener_is_socket {
                self.next()
            } else {
                AcceptExSubmit::Fail(
                    Error::Custom(
                        ErrorKind::InvalidInput,
                        "AcceptEx can be used only with listening sockets",
                    ),
                )
            },
    {
        if listener_is_socket {
            self.step()
        } else {
            AcceptExSubmit::Fail(
                Error::Custom(
                    ErrorKind::InvalidInput,
                    "AcceptEx can be used only with listening sockets",
                ),
            )
        }
    }

    /// The step after the function that accepts was to be loaded. `result` tells whether there is
    /// one.
    pub fn on_accept_loaded(&mut self, result: Result<bool, Error>) -> (step: AcceptExSubmit)
        ensures
            final(self).has_reader() == old(self).has_reader(),
            final(self).target() == old(self).target(),
            final(self).has_accept() == (old(self).has_accept() || result == Ok::<bool, Error>(true)),
            step == match result {
                Ok(true) => final(self).next(),
                Ok(false) => AcceptExSubmit::Fail(
                    Error::Custom(
                        ErrorKind::Unsupported,
                        "AcceptEx extension function is unavailable",
                    ),
                ),
                Err(error) => AcceptExSubmit::Fail(error),
            },
    {
        match result {
            Ok(available) => if available {
                self.accept = true;
                self.step()
            } else {
                AcceptExSubmit::Fail(
                    Error::Custom(
                        ErrorKind::Unsupported,
                        "AcceptEx extension function is unavailable",
                    ),
                )
            },
            Err(error) => AcceptExSubmit::Fail(error),
        }
    }

    /// The step after the function that reads the peer's address was to be loaded. `result` tells
    /// whether there is one.
    pub fn on_reader_loaded(&mut self, result: Result<bool, Error>) -> (step: AcceptExSubmit)
        ensures
            final(self).has_accept() == old(self).has_accept(),
            final(self).target() == old(self).target(),
            final(self).has_reader() == (old(self).has_reader() || result == Ok::<bool, Error>(true)),
            step == match result {
                Ok(true) => final(self).next(),
                Ok(false) => AcceptExSubmit::Fail(
                    Error::Custom(
                        ErrorKind::Unsupported,
                        "GetAcceptExSockaddrs extension function is unavailable",
                    ),
                ),
                Err(error) => AcceptExSubmit::Fail(error),
            },
    {
        match result {
            Ok(available) => if available {
                self.reader = true;
                self.step()
            } else {
                AcceptExSubmit::Fail(
                    Error::Custom(
                        ErrorKind::Unsupported,
                        "GetAcceptExSockaddrs extension function is unavailable",
                    ),
                )
            },
            Err(error) => AcceptExSubmit::Fail(error),
        }
    }

    /// The step after a socket to accept into was to be made.
    pub fn on_socket(&mut self, result: Result<usize, Error>) -> (step: AcceptExSubmit)
        ensures
            final(self).has_accept() == old(self).has_accept(),
            final(self).has_reader() == old(self).has_reader(),
            match result {
                Ok(socket) => {
                    &&& final(self).target() == Some(socket)
                    &&& step == final(self).next()
                },
                Err(error) => {
                    &&& final(self).target() == old(self).target()
                    &&& step == AcceptExSubmit::Fail(error)
                },
            },
    {
        match result {
            Ok(socket) => {
                self.socket = Some(socket);
                self.step()
            },
            Err(error) => AcceptExSubmit::Fail(error),
        }
    }

    /// The step after the accept was started: one that failed uses the socket up.
    pub fn on_started(&mut self, started: Result<(), Error>) -> (step: AcceptExSubmit)
        ensures
            final(self).has_accept() == old(self).has_accept(),
            final(self).has_reader() == old(self).has_reader(),
            match started {
                Err(error) if error != Error::Os(ERROR_IO_PENDING) => {
                    &&& final(self).target() is None
                    &&& step == match old(self).target() {
                        Some(socket) => AcceptExSubmit::CloseAndFail(socket, error),
                        None => AcceptExSubmit::Fail(error),
                    }
                },
                _ => {
                    &&& final(self).target() == old(self).target()
                    &&& step == AcceptExSubmit::Submitted
                },
            },
    {
        match overlapped_outcome(started) {
            Ok(()) => AcceptExSubmit::Submitted,
            Err(error) => match self.socket.take() {
                Some(socket) => AcceptExSubmit::CloseAndFail(socket, error),
                None => AcceptExSubmit::Fail(error),
            },
        }
    }

    /// Gives the socket up, for ending the accept.
    pub fn take_socket(&mut self) -> (socket: Option<usize>)
        ensures
            socket == old(self).target(),
            final(self).target() is None,
            final(self).has_accept() == old(self).has_accept(),
            final(self).has_reader() == old(self).has_reader(),
    {
        self.socket.take()
    }
}

/// The step after the family of the listener was asked for.
pub fn after_family(listener: Result<i32, Error>) -> (step: AcceptExSubmit)
    ensures
        step == match accept_family_of(listener) {
            Ok(family) => AcceptExSubmit::MakeSocket(family),
            Err(error) => AcceptExSubmit::Fail(error),
        },
{
    match accept_socket_family(listener) {
        Ok(family) => AcceptExSubmit::MakeSocket(family),
        Err(error) => AcceptExSubmit::Fail(error),
    }
}

/// What ending an overlapped accept calls for next.
#[derive(Debug, Clone, Copy, PartialEq, Eq)]
pub enum AcceptExStep {
    /// Have this accepted socket take over the listener's context.
    SetContext(usize),
    /// Ask for the address of the peer of this socket.
    AskPeer(usize),
    /// A connection was accepted.
    Accepted(usize, SocketAddr),
    /// Give up.
    Fail(Error),
    /// Close this socket and give up.
    CloseAndFail(usize, Error),
}

/// Begins to end an overlapped accept. The socket that was to be accepted into is used up.
pub fn accept_ex_done(listener_is_socket: bool, accept_socket: &mut Option<usize>) -> (step:
    AcceptExStep)
    ensures
        !listener_is_socket ==> {
            &&& step == AcceptExStep::Fail(
                Error::Custom(
                    ErrorKind::InvalidInput,
                    "AcceptEx can be used only with listening sockets",
                ),
            )
            &&& *final(accept_socket) == *old(accept_socket)
        },
        listener_is_socket ==> {
            &&& *final(accept_socket) is None
            &&& step == match *old(accept_socket) {
                Some(socket) => AcceptExStep::SetContext(socket),
                None => AcceptExStep::Fail(
                    Error::Custom(ErrorKind::Other, "AcceptEx completion missing accepted socket"),
                ),
            }
        },
{
    if !listener_is_socket {
        return AcceptExStep::Fail(
            Error::Custom(
                ErrorKind::InvalidInput,
                "AcceptEx can be used only with listening sockets",
            ),
        );
    }
    match accept_socket.take() {
        Some(socket) => AcceptExStep::SetContext(socket),
        None => AcceptExStep::Fail(
            Error::Custom(ErrorKind::Other, "AcceptEx completion missing accepted socket"),
        ),
    }
}

/// The step after the accepted socket was to take over the listener's context: its peer can be
/// asked for where the call's output is there and the function that reads it is.
pub fn accept_ex_context(
    socket: usize,
    context: Result<(), Error>,
    has_output: bool,
    has_reader: bool,
) -> (step: AcceptExStep)
    ensures
        step == match context {
            Err(error) => AcceptExStep::CloseAndFail(socket, error),
            Ok(()) => if !has_output {
                AcceptExStep::Fail(
                    Error::Custom(ErrorKind::Other, "AcceptEx completion missing peer address"),
                )
            } else if !has_reader {
                AcceptExStep::Fail(
                    Error::Custom(
                        ErrorKind::Unsupported,
                        "GetAcceptExSockaddrs extension function is unavailable",
                    ),
                )
            } else {
                AcceptExStep::AskPeer(socket)
            },
        },
{
    match context {
        Err(error) => AcceptExStep::CloseAndFail(socket, error),
        Ok(()) => if !has_output {
            AcceptExStep::Fail(
                Error::Custom(ErrorKind::Other, "AcceptEx completion missing peer address"),
            )
        } else if !has_reader {
            AcceptExStep::Fail(
                Error::Custom(
                    ErrorKind::Unsupported,
                    "GetAcceptExSockaddrs extension function is unavailable",
                ),
            )
        } else {
            AcceptExStep::AskPeer(socket)
        },
    }
}

/// The step after the peer was asked for, by its address in Windows' form.
pub fn accept_ex_peer(socket: usize, peer: Option<RawAddr>) -> (step: AcceptExStep)
    ensures
        step == match peer {
            None => AcceptExStep::Fail(
                Error::Custom(ErrorKind::Other, "can't obtain remote socket address"),
            ),
            Some(raw) => match windows_address_of(raw) {
                Ok(address) => AcceptExStep::Accepted(socket, address),
                Err(error) => AcceptExStep::CloseAndFail(socket, error),
            },
        },
{
    match peer {
        None => AcceptExStep::Fail(
            Error::Custom(ErrorKind::Other, "can't obtain remote socket address"),
        ),
        Some(raw) => match windows_raw_to_socketaddr(&raw) {
            Ok(address) => AcceptExStep::Accepted(socket, address),
            Err(error) => AcceptExStep::CloseAndFail(socket, error),
        },
    }
}

/// The socket to accept into is of the listener's own family, and only of one that addresses of the
/// internet have.
pub proof fn law_a_connection_is_of_its_listeners_family(listener: Result<i32, Error>)
    ensures
        accept_family_of(listener) matches Ok(family) ==> listener == Ok::<i32, Error>(family),
        accept_family_of(listener) is Ok <==> listener is Ok && (listener->Ok_0 == 2
            || listener->Ok_0 == 23),
        listener matches Err(error) ==> accept_family_of(listener)->Err_0 == error,
{
}

/// An overlapped accept is started only with all that it takes, and into its own socket; whatever is
/// missing is asked for first.
pub proof fn law_an_accept_has_all_it_takes(op: AcceptEx)
    ensures
        op.next() is Accept <==> op.has_accept() && op.has_reader() && op.target() is Some,
        op.next() matches AcceptExSubmit::Accept(socket) ==> op.target() == Some(socket),
        op.next() is LoadAccept <==> !op.has_accept(),
        op.next() is LoadReader ==> !op.has_reader(),
        op.next() is AskFamily ==> op.target() is None,
        op.next() is Accept || op.next() is LoadAccept || op.next() is LoadReader
            || op.next() is AskFamily,
{
}

} // verus!
