//! Connecting a socket.

use crate::error::{Error, ErrorKind, EAGAIN};
use crate::op::sockaddr::{WIN_AF_INET, WIN_AF_INET6};
use vstd::prelude::*;

verus! {

/// `libc::EINPROGRESS` on Linux.
pub const EINPROGRESS: i32 = 115;

/// `libc::EALREADY` on Linux.
pub const EALREADY: i32 = 114;

/// `libc::ENOTCONN` on Linux.
pub const ENOTCONN: i32 = 107;

/// The codes by which a system tells how far connecting is.
#[derive(Debug, Clone, Copy, PartialEq, Eq, Structural)]
pub struct ConnectCodes {
    pub in_progress: i32,
    pub already: i32,
    pub would_block: i32,
    pub not_connected: i32,
}

/// The codes of Linux.
pub open spec fn linux_codes() -> ConnectCodes {
    ConnectCodes {
        in_progress: EINPROGRESS,
        already: EALREADY,
        would_block: EAGAIN,
        not_connected: ENOTCONN,
    }
}

/// The codes of Windows: `WSAEINPROGRESS`, `WSAEALREADY`, `WSAEWOULDBLOCK` and `WSAENOTCONN`.
pub open spec fn windows_codes() -> ConnectCodes {
    ConnectCodes { in_progress: 10036, already: 10037, would_block: 10035, not_connected: 10057 }
}

impl ConnectCodes {
    /// The codes of Linux.
    pub fn linux() -> (codes: Self)
        ensures
            codes == linux_codes(),
    {
        ConnectCodes {
            in_progress: EINPROGRESS,
            already: EALREADY,
            would_block: EAGAIN,
            not_connected: ENOTCONN,
        }
    }

    /// The codes of Windows.
    pub fn windows() -> (codes: Self)
        ensures
            codes == windows_codes(),
    {
        ConnectCodes { in_progress: 10036, already: 10037, would_block: 10035, not_connected: 10057 }
    }
}

/// Whether the code says that connecting is under way.
pub open spec fn under_way_of(codes: ConnectCodes, code: i32) -> bool {
    code == codes.in_progress || code == codes.already || code == codes.would_block
}

/// Whether the code says on Linux that connecting is under way.
pub open spec fn under_way(code: i32) -> bool {
    under_way_of(linux_codes(), code)
}

/// Whether the error says to try again later.
pub open spec fn says_later(codes: ConnectCodes, error: Error) -> bool {
    match error {
        Error::Os(code) => code == codes.would_block,
        Error::Custom(kind, _) => kind == ErrorKind::WouldBlock,
        _ => false,
    }
}

/// Whether the error says to try again later.
pub(crate) fn is_later(codes: ConnectCodes, error: Error) -> (is: bool)
    ensures
        is == says_later(codes, error),
{
    match error {
        Error::Os(code) => code == codes.would_block,
        Error::Custom(kind, _) => kind == ErrorKind::WouldBlock,
        _ => false,
    }
}

fn is_under_way(codes: ConnectCodes, code: i32) -> (is: bool)
    ensures
        is == under_way_of(codes, code),
{
    code == codes.in_progress || code == codes.already || code == codes.would_block
}

/// What connecting calls for next.
#[derive(Debug, Clone, Copy, PartialEq, Eq)]
pub enum ConnectStep {
    /// Start to connect.
    Start,
    /// Ask the socket for its error.
    AskError,
    /// Ask the socket for its peer.
    AskPeer,
    /// Wait until the socket is writable, and ask again.
    Wait,
    /// The socket is connected.
    Connected,
    /// Give up.
    Fail(Error),
}

/// The connecting of a socket that is driven by readiness.
pub struct ConnectOp {
    started: bool,
}

impl ConnectOp {
    /// Whether connecting was started.
    pub closed spec fn has_started(&self) -> bool {
        self.started
    }

    /// A socket that was not told to connect.
    pub fn new() -> (op: Self)
        ensures
            !op.has_started(),
    {
        ConnectOp { started: false }
    }

    /// The first step of a poll: connecting is started once.
    pub fn poll_poll(&self) -> (step: ConnectStep)
        ensures
            step == if self.has_started() {
                ConnectStep::AskError
            } else {
                ConnectStep::Start
            },
    {
        if self.started {
            ConnectStep::AskError
        } else {
            ConnectStep::Start
        }
    }

    /// The first step of a poll of a handle: only sockets connect.
    pub fn poll_handle(&self, is_socket: bool) -> (step: ConnectStep)
        ensures
            step == if !is_socket {
                ConnectStep::Fail(Error::Custom(ErrorKind::InvalidInput, "invalid raw handle"))
            } else if self.has_started() {
                ConnectStep::AskError
            } else {
                ConnectStep::Start
            },
    {
        if !is_socket {
            return ConnectStep::Fail(Error::Custom(ErrorKind::InvalidInput, "invalid raw handle"));
        }
        self.poll_poll()
    }

    /// The step after connecting was started on Linux.
    pub fn on_started(&mut self, result: Result<(), Error>) -> (step: ConnectStep)
        ensures
            match result {
                Err(error) if !(error matches Error::Os(code) && under_way(code)) => {
                    &&& step == ConnectStep::Fail(error)
                    &&& final(self).has_started() == old(self).has_started()
                },
                _ => {
                    &&& step == ConnectStep::AskError
                    &&& final(self).has_started()
                },
            },
    {
        self.on_started_of(ConnectCodes::linux(), result)
    }

    /// The step after connecting was started: that it takes time is no failure.
    pub fn on_started_of(&mut self, codes: ConnectCodes, result: Result<(), Error>) -> (step:
        ConnectStep)
        ensures
            match result {
                Err(error) if !(error matches Error::Os(code) && under_way_of(codes, code)) => {
                    &&& step == ConnectStep::Fail(error)
                    &&& final(self).has_started() == old(self).has_started()
                },
                _ => {
                    &&& step == ConnectStep::AskError
                    &&& final(self).has_started()
                },
            },
    {
        match result {
            Err(error) => {
                let fine = match error {
                    Error::Os(code) => is_under_way(codes, code),
                    _ => false,
                };
                if !fine {
                    return ConnectStep::Fail(error);
                }
            },
            Ok(()) => {},
        }
        self.started = true;
        ConnectStep::AskError
    }
}

/// The step after the socket was asked for its error.
pub fn after_error_of(codes: ConnectCodes, socket_error: Result<i32, Error>) -> (step: ConnectStep)
    ensures
        step == match socket_error {
            Err(error) => if says_later(codes, error) {
                ConnectStep::Wait
            } else {
                ConnectStep::Fail(error)
            },
            Ok(code) => if code == 0 {
                ConnectStep::AskPeer
            } else if under_way_of(codes, code) {
                ConnectStep::Wait
            } else {
                ConnectStep::Fail(Error::Os(code))
            },
        },
{
    match socket_error {
        Err(error) => if is_later(codes, error) {
            ConnectStep::Wait
        } else {
            ConnectStep::Fail(error)
        },
        Ok(code) => if code == 0 {
            ConnectStep::AskPeer
        } else if is_under_way(codes, code) {
            ConnectStep::Wait
        } else {
            ConnectStep::Fail(Error::Os(code))
        },
    }
}

/// The step after the socket was asked for its error on Linux.
pub fn after_error(socket_error: Result<i32, Error>) -> (step: ConnectStep)
    ensures
        step == match socket_error {
            Err(error) => if error.would_block() {
                ConnectStep::Wait
            } else {
                ConnectStep::Fail(error)
            },
            Ok(code) => if code == 0 {
                ConnectStep::AskPeer
            } else if under_way(code) {
                ConnectStep::Wait
            } else {
                ConnectStep::Fail(Error::Os(code))
            },
        },
{
    after_error_of(ConnectCodes::linux(), socket_error)
}

/// The step after the socket was asked for its peer: without one it is not connected yet.
pub fn after_peer_of(codes: ConnectCodes, peer: Result<(), Error>) -> (step: ConnectStep)
    ensures
        step == match peer {
            Ok(()) => ConnectStep::Connected,
            Err(error) => if error matches Error::Os(code) && (under_way_of(codes, code) || code
                == codes.not_connected) {
                ConnectStep::Wait
            } else {
                ConnectStep::Fail(error)
            },
        },
{
    match peer {
        Ok(()) => ConnectStep::Connected,
        Err(error) => {
            let wait = match error {
                Error::Os(code) => is_under_way(codes, code) || code == codes.not_connected,
                _ => false,
            };
            if wait {
                ConnectStep::Wait
            } else {
                ConnectStep::Fail(error)
            }
        },
    }
}

/// The step after the socket was asked for its peer on Linux.
pub fn after_peer(peer: Result<(), Error>) -> (step: ConnectStep)
    ensures
        step == match peer {
            Ok(()) => ConnectStep::Connected,
            Err(error) => if error matches Error::Os(code) && (under_way(code) || code == ENOTCONN) {
                ConnectStep::Wait
            } else {
                ConnectStep::Fail(error)
            },
        },
{
    after_peer_of(ConnectCodes::linux(), peer)
}

/// `WSAEINVAL`: the socket is bound already.
pub const WSAEINVAL: i32 = 10022;

/// `WSAEADDRINUSE`.
pub const WSAEADDRINUSE: i32 = 10048;

/// What an overlapped connect calls for next.
#[derive(Debug, Clone, Copy, PartialEq, Eq)]
pub enum ConnectExStep {
    /// Bind the socket to any address of this family.
    Bind(i32),
    /// Load the function that connects.
    Load,
    /// Call it.
    Connect,
    /// Have the socket take over the connection's context.
    SetContext,
    /// The socket is connected.
    Connected,
    /// Give up.
    Fail(Error),
}

/// An overlapped connect: the socket is bound and the function loaded once each.
pub struct ConnectEx {
    bound: bool,
    loaded: bool,
}

impl ConnectEx {
    /// Whether the socket is bound.
    pub closed spec fn is_bound(&self) -> bool {
        self.bound
    }

    /// Whether the function is loaded.
    pub closed spec fn is_loaded(&self) -> bool {
        self.loaded
    }

    /// What a bound socket calls for.
    pub open spec fn once_bound(&self) -> ConnectExStep {
        if self.is_loaded() {
            ConnectExStep::Connect
        } else {
            ConnectExStep::Load
        }
    }

    /// Neither is done.
    pub fn new() -> (op: Self)
        ensures
            !op.is_bound(),
            !op.is_loaded(),
    {
        ConnectEx { bound: false, loaded: false }
    }

    /// The first step of submitting it to an address of the family.
    pub fn begin(&self, is_socket: bool, family: i32) -> (step: ConnectExStep)
        ensures
            step == if !is_socket {
                ConnectExStep::Fail(
                    Error::Custom(
                        ErrorKind::InvalidInput,
                        "ConnectEx can be used only with socket handles",
                    ),
                )
            } else if self.is_bound() {
                self.once_bound()
            } else if family == WIN_AF_INET || family == WIN_AF_INET6 {
                ConnectExStep::Bind(family)
            } else {
                ConnectExStep::Fail(
                    Error::Custom(
                        ErrorKind::InvalidInput,
                        "unsupported socket family for ConnectEx",
                    ),
                )
            },
    {
        if !is_socket {
            return ConnectExStep::Fail(
                Error::Custom(
                    ErrorKind::InvalidInput,
                    "ConnectEx can be used only with socket handles",
                ),
            );
        }
        if self.bound {
            return self.bound_step();
        }
        if family == WIN_AF_INET || family == WIN_AF_INET6 {
            ConnectExStep::Bind(family)
        } else {
            ConnectExStep::Fail(
                Error::Custom(ErrorKind::InvalidInput, "unsupported socket family for ConnectEx"),
            )
        }
    }

    fn bound_step(&self) -> (step: ConnectExStep)
        ensures
            step == self.once_bound(),
    {
        if self.loaded {
            ConnectExStep::Connect
        } else {
            ConnectExStep::Load
        }
    }

    /// The step after the socket was to be bound: that it is bound already is no failure.
    pub fn on_bound(&mut self, result: Result<(), Error>) -> (step: ConnectExStep)
        ensures
            final(self).is_loaded() == old(self).is_loaded(),
            match result {
                Err(error) if error != Error::Os(WSAEINVAL) && error != Error::Os(WSAEADDRINUSE) => {
                    &&& step == ConnectExStep::Fail(error)
                    &&& final(self).is_bound() == old(self).is_bound()
                },
                _ => {
                    &&& step == final(self).once_bound()
                    &&& final(self).is_bound()
                },
            },
    {
        match result {
            Err(error) => if !error.is_os(WSAEINVAL) && !error.is_os(WSAEADDRINUSE) {
                return ConnectExStep::Fail(error);
            },
            Ok(()) => {},
        }
        self.bound = true;
        self.bound_step()
    }

    /// The step after the function was to be loaded. `result` tells whether there is one.
    pub fn on_loaded(&mut self, result: Result<bool, Error>) -> (step: ConnectExStep)
        ensures
            final(self).is_bound() == old(self).is_bound(),
            final(self).is_loaded() == (old(self).is_loaded() || result == Ok::<bool, Error>(true)),
            step == match result {
                Ok(true) => ConnectExStep::Connect,
                Ok(false) => ConnectExStep::Fail(
                    Error::Custom(
                        ErrorKind::Unsupported,
                        "ConnectEx extension function is unavailable",
                    ),
                ),
                Err(error) => ConnectExStep::Fail(error),
            },
    {
        match result {
            Ok(available) => if available {
                self.loaded = true;
                ConnectExStep::Connect
            } else {
                ConnectExStep::Fail(
                    Error::Custom(
                        ErrorKind::Unsupported,
                        "ConnectEx extension function is unavailable",
                    ),
                )
            },
            Err(error) => ConnectExStep::Fail(error),
        }
    }
}

/// The step after an overlapped connect has ended with success.
pub fn connect_ex_done(is_socket: bool) -> (step: ConnectExStep)
    ensures
        step == if is_socket {
            ConnectExStep::SetContext
        } else {
            ConnectExStep::Fail(
                Error::Custom(
                    ErrorKind::InvalidInput,
                    "ConnectEx can be used only with socket handles",
                ),
            )
        },
{
    if is_socket {
        ConnectExStep::SetContext
    } else {
        ConnectExStep::Fail(
            Error::Custom(
                ErrorKind::InvalidInput,
                "ConnectEx can be used only with socket handles",
            ),
        )
    }
}

/// The step after the socket was to take over the connection's context.
pub fn connect_ex_context(context: Result<(), Error>) -> (step: ConnectExStep)
    ensures
        step == match context {
            Ok(()) => ConnectExStep::Connected,
            Err(error) => ConnectExStep::Fail(error),
        },
{
    match context {
        Ok(()) => ConnectExStep::Connected,
        Err(error) => ConnectExStep::Fail(error),
    }
}

/// The codes are those of the systems' own headers, and are told apart.
pub proof fn law_each_system_has_its_codes()
    ensures
        linux_codes().in_progress == 115,
        linux_codes().already == 114,
        linux_codes().would_block == 11,
        linux_codes().not_connected == 107,
        windows_codes().in_progress == 10036,
        windows_codes().already == 10037,
        windows_codes().would_block == 10035,
        windows_codes().not_connected == 10057,
{
}

/// A code says that connecting is under way in three cases and in no others. That there is no
/// failure, and that there is no peer yet, are none of them.
pub proof fn law_what_is_under_way_is_told(code: i32)
    ensures
        under_way(code) <==> code == 11 || code == 114 || code == 115,
        under_way_of(linux_codes(), code) == under_way(code),
        under_way_of(windows_codes(), code) <==> 10035 <= code <= 10037,
        !under_way(0),
        !under_way_of(windows_codes(), 0),
{
}

/// An error says to try again later by the system's code for that or by its own kind, and no other
/// error does.
pub proof fn law_what_says_later_is_told(codes: ConnectCodes, error: Error)
    ensures
        error matches Error::Os(code) ==> says_later(codes, error) == (code == codes.would_block),
        error matches Error::Custom(kind, _) ==> says_later(codes, error) == (kind
            == ErrorKind::WouldBlock),
        says_later(linux_codes(), error) == error.would_block(),
        says_later(codes, error) ==> error is Os || error is Custom,
{
}

/// An overlapped connect is called once the function is loaded, and not before.
pub proof fn law_a_connect_is_called_once_it_can_be(op: ConnectEx)
    ensures
        op.once_bound() is Connect <==> op.is_loaded(),
        op.once_bound() is Load <==> !op.is_loaded(),
{
}

} // verus!
