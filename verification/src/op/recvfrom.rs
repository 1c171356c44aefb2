//! Receiving a datagram along with where it came from.

use crate::error::{Error, ErrorKind};
use crate::op::io_util::{attempt, completion_result, poll_result_or_wait, PollStep};
use crate::op::sockaddr::{address_of, sockaddr_storage_to_socketaddr, RawAddr, SocketAddr};
use vstd::prelude::*;

verus! {

/// `libc::MSG_PEEK` on Linux.
pub const MSG_PEEK: i32 = 2;

/// The flags for receiving: a datagram that is only looked at stays in the queue.
pub fn recv_flags(peek: bool) -> (flags: i32)
    ensures
        flags == if peek {
            MSG_PEEK
        } else {
            0
        },
{
    if peek {
        MSG_PEEK
    } else {
        0
    }
}

/// A datagram's length with the address that it came from, if that can be told.
pub open spec fn from_address(len: usize, source: Result<SocketAddr, Error>) -> Result<
    (usize, SocketAddr),
    Error,
> {
    match source {
        Ok(address) => Ok((len, address)),
        Err(error) => Err(error),
    }
}

/// What an attempt to receive a datagram comes to: where there is none, it is waited for.
pub fn after_recvfrom(received: Result<(usize, RawAddr), Error>) -> (step: PollStep<
    (usize, SocketAddr),
>)
    ensures
        step == match received {
            Ok((len, raw)) => PollStep::Ready(from_address(len, address_of(raw))),
            Err(error) => attempt(Err::<(usize, SocketAddr), Error>(error)),
        },
        received matches Ok((len, raw)) ==> match address_of(raw) {
            Ok(address) => step == PollStep::Ready(Ok::<(usize, SocketAddr), Error>((len, address))),
            Err(error) => step == PollStep::Ready(Err::<(usize, SocketAddr), Error>(error)),
        },
{
    match received {
        Ok((len, raw)) => match sockaddr_storage_to_socketaddr(&raw) {
            Ok(address) => PollStep::Ready(Ok((len, address))),
            Err(error) => PollStep::Ready(Err(error)),
        },
        Err(error) => poll_result_or_wait(Err(error)),
    }
}

/// What a completed operation comes to, by its result and the address that was filled in.
pub fn recvfrom_completed(result: i32, source: Option<RawAddr>) -> (r: Result<
    (usize, SocketAddr),
    Error,
>)
    requires
        result != i32::MIN,
    ensures
        r == if result < 0 {
            Err::<(usize, SocketAddr), Error>(Error::Os((-result) as i32))
        } else {
            match source {
                Some(raw) => from_address(result as usize, address_of(raw)),
                None => Err(
                    Error::Custom(ErrorKind::Other, "recvfrom completion missing source address"),
                ),
            }
        },
        result >= 0 ==> (source matches Some(raw) ==> match address_of(raw) {
            Ok(address) => r matches Ok((len, from)) && len == result && from == address,
            Err(error) => r == Err::<(usize, SocketAddr), Error>(error),
        }),
{
    match completion_result(result) {
        Err(error) => Err(error),
        Ok(len) => match source {
            None => Err(
                Error::Custom(ErrorKind::Other, "recvfrom completion missing source address"),
            ),
            Some(raw) => match sockaddr_storage_to_socketaddr(&raw) {
                Ok(address) => Ok((len as usize, address)),
                Err(error) => Err(error),
            },
        },
    }
}

/// A datagram is handed on with its own length and the address that it came from, and one whose
/// sender cannot be told is not handed on.
pub proof fn law_a_datagram_keeps_its_sender(len: usize, source: Result<SocketAddr, Error>)
    ensures
        from_address(len, source) is Ok <==> source is Ok,
        source matches Ok(address) ==> from_address(len, source)->Ok_0.0 == len && from_address(
            len,
            source,
        )->Ok_0.1 == address,
        source matches Err(error) ==> from_address(len, source)->Err_0 == error,
{
}

} // verus!
