//! Moving a given number of bytes between descriptors inside the kernel.

use crate::error::Error;
use vstd::prelude::*;

verus! {

/// How many bytes a call can be asked for out of `left`.
pub fn request_len(left: u64) -> (len: usize)
    ensures
        len == if left <= usize::MAX {
            left as int
        } else {
            usize::MAX as int
        },
        left > 0 ==> len > 0,
{
    if left <= usize::MAX as u64 {
        left as usize
    } else {
        usize::MAX
    }
}

/// What a transfer calls for next.
#[derive(Debug, Clone, Copy, PartialEq, Eq)]
pub enum TransferStep {
    /// Move up to so many bytes.
    Move(usize),
    /// So many bytes were moved.
    Done(u64),
    /// Give up.
    Fail(Error),
}

/// A transfer of `len` bytes under way, of which `total` are moved.
pub struct Transfer {
    len: u64,
    total: u64,
}

impl Transfer {
    pub closed spec fn wf(&self) -> bool {
        self.total <= self.len
    }

    /// How many bytes are asked for.
    pub closed spec fn wanted(&self) -> u64 {
        self.len
    }

    /// How many bytes are moved.
    pub closed spec fn moved(&self) -> u64 {
        self.total
    }

    /// What the transfer calls for: as many of the missing bytes as a call can be asked for.
    pub open spec fn next(&self) -> TransferStep {
        if self.moved() >= self.wanted() {
            TransferStep::Done(self.moved())
        } else if self.wanted() - self.moved() <= usize::MAX {
            TransferStep::Move((self.wanted() - self.moved()) as usize)
        } else {
            TransferStep::Move(usize::MAX)
        }
    }

    /// A transfer that has not begun.
    pub fn new(len: u64) -> (r: (Self, TransferStep))
        ensures
            r.0.wf(),
            r.0.wanted() == len,
            r.0.moved() == 0,
            r.1 == r.0.next(),
    {
        let transfer = Transfer { len, total: 0 };
        let step = transfer.step();
        (transfer, step)
    }

    fn step(&self) -> (step: TransferStep)
        requires
            self.wf(),
        ensures
            step == self.next(),
    {
        if self.total < self.len {
            TransferStep::Move(request_len(self.len - self.total))
        } else {
            TransferStep::Done(self.total)
        }
    }

    /// Goes on after a call: one that moved nothing ends the transfer early.
    pub fn on_moved(&mut self, result: Result<usize, Error>) -> (step: TransferStep)
        requires
            old(self).wf(),
            result matches Ok(n) ==> old(self).moved() + n <= old(self).wanted(),
        ensures
            final(self).wf(),
            final(self).wanted() == old(self).wanted(),
            match result {
                Err(error) => {
                    &&& step == TransferStep::Fail(error)
                    &&& final(self).moved() == old(self).moved()
                },
                Ok(n) => {
                    &&& final(self).moved() == old(self).moved() + n
                    &&& step == if n == 0 {
                        TransferStep::Done(old(self).moved())
                    } else {
                        final(self).next()
                    }
                },
            },
    {
        match result {
            Err(error) => TransferStep::Fail(error),
            Ok(n) => {
                if n == 0 {
                    return TransferStep::Done(self.total);
                }
                self.total = self.total + n as u64;
                self.step()
            },
        }
    }
}

/// What a transfer through a pipe calls for next.
#[derive(Debug, Clone, Copy, PartialEq, Eq)]
pub enum RelayStep {
    /// Move up to so many bytes from the file into the pipe.
    Fill(usize),
    /// Move up to so many bytes from the pipe to the socket.
    Drain(usize),
    /// So many bytes have reached the socket.
    Done(u64),
    /// Give up.
    Fail(Error),
}

/// A transfer of `len` bytes from a file to a socket through a pipe.
///
/// The two sides alternate: what was moved into the pipe is moved out before more goes in.
pub struct Relay {
    len: u64,
    from_file: u64,
    to_socket: u64,
    file_eof: bool,
}

impl Relay {
    pub closed spec fn wf(&self) -> bool {
        self.to_socket <= self.from_file <= self.len
    }

    /// How many bytes are asked for.
    pub closed spec fn wanted(&self) -> u64 {
        self.len
    }

    /// How many bytes were moved into the pipe.
    pub closed spec fn taken(&self) -> u64 {
        self.from_file
    }

    /// How many bytes have reached the socket.
    pub closed spec fn sent(&self) -> u64 {
        self.to_socket
    }

    /// Whether the file has no more bytes.
    pub closed spec fn at_eof(&self) -> bool {
        self.file_eof
    }

    /// The step that goes on with the file.
    pub open spec fn fill_step(&self) -> RelayStep {
        if self.taken() < self.wanted() && !self.at_eof() {
            RelayStep::Fill(
                if self.wanted() - self.taken() <= usize::MAX {
                    (self.wanted() - self.taken()) as usize
                } else {
                    usize::MAX
                },
            )
        } else {
            self.drain_step()
        }
    }

    /// The step that goes on with the pipe.
    pub open spec fn drain_step(&self) -> RelayStep {
        if self.sent() < self.taken() {
            RelayStep::Drain(
                if self.taken() - self.sent() <= usize::MAX {
                    (self.taken() - self.sent()) as usize
                } else {
                    usize::MAX
                },
            )
        } else {
            RelayStep::Done(self.sent())
        }
    }

    /// A transfer that has not begun.
    pub fn new(len: u64) -> (r: (Self, RelayStep))
        ensures
            r.0.wf(),
            r.0.wanted() == len,
            r.0.taken() == 0,
            r.0.sent() == 0,
            !r.0.at_eof(),
            r.1 == r.0.fill_step(),
    {
        let relay = Relay { len, from_file: 0, to_socket: 0, file_eof: false };
        let step = relay.step_from_file();
        (relay, step)
    }

    fn step_from_file(&self) -> (step: RelayStep)
        requires
            self.wf(),
        ensures
            step == self.fill_step(),
    {
        if self.from_file < self.len && !self.file_eof {
            RelayStep::Fill(request_len(self.len - self.from_file))
        } else {
            self.step_from_pipe()
        }
    }

    fn step_from_pipe(&self) -> (step: RelayStep)
        requires
            self.wf(),
        ensures
            step == self.drain_step(),
    {
        if self.to_socket < self.from_file {
            RelayStep::Drain(request_len(self.from_file - self.to_socket))
        } else {
            RelayStep::Done(self.to_socket)
        }
    }

    /// Goes on after bytes were moved into the pipe; none means the end of the file.
    pub fn on_filled(&mut self, result: Result<usize, Error>) -> (step: RelayStep)
        requires
            old(self).wf(),
            result matches Ok(n) ==> old(self).taken() + n <= old(self).wanted(),
        ensures
            final(self).wf(),
            final(self).wanted() == old(self).wanted(),
            final(self).sent() == old(self).sent(),
            match result {
                Err(error) => {
                    &&& step == RelayStep::Fail(error)
                    &&& final(self).taken() == old(self).taken()
                    &&& final(self).at_eof() == old(self).at_eof()
                },
                Ok(n) => {
                    &&& final(self).taken() == old(self).taken() + n
                    &&& final(self).at_eof() == (old(self).at_eof() || n == 0)
                    &&& step == final(self).drain_step()
                },
            },
    {
        match result {
            Err(error) => RelayStep::Fail(error),
            Ok(n) => {
                if n == 0 {
                    self.file_eof = true;
                } else {
                    self.from_file = self.from_file + n as u64;
                }
                self.step_from_pipe()
            },
        }
    }

    /// Goes on after bytes were moved out of the pipe; none ends the transfer early.
    pub fn on_drained(&mut self, result: Result<usize, Error>) -> (step: RelayStep)
        requires
            old(self).wf(),
            result matches Ok(n) ==> old(self).sent() + n <= old(self).taken(),
        ensures
            final(self).wf(),
            final(self).wanted() == old(self).wanted(),
            final(self).taken() == old(self).taken(),
            final(self).at_eof() == old(self).at_eof(),
            match result {
                Err(error) => {
                    &&& step == RelayStep::Fail(error)
                    &&& final(self).sent() == old(self).sent()
                },
                Ok(n) => {
                    &&& final(self).sent() == old(self).sent() + n
                    &&& step == if n == 0 {
                        RelayStep::Done(old(self).sent())
                    } else {
                        final(self).fill_step()
                    }
                },
            },
    {
        match result {
            Err(error) => RelayStep::Fail(error),
            Ok(n) => {
                if n == 0 {
                    return RelayStep::Done(self.to_socket);
                }
                self.to_socket = self.to_socket + n as u64;
                self.step_from_file()
            },
        }
    }
}

/// A transfer through a pipe that is not cut short by the socket ends with as many bytes sent as
/// were taken, and those are all that were asked for unless the file ended.
pub proof fn law_a_relay_loses_nothing(relay: Relay, n: u64)
    requires
        relay.wf(),
        relay.fill_step() == RelayStep::Done(n),
    ensures
        n == relay.taken(),
        relay.taken() < relay.wanted() ==> relay.at_eof(),
{
}

/// A transfer asks for just what is missing, or as much of it as a call can be asked for, and is done
/// once nothing is missing.
pub proof fn law_a_transfer_asks_for_what_is_missing(transfer: Transfer)
    requires
        transfer.wf(),
    ensures
        transfer.moved() <= transfer.wanted(),
        transfer.next() is Done <==> transfer.moved() == transfer.wanted(),
        transfer.next() matches TransferStep::Done(n) ==> n == transfer.moved(),
        transfer.next() matches TransferStep::Move(n) ==> {
            &&& 0 < n <= transfer.wanted() - transfer.moved()
            &&& n == transfer.wanted() - transfer.moved() || n == usize::MAX
        },
        !(transfer.next() is Fail),
{
}

/// A transfer through a pipe takes from the file just what is missing, as long as the file has more,
/// and sends just what the pipe holds.
pub proof fn law_a_relay_asks_for_what_is_missing(relay: Relay)
    requires
        relay.wf(),
    ensures
        relay.sent() <= relay.taken() <= relay.wanted(),
        relay.fill_step() is Fill <==> relay.taken() < relay.wanted() && !relay.at_eof(),
        relay.fill_step() matches RelayStep::Fill(n) ==> {
            &&& 0 < n <= relay.wanted() - relay.taken()
            &&& n == relay.wanted() - relay.taken() || n == usize::MAX
        },
        !(relay.fill_step() is Fill) ==> relay.fill_step() == relay.drain_step(),
        relay.drain_step() is Drain <==> relay.sent() < relay.taken(),
        relay.drain_step() matches RelayStep::Drain(n) ==> {
            &&& 0 < n <= relay.taken() - relay.sent()
            &&& n == relay.taken() - relay.sent() || n == usize::MAX
        },
        relay.drain_step() is Done <==> relay.sent() == relay.taken(),
        relay.drain_step() matches RelayStep::Done(n) ==> n == relay.sent(),
{
}

} // verus!
