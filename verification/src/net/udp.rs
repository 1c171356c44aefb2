//! Readiness of a datagram socket, remembered between polls.

use crate::error::{Error, ErrorKind};
use vstd::prelude::*;

verus! {

/// Which way datagrams go.
#[derive(Debug, Clone, Copy, PartialEq, Eq, Structural)]
pub enum Direction {
    Read,
    Write,
}

/// The error for an attempt while the socket is not known to be ready.
pub open spec fn not_ready(direction: Direction) -> Error {
    Error::Custom(
        ErrorKind::WouldBlock,
        match direction {
            Direction::Read => "read not ready",
            Direction::Write => "write not ready",
        },
    )
}

/// Whether a socket is known to be ready in one direction.
pub struct Readiness {
    direction: Direction,
    ready: bool,
}

impl Readiness {
    pub closed spec fn direction(&self) -> Direction {
        self.direction
    }

    pub closed spec fn is_ready(&self) -> bool {
        self.ready
    }

    /// Nothing is known.
    pub fn new(direction: Direction) -> (r: Self)
        ensures
            r.direction() == direction,
            !r.is_ready(),
    {
        Readiness { direction, ready: false }
    }

    /// Whether an attempt makes sense: not while the socket is not known to be ready.
    pub fn try_io(&self) -> (r: Result<(), Error>)
        ensures
            r == if self.is_ready() {
                Ok::<(), Error>(())
            } else {
                Err(not_ready(self.direction()))
            },
            r is Ok <==> self.is_ready(),
            r matches Err(Error::Custom(kind, says)) ==> kind == ErrorKind::WouldBlock && says
                == if self.direction() is Read {
                "read not ready"
            } else {
                "write not ready"
            },
    {
        if self.ready {
            return Ok(());
        }
        Err(
            Error::Custom(
                ErrorKind::WouldBlock,
                match self.direction {
                    Direction::Read => "read not ready",
                    Direction::Write => "write not ready",
                },
            ),
        )
    }

    /// Takes note of what an attempt came to: after a failure nothing is known.
    pub fn on_io(&mut self, failed: bool)
        ensures
            final(self).direction() == old(self).direction(),
            final(self).is_ready() == (old(self).is_ready() && !failed),
    {
        if failed {
            self.ready = false;
        }
    }

    /// Whether a poll has to ask the driver.
    pub fn needs_poll(&self) -> (needs: bool)
        ensures
            needs == !self.is_ready(),
    {
        !self.ready
    }

    /// Takes note of what the driver said: only that the socket is ready makes it known to be so.
    /// Without an answer the poll is pending.
    pub fn on_polled(&mut self, polled: Option<Result<(), Error>>) -> (r: Option<Result<(), Error>>)
        ensures
            r == polled,
            final(self).direction() == old(self).direction(),
            final(self).is_ready() == (old(self).is_ready() || polled matches Some(Ok(_))),
    {
        match polled {
            Some(Ok(())) => {
                self.ready = true;
            },
            _ => {},
        }
        polled
    }
}

/// An attempt on a socket that is not known to be ready is refused as one that would block, and says
/// in which direction.
pub proof fn law_not_ready_would_block(direction: Direction)
    ensures
        not_ready(direction).would_block(),
        not_ready(Direction::Read) == Error::Custom(ErrorKind::WouldBlock, "read not ready"),
        not_ready(Direction::Write) == Error::Custom(ErrorKind::WouldBlock, "write not ready"),
{
}

} // verus!
