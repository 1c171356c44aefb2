//! A driver without I/O, for runtimes that only run tasks and timers.

use crate::error::{Error, ErrorKind};
use vstd::prelude::*;

verus! {

/// A driver that can wait and be interrupted, and refuses every handle.
pub struct MockDriver;

impl MockDriver {
    pub fn new() -> (driver: Self)
        ensures
            driver == MockDriver,
    {
        MockDriver
    }

    /// Refuses to register a handle.
    pub fn register_handle(&self) -> (r: Result<usize, Error>)
        ensures
            r == Err::<usize, Error>(
                Error::Custom(
                    ErrorKind::Unsupported,
                    "MockDriver does not support I/O handle registration",
                ),
            ),
    {
        Err(
            Error::Custom(
                ErrorKind::Unsupported,
                "MockDriver does not support I/O handle registration",
            ),
        )
    }

    /// Refuses to register a handle again.
    pub fn reregister_handle(&self) -> (r: Result<(), Error>)
        ensures
            r == Err::<(), Error>(
                Error::Custom(
                    ErrorKind::Unsupported,
                    "MockDriver does not support I/O handle re-registration",
                ),
            ),
    {
        Err(
            Error::Custom(
                ErrorKind::Unsupported,
                "MockDriver does not support I/O handle re-registration",
            ),
        )
    }

    /// Refuses to forget a handle.
    pub fn deregister_handle(&self) -> (r: Result<(), Error>)
        ensures
            r == Err::<(), Error>(
                Error::Custom(
                    ErrorKind::Unsupported,
                    "MockDriver does not support I/O handle deregistration",
                ),
            ),
    {
        Err(
            Error::Custom(
                ErrorKind::Unsupported,
                "MockDriver does not support I/O handle deregistration",
            ),
        )
    }
}

} // verus!
