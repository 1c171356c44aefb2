//! The blocking thread pool.

use vstd::prelude::*;

verus! {

/// How many threads the default pool has at most.
pub const DEFAULT_MAX_THREADS: usize = 512;

/// Error returned when a task could not be run on the blocking thread pool.
#[derive(Debug, Clone, Copy, PartialEq, Eq, Structural)]
pub struct SpawnBlockingError;

impl SpawnBlockingError {
    /// What the error says.
    pub fn message(&self) -> (message: &'static str)
        ensures
            message == "failed to spawn blocking task",
    {
        "failed to spawn blocking task"
    }
}

/// What a task on the pool comes to, by what it has left behind: nothing, where it never ran to
/// its end.
pub fn spawn_blocking<T>(received: Option<T>) -> (r: Result<T, SpawnBlockingError>)
    ensures
        r == match received {
            Some(value) => Ok::<T, SpawnBlockingError>(value),
            None => Err(SpawnBlockingError),
        },
{
    match received {
        Some(value) => Ok(value),
        None => Err(SpawnBlockingError),
    }
}

} // verus!
