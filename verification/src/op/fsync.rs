//! Making a file's contents durable.

use crate::op::io_util::CompletionOp;
use vstd::prelude::*;

verus! {

/// The request to make a file's contents durable.
pub struct FsyncOp {
    pub fd: i32,
    /// Whether metadata that is not needed to read the contents is left out.
    pub data_only: bool,
    pub completion: CompletionOp,
}

impl FsyncOp {
    /// A request that was not submitted.
    pub fn new(fd: i32, data_only: bool) -> (op: Self)
        ensures
            op.fd == fd,
            op.data_only == data_only,
            op.completion.token() is None,
    {
        FsyncOp { fd, data_only, completion: CompletionOp::new() }
    }
}

} // verus!
