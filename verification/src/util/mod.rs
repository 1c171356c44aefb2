//! What the runtime and the system it runs on can do, and an adapter for other I/O traits.

use crate::driver::Backend;
use vstd::prelude::*;

pub mod async_wrap;

verus! {

/// Whether the current driver supports completion-based operations: a ring and a completion port
/// do, and nothing does without a driver.
#[must_use]
pub fn supports_completion(current_driver: Option<Backend>) -> (supports: bool)
    ensures
        supports == (current_driver == Some(Backend::IoUring) || current_driver == Some(
            Backend::Iocp,
        )),
{
    match current_driver {
        Some(driver) => driver.supports_completion(),
        None => false,
    }
}

/// An operation of the ring.
#[derive(Debug, Clone, Copy, PartialEq, Eq, Structural)]
pub enum RingOp {
    Accept,
    Connect,
    PollAdd,
    Timeout,
    Read,
    Readv,
    Recv,
    RecvMsg,
    Send,
    SendMsg,
    Write,
    Writev,
    OpenAt,
    Fsync,
    MkDirAt,
    RenameAt,
    LinkAt,
    SymlinkAt,
    UnlinkAt,
    Statx,
    Splice,
}

/// The operations that the runtime needs of a ring, by what it was built with.
pub open spec fn required(op: RingOp, fs: bool, statx: bool, splice: bool) -> bool {
    match op {
        RingOp::OpenAt
        | RingOp::Fsync
        | RingOp::MkDirAt
        | RingOp::RenameAt
        | RingOp::LinkAt
        | RingOp::SymlinkAt
        | RingOp::UnlinkAt => fs,
        RingOp::Statx => fs && statx,
        RingOp::Splice => splice,
        _ => true,
    }
}

/// The operations that the runtime needs of a ring.
pub fn required_ops(fs: bool, statx: bool, splice: bool) -> (ops: Vec<RingOp>)
    ensures
        ops@.no_duplicates(),
        forall|op: RingOp| #[trigger] ops@.contains(op) <==> required(op, fs, statx, splice),
{
    let mut ops: Vec<RingOp> = vec![
        RingOp::Accept,
        RingOp::Connect,
        RingOp::PollAdd,
        RingOp::Timeout,
        RingOp::Read,
        RingOp::Readv,
        RingOp::Recv,
        RingOp::RecvMsg,
        RingOp::Send,
        RingOp::SendMsg,
        RingOp::Write,
        RingOp::Writev,
    ];
    proof {
        assert(ops@[0] == RingOp::Accept && ops@[1] == RingOp::Connect && ops@[2] == RingOp::PollAdd
            && ops@[3] == RingOp::Timeout && ops@[4] == RingOp::Read && ops@[5] == RingOp::Readv
            && ops@[6] == RingOp::Recv && ops@[7] == RingOp::RecvMsg && ops@[8] == RingOp::Send
            && ops@[9] == RingOp::SendMsg && ops@[10] == RingOp::Write && ops@[11]
            == RingOp::Writev);
    }
    let ghost base = ops@;
    if fs {
        ops.push(RingOp::OpenAt);
        ops.push(RingOp::Fsync);
        ops.push(RingOp::MkDirAt);
        ops.push(RingOp::RenameAt);
        ops.push(RingOp::LinkAt);
        ops.push(RingOp::SymlinkAt);
        ops.push(RingOp::UnlinkAt);
        proof {
            assert(ops@[12] == RingOp::OpenAt && ops@[13] == RingOp::Fsync && ops@[14]
                == RingOp::MkDirAt && ops@[15] == RingOp::RenameAt && ops@[16] == RingOp::LinkAt
                && ops@[17] == RingOp::SymlinkAt && ops@[18] == RingOp::UnlinkAt);
        }
    }
    let ghost with_fs = ops@;
    if fs && statx {
        ops.push(RingOp::Statx);
        assert(ops@[19] == RingOp::Statx);
    }
    let ghost with_statx = ops@;
    if splice {
        ops.push(RingOp::Splice);
        assert(ops@[ops@.len() - 1] == RingOp::Splice);
    }
    proof {
        assert(forall|i: int| 0 <= i < base.len() ==> ops@[i] == #[trigger] base[i]);
        assert(forall|i: int| 0 <= i < with_fs.len() ==> ops@[i] == #[trigger] with_fs[i]);
        assert(forall|i: int| 0 <= i < with_statx.len() ==> ops@[i] == #[trigger] with_statx[i]);
        assert forall|op: RingOp| required(op, fs, statx, splice) implies ops@.contains(op) by {
            match op {
                RingOp::Accept => assert(base[0] == op),
                RingOp::Connect => assert(base[1] == op),
                RingOp::PollAdd => assert(base[2] == op),
                RingOp::Timeout => assert(base[3] == op),
                RingOp::Read => assert(base[4] == op),
                RingOp::Readv => assert(base[5] == op),
                RingOp::Recv => assert(base[6] == op),
                RingOp::RecvMsg => assert(base[7] == op),
                RingOp::Send => assert(base[8] == op),
                RingOp::SendMsg => assert(base[9] == op),
                RingOp::Write => assert(base[10] == op),
                RingOp::Writev => assert(base[11] == op),
                RingOp::OpenAt => assert(with_fs[12] == op),
                RingOp::Fsync => assert(with_fs[13] == op),
                RingOp::MkDirAt => assert(with_fs[14] == op),
                RingOp::RenameAt => assert(with_fs[15] == op),
                RingOp::LinkAt => assert(with_fs[16] == op),
                RingOp::SymlinkAt => assert(with_fs[17] == op),
                RingOp::UnlinkAt => assert(with_fs[18] == op),
                RingOp::Statx => assert(with_statx[19] == op),
                RingOp::Splice => assert(ops@[ops@.len() - 1] == op),
            }
        }
    }
    ops
}

/// Whether the system supports the ring with all operations that are needed: not where no ring
/// could be set up and probed. `probed` tells of each needed operation whether it is there.
#[must_use]
pub fn supports_io_uring(probed: Option<&Vec<bool>>) -> (supports: bool)
    ensures
        supports == match probed {
            Some(ops) => !ops@.contains(false),
            None => false,
        },
{
    match probed {
        None => false,
        Some(ops) => {
            let mut i: usize = 0;
            while i < ops.len()
                invariant
                    i <= ops@.len(),
                    probed == Some(ops),
                    forall|j: int| 0 <= j < i ==> ops@[j] != false,
                decreases ops@.len() - i,
            {
                if !ops[i] {
                    assert(ops@[i as int] == false);
                    return false;
                }
                i += 1;
            }
            true
        },
    }
}

/// Whatever the runtime was built with, it needs of a ring what sockets and timers take; files, their
/// status and splicing add their own operations, and nothing else.
pub proof fn law_a_ring_has_what_is_built_in(op: RingOp, fs: bool, statx: bool, splice: bool)
    ensures
        required(op, true, true, true),
        required(op, fs, statx, splice) ==> required(op, true, true, true),
        op is Accept || op is Connect || op is PollAdd || op is Timeout || op is Read || op is Readv
            || op is Recv || op is RecvMsg || op is Send || op is SendMsg || op is Write
            || op is Writev <==> required(op, false, false, false),
        op is OpenAt || op is Fsync || op is MkDirAt || op is RenameAt || op is LinkAt
            || op is SymlinkAt || op is UnlinkAt ==> required(op, fs, statx, splice) == fs,
        op is Statx ==> required(op, fs, statx, splice) == (fs && statx),
        op is Splice ==> required(op, fs, statx, splice) == splice,
        required(op, false, false, false) ==> required(op, fs, statx, splice),
{
}

} // verus!
