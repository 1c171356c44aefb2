//! Pipes.

use vstd::prelude::*;

verus! {

/// `libc::O_NONBLOCK` on Linux.
pub const O_NONBLOCK: i32 = 0x800;

/// The status flags for a pipe: the kernel blocks on it only where operations are submitted for
/// completion.
pub fn pipe_flags(flags: i32, uses_completion: bool) -> (new_flags: i32)
    ensures
        new_flags == if uses_completion {
            flags & !0x800i32
        } else {
            flags | 0x800
        },
        new_flags & 0x800 == if uses_completion {
            0i32
        } else {
            0x800
        },
        new_flags | 0x800 == flags | 0x800,
{
    let mut new_flags: i32 = flags | O_NONBLOCK;
    if uses_completion {
        new_flags = new_flags & !O_NONBLOCK;
    }
    assert((flags | 0x800) & !0x800i32 == flags & !0x800i32) by (bit_vector);
    assert((flags & !0x800i32) & 0x800 == 0 && (flags | 0x800) & 0x800 == 0x800) by (bit_vector);
    assert((flags & !0x800i32) | 0x800 == flags | 0x800 && (flags | 0x800) | 0x800 == flags | 0x800)
        by (bit_vector);
    new_flags
}

} // verus!
