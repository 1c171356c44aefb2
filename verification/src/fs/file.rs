//! Reading and writing at offsets of a file.

use crate::error::{Error, ErrorKind};
use crate::fs::paths::Route;
use vstd::prelude::*;

verus! {

/// The error where the blocking thread pool takes no task.
pub fn blocking_pool_io_error() -> (error: Error)
    ensures
        error == Error::Custom(ErrorKind::Other, "can't spawn blocking task for file I/O"),
{
    Error::Custom(ErrorKind::Other, "can't spawn blocking task for file I/O")
}

/// How an operation on an open file is carried out: by completion where the file is registered for
/// it, and on the pool only where there is a driver.
pub fn file_route(registered: bool, offload: bool, has_driver: bool) -> (route: Route)
    ensures
        route == if registered {
            Route::Completion
        } else if offload && has_driver {
            Route::Pool
        } else {
            Route::Blocking
        },
{
    if registered {
        Route::Completion
    } else if offload && has_driver {
        Route::Pool
    } else {
        Route::Blocking
    }
}

/// An offset moved on by the bytes an operation has dealt with, as far as it can be counted.
pub open spec fn moved_on(offset: u64, n: usize) -> u64 {
    if offset + n <= u64::MAX {
        (offset + n) as u64
    } else {
        u64::MAX
    }
}

/// The cursor of a file after a read or a write at it.
pub fn advance_cursor(cursor: u64, result: &Result<usize, Error>) -> (next: u64)
    ensures
        next == match *result {
            Ok(n) => moved_on(cursor, n),
            Err(_) => cursor,
        },
        *result matches Ok(n) ==> (cursor + n <= u64::MAX ==> next == cursor + n),
        *result matches Ok(n) ==> (cursor + n > u64::MAX ==> next == u64::MAX),
{
    match result {
        Ok(n) => cursor.saturating_add(*n as u64),
        Err(_) => cursor,
    }
}

/// Which way bytes are moved.
#[derive(Debug, Clone, Copy, PartialEq, Eq, Structural)]
pub enum Direction {
    Read,
    Write,
}

/// What reading or writing a whole buffer calls for next.
#[derive(Debug, Clone, Copy, PartialEq, Eq)]
pub enum ExactStep {
    /// Go on at this offset of the file, and that far into the buffer.
    Go(u64, usize),
    /// All of the buffer is dealt with.
    Done,
    /// Give up.
    Fail(Error),
}

/// How far reading or writing a whole buffer has come.
pub struct ExactState {
    pub direction: Direction,
    /// The length of the buffer.
    pub len: usize,
    /// How much of the buffer is dealt with.
    pub done: usize,
    /// The offset to go on at.
    pub offset: u64,
}

/// What is called for: the rest of the buffer.
pub open spec fn step_for(state: ExactState) -> ExactStep {
    if state.done < state.len {
        ExactStep::Go(state.offset, state.done)
    } else {
        ExactStep::Done
    }
}

/// How it goes on after an operation: one that dealt with nothing is an error.
pub open spec fn after_operation(state: ExactState, n: usize) -> (ExactState, ExactStep) {
    let next = ExactState {
        done: (state.done + n) as usize,
        offset: moved_on(state.offset, n),
        ..state
    };
    if n == 0 {
        (
            next,
            ExactStep::Fail(
                Error::Custom(
                    ErrorKind::UnexpectedEof,
                    match state.direction {
                        Direction::Read => "failed to fill whole buffer",
                        Direction::Write => "failed to write whole buffer",
                    },
                ),
            ),
        )
    } else {
        (next, step_for(next))
    }
}

/// A buffer of `len` bytes of which `done` are dealt with, where the next goes to or comes from
/// `offset`.
pub struct ExactAt {
    direction: Direction,
    len: usize,
    done: usize,
    offset: u64,
}

impl ExactAt {
    pub closed spec fn wf(&self) -> bool {
        self.done <= self.len
    }

    /// How far it has come.
    pub closed spec fn view(&self) -> ExactState {
        ExactState {
            direction: self.direction,
            len: self.len,
            done: self.done,
            offset: self.offset,
        }
    }

    /// A buffer of which nothing is dealt with.
    pub fn new(direction: Direction, len: usize, offset: u64) -> (r: (Self, ExactStep))
        ensures
            r.0.wf(),
            r.0@ == (ExactState { direction, len, done: 0, offset }),
            r.1 == step_for(r.0@),
    {
        let exact = ExactAt { direction, len, done: 0, offset };
        let step = if len > 0 {
            ExactStep::Go(offset, 0)
        } else {
            ExactStep::Done
        };
        (exact, step)
    }

    /// Goes on after an operation: one that dealt with nothing is an error.
    pub fn on_result(&mut self, result: Result<usize, Error>) -> (step: ExactStep)
        requires
            old(self).wf(),
            result matches Ok(n) ==> old(self)@.done + n <= old(self)@.len,
        ensures
            final(self).wf(),
            match result {
                Err(error) => step == ExactStep::Fail(error) && final(self)@ == old(self)@,
                Ok(n) => (final(self)@, step) == after_operation(old(self)@, n),
            },
            result matches Ok(n) ==> {
                &&& final(self)@.done == old(self)@.done + n
                &&& final(self)@.len == old(self)@.len
                &&& old(self)@.offset + n <= u64::MAX ==> final(self)@.offset == old(self)@.offset
                    + n
                &&& step is Fail <==> n == 0
                &&& step is Done <==> n > 0 && final(self)@.done == final(self)@.len
                &&& step matches ExactStep::Go(offset, done) ==> offset == final(self)@.offset
                    && done == final(self)@.done
            },
    {
        match result {
            Err(error) => ExactStep::Fail(error),
            Ok(n) => {
                if n == 0 {
                    return ExactStep::Fail(
                        Error::Custom(
                            ErrorKind::UnexpectedEof,
                            match self.direction {
                                Direction::Read => "failed to fill whole buffer",
                                Direction::Write => "failed to write whole buffer",
                            },
                        ),
                    );
                }
                self.offset = self.offset.saturating_add(n as u64);
                self.done = self.done + n;
                if self.done < self.len {
                    ExactStep::Go(self.offset, self.done)
                } else {
                    ExactStep::Done
                }
            },
        }
    }
}

/// How far it has come after operations that dealt with so many bytes each, and what is called
/// for.
pub open spec fn after_operations(start: ExactState, operations: Seq<usize>) -> (
    ExactState,
    ExactStep,
)
    decreases operations.len(),
{
    if operations.len() == 0 {
        (start, step_for(start))
    } else {
        after_operation(after_operations(start, operations.drop_last()).0, operations.last())
    }
}

/// Each operation was called for, and dealt with no more than was left.
pub open spec fn are_operations_of(start: ExactState, operations: Seq<usize>) -> bool
    decreases operations.len(),
{
    operations.len() > 0 ==> {
        let (before, step) = after_operations(start, operations.drop_last());
        &&& are_operations_of(start, operations.drop_last())
        &&& step is Go
        &&& before.done + operations.last() <= before.len
    }
}

/// What the reads put into the buffer, one after the other: each what the file holds from its
/// offset on.
pub open spec fn filled_by(file: Seq<u8>, start: ExactState, operations: Seq<usize>) -> Seq<u8>
    decreases operations.len(),
{
    if operations.len() == 0 {
        Seq::empty()
    } else {
        let from = after_operations(start, operations.drop_last()).0.offset as int;
        filled_by(file, start, operations.drop_last()) + file.subrange(
            from,
            from + operations.last(),
        )
    }
}

/// A file once bytes are written at an offset. What was beyond its end before them is zero.
pub open spec fn with_bytes_at(file: Seq<u8>, offset: int, bytes: Seq<u8>) -> Seq<u8> {
    if bytes.len() == 0 {
        file
    } else {
        let end = offset + bytes.len();
        Seq::new(
            if end <= file.len() {
                file.len()
            } else {
                end as nat
            },
            |i: int|
                if offset <= i < end {
                    bytes[i - offset]
                } else if i < file.len() {
                    file[i]
                } else {
                    0
                },
        )
    }
}

/// What the file holds after the writes: each puts the next bytes of the buffer at its offset.
pub open spec fn file_after(
    file: Seq<u8>,
    buffer: Seq<u8>,
    start: ExactState,
    operations: Seq<usize>,
) -> Seq<u8>
    decreases operations.len(),
{
    if operations.len() == 0 {
        file
    } else {
        let before = after_operations(start, operations.drop_last()).0;
        with_bytes_at(
            file_after(file, buffer, start, operations.drop_last()),
            before.offset as int,
            buffer.subrange(before.done as int, before.done + operations.last()),
        )
    }
}

/// A byte of the buffer always meets the byte of the file that is as far from the offset asked for
/// as it is from the start of the buffer, and all of the buffer is dealt with at the end.
pub proof fn law_offsets_keep_step(start: ExactState, operations: Seq<usize>)
    requires
        start.done == 0,
        start.offset + start.len <= u64::MAX,
        are_operations_of(start, operations),
    ensures
        ({
            let (state, step) = after_operations(start, operations);
            &&& state.offset == start.offset + state.done
            &&& state.done <= state.len == start.len
            &&& step is Done ==> state.done == start.len
        }),
    decreases operations.len(),
{
    if operations.len() > 0 {
        law_offsets_keep_step(start, operations.drop_last());
    }
}

/// Reading a whole buffer fills it with the bytes of the file from the offset asked for on, however
/// many reads that takes.
pub proof fn law_a_buffer_is_filled_whole(file: Seq<u8>, start: ExactState, operations: Seq<usize>)
    requires
        start.done == 0,
        start.offset + start.len <= u64::MAX,
        start.offset + start.len <= file.len(),
        are_operations_of(start, operations),
    ensures
        ({
            let (state, step) = after_operations(start, operations);
            &&& filled_by(file, start, operations) == file.subrange(
                start.offset as int,
                start.offset + state.done,
            )
            &&& step is Done ==> state.done == start.len
        }),
    decreases operations.len(),
{
    law_offsets_keep_step(start, operations);
    let state = after_operations(start, operations).0;
    if operations.len() > 0 {
        law_offsets_keep_step(start, operations.drop_last());
        law_a_buffer_is_filled_whole(file, start, operations.drop_last());
    }
    assert(filled_by(file, start, operations) =~= file.subrange(
        start.offset as int,
        start.offset + state.done,
    ));
}

/// Writing a whole buffer puts it into the file at the offset asked for, however many writes that
/// takes, and touches nothing else.
pub proof fn law_a_buffer_is_written_whole(
    file: Seq<u8>,
    buffer: Seq<u8>,
    start: ExactState,
    operations: Seq<usize>,
)
    requires
        start.done == 0,
        start.len == buffer.len(),
        start.offset + start.len <= u64::MAX,
        are_operations_of(start, operations),
    ensures
        ({
            let (state, step) = after_operations(start, operations);
            &&& file_after(file, buffer, start, operations) == with_bytes_at(
                file,
                start.offset as int,
                buffer.take(state.done as int),
            )
            &&& step is Done ==> file_after(file, buffer, start, operations) == with_bytes_at(
                file,
                start.offset as int,
                buffer,
            )
        }),
    decreases operations.len(),
{
    law_offsets_keep_step(start, operations);
    let state = after_operations(start, operations).0;
    if operations.len() > 0 {
        law_offsets_keep_step(start, operations.drop_last());
        law_a_buffer_is_written_whole(file, buffer, start, operations.drop_last());
    }
    assert(file_after(file, buffer, start, operations) =~= with_bytes_at(
        file,
        start.offset as int,
        buffer.take(state.done as int),
    ));
    assert(buffer.take(buffer.len() as int) =~= buffer);
}

/// An offset moves on by just the bytes that were dealt with, and stays at the last one that can be
/// counted.
pub proof fn law_an_offset_never_goes_back(offset: u64, n: usize)
    ensures
        offset + n <= u64::MAX ==> moved_on(offset, n) == offset + n,
        offset + n > u64::MAX ==> moved_on(offset, n) == u64::MAX,
        moved_on(offset, n) >= offset,
{
}

/// What is called for is just the rest of the buffer: it is done once nothing is left, and else goes
/// on behind what is dealt with. An operation that dealt with nothing, and no other, is an error.
pub proof fn law_the_rest_is_called_for(state: ExactState, n: usize)
    requires
        state.done + n <= state.len,
    ensures
        step_for(state) is Done <==> state.done == state.len,
        state.done < state.len ==> step_for(state) == ExactStep::Go(state.offset, state.done),
        ({
            let (next, step) = after_operation(state, n);
            &&& next.done == state.done + n
            &&& next.len == state.len && next.direction == state.direction
            &&& next.offset == moved_on(state.offset, n)
            &&& step is Fail <==> n == 0
            &&& n > 0 ==> (step is Done <==> next.done == state.len)
            &&& n > 0 && next.done < state.len ==> step == ExactStep::Go(next.offset, next.done)
        }),
        after_operation(state, 0).1 == ExactStep::Fail(
            if state.direction is Read {
                Error::Custom(ErrorKind::UnexpectedEof, "failed to fill whole buffer")
            } else {
                Error::Custom(ErrorKind::UnexpectedEof, "failed to write whole buffer")
            },
        ),
{
}

} // verus!
