//! Copying all that a reader gives to a writer.

use crate::error::{Error, ErrorKind};
use crate::io::buf::{IoBuf, IoBufWithCursor};
use vstd::prelude::*;

verus! {

/// What a copy calls for next.
#[derive(Debug, Clone, Copy, PartialEq, Eq)]
pub enum CopyStep {
    /// Read more.
    Read,
    /// Write what was read and is not written yet.
    Write,
    /// Flush the writer.
    Flush,
    /// So many bytes were copied.
    Done(u64),
    /// Give up.
    Fail(Error),
}

/// A copy under way.
pub struct Copy {
    copied: u64,
    chunk: Option<IoBufWithCursor<Vec<u8>>>,
}

/// The sum of two counts, as far as it can be counted.
pub open spec fn saturating(a: nat, b: nat) -> nat {
    if a + b <= u64::MAX {
        a + b
    } else {
        u64::MAX as nat
    }
}

/// How far a copy has come.
pub struct CopyState {
    /// How many bytes were copied, those of the last chunk not counted before all of it is
    /// written.
    pub copied: u64,
    /// The last chunk that was read, unless all of it is written.
    pub chunk: Option<Seq<u8>>,
    /// How much of the last chunk is written.
    pub written: int,
}

/// A copy that has not begun.
pub open spec fn not_begun() -> CopyState {
    CopyState { copied: 0, chunk: None, written: 0 }
}

/// What of the last chunk is still to be written.
pub open spec fn unwritten_in(state: CopyState) -> Seq<u8> {
    match state.chunk {
        Some(chunk) => chunk.skip(state.written),
        None => Seq::empty(),
    }
}

/// How a copy goes on after a read: the end of the input has the writer flushed.
pub open spec fn after_read(state: CopyState, bytes: Seq<u8>) -> (CopyState, CopyStep) {
    if bytes.len() == 0 {
        (state, CopyStep::Flush)
    } else {
        (CopyState { chunk: Some(bytes), written: 0, ..state }, CopyStep::Write)
    }
}

/// How a copy goes on after a write: a writer that takes nothing is an error, and once the chunk
/// is written its bytes count and more is read.
pub open spec fn after_write(state: CopyState, n: usize) -> (CopyState, CopyStep) {
    if n == 0 {
        (
            state,
            CopyStep::Fail(Error::Custom(ErrorKind::WriteZero, "failed to write whole buffer")),
        )
    } else if n < unwritten_in(state).len() {
        (CopyState { written: state.written + n, ..state }, CopyStep::Write)
    } else {
        (
            CopyState {
                copied: saturating(state.copied as nat, state.chunk->0.len()) as u64,
                chunk: None,
                written: 0,
            },
            CopyStep::Read,
        )
    }
}

impl Copy {
    /// How far the copy has come.
    pub open spec fn view(&self) -> CopyState {
        CopyState { copied: self.copied(), chunk: self.chunk(), written: self.written() }
    }

    /// How many bytes were copied, those of the last chunk not counted before all of it is
    /// written.
    pub closed spec fn copied(&self) -> u64 {
        self.copied
    }

    /// The last chunk that was read, unless all of it is written.
    pub closed spec fn chunk(&self) -> Option<Seq<u8>> {
        match self.chunk {
            Some(chunk) => Some(chunk.inner()@),
            None => None,
        }
    }

    /// How much of the last chunk is written.
    pub closed spec fn written(&self) -> int {
        match self.chunk {
            Some(chunk) => chunk.position() as int,
            None => 0,
        }
    }

    /// What of the last chunk is still to be written.
    pub open spec fn unwritten(&self) -> Seq<u8> {
        unwritten_in(self@)
    }

    pub closed spec fn wf(&self) -> bool {
        match self.chunk {
            Some(chunk) => chunk.position() < chunk.inner()@.len(),
            None => true,
        }
    }

    /// A copy that has not begun.
    pub fn new() -> (r: (Self, CopyStep))
        ensures
            r.0.wf(),
            r.0@ == not_begun(),
            r.1 == CopyStep::Read,
    {
        (Copy { copied: 0, chunk: None }, CopyStep::Read)
    }

    /// The bytes to write, which start at the given position of the chunk.
    pub fn to_write(&self) -> (r: (&[u8], usize))
        requires
            self.wf(),
            self.chunk() is Some,
        ensures
            self.chunk() == Some(r.0@),
            r.1 == self.written(),
            r.0@.skip(r.1 as int) == self.unwritten(),
    {
        match &self.chunk {
            Some(chunk) => {
                let left: usize = chunk.remaining();
                let slice = chunk.whole();
                (slice, slice.len() - left)
            },
            None => (&[], 0),
        }
    }

    /// Goes on after a read: the end of the input has the writer flushed.
    pub fn on_read(&mut self, read: Result<Vec<u8>, Error>) -> (step: CopyStep)
        requires
            old(self).wf(),
            old(self).chunk() is None,
        ensures
            final(self).wf(),
            match read {
                Err(error) => step == CopyStep::Fail(error) && final(self)@ == old(self)@,
                Ok(bytes) => (final(self)@, step) == after_read(old(self)@, bytes@),
            },
            read matches Ok(bytes) ==> {
                &&& step is Flush <==> bytes@.len() == 0
                &&& step is Write <==> bytes@.len() > 0
                &&& final(self).copied() == old(self).copied()
                &&& bytes@.len() > 0 ==> final(self).unwritten() == bytes@
            },
    {
        match read {
            Err(error) => CopyStep::Fail(error),
            Ok(bytes) => {
                if bytes.len() == 0 {
                    return CopyStep::Flush;
                }
                let ghost given = bytes@;
                self.chunk = Some(IoBufWithCursor::new(bytes));
                assert(given.skip(0) =~= given);
                CopyStep::Write
            },
        }
    }

    /// Goes on after a write: a writer that takes nothing is an error, and once the chunk is
    /// written its bytes count and more is read.
    pub fn on_write(&mut self, written: Result<usize, Error>) -> (step: CopyStep)
        requires
            old(self).wf(),
            old(self).chunk() is Some,
            written matches Ok(n) ==> n <= old(self).unwritten().len(),
        ensures
            final(self).wf(),
            match written {
                Err(error) => step == CopyStep::Fail(error) && final(self)@ == old(self)@,
                Ok(n) => (final(self)@, step) == after_write(old(self)@, n),
            },
            written matches Ok(n) ==> {
                &&& step is Fail <==> n == 0
                &&& step is Read <==> n > 0 && n == old(self).unwritten().len()
                &&& step is Read ==> final(self).copied() == if old(self).copied() + old(
                    self,
                ).chunk()->0.len() <= u64::MAX {
                    old(self).copied() + old(self).chunk()->0.len()
                } else {
                    u64::MAX as int
                }
                &&& step is Write ==> final(self).unwritten() == old(self).unwritten().skip(
                    n as int,
                ) && final(self).copied() == old(self).copied()
            },
    {
        let n: usize = match written {
            Err(error) => {
                return CopyStep::Fail(error);
            },
            Ok(n) => n,
        };
        if n == 0 {
            return CopyStep::Fail(
                Error::Custom(ErrorKind::WriteZero, "failed to write whole buffer"),
            );
        }
        match self.chunk.take() {
            Some(mut chunk) => {
                assert(chunk.inner()@.len() == chunk.inner().len());
                chunk.advance(n);
                let left: usize = chunk.remaining();
                if left > 0 {
                    self.chunk = Some(chunk);
                    assert(self.unwritten() =~= old(self).unwritten().skip(n as int));
                    CopyStep::Write
                } else {
                    let read: usize = chunk.into_inner().len();
                    self.copied = self.copied.saturating_add(read as u64);
                    CopyStep::Read
                }
            },
            None => CopyStep::Read,
        }
    }

    /// Ends the copy after the writer was flushed.
    pub fn on_flush(&self, flushed: Result<(), Error>) -> (step: CopyStep)
        ensures
            step == match flushed {
                Ok(()) => CopyStep::Done(self.copied()),
                Err(error) => CopyStep::Fail(error),
            },
    {
        match flushed {
            Ok(()) => CopyStep::Done(self.copied),
            Err(error) => CopyStep::Fail(error),
        }
    }
}

/// The outcome of copying in both directions: the first error, or both counts.
pub fn copy_bidirectional(forth: Result<u64, Error>, back: Result<u64, Error>) -> (r: Result<
    (u64, u64),
    Error,
>)
    ensures
        r == match (forth, back) {
            (Ok(n1), Ok(n2)) => Ok::<(u64, u64), Error>((n1, n2)),
            (Err(error), _) => Err(error),
            (Ok(_), Err(error)) => Err(error),
        },
{
    match forth {
        Err(error) => Err(error),
        Ok(n1) => match back {
            Err(error) => Err(error),
            Ok(n2) => Ok((n1, n2)),
        },
    }
}

/// What came of a step of a copy.
pub enum CopyEvent {
    /// A read gave these bytes.
    Read(Seq<u8>),
    /// A write took so many.
    Wrote(usize),
}

/// How far a copy has come after the events, and what it calls for.
pub open spec fn after_copy_events(events: Seq<CopyEvent>) -> (CopyState, CopyStep)
    decreases events.len(),
{
    if events.len() == 0 {
        (not_begun(), CopyStep::Read)
    } else {
        let before = after_copy_events(events.drop_last()).0;
        match events.last() {
            CopyEvent::Read(bytes) => after_read(before, bytes),
            CopyEvent::Wrote(n) => after_write(before, n),
        }
    }
}

/// Each event is one that was called for, and no write took more than there was to write.
pub open spec fn are_events_of_a_copy(events: Seq<CopyEvent>) -> bool
    decreases events.len(),
{
    events.len() > 0 ==> {
        let (before, step) = after_copy_events(events.drop_last());
        &&& are_events_of_a_copy(events.drop_last())
        &&& match events.last() {
            CopyEvent::Read(_) => step is Read,
            CopyEvent::Wrote(n) => step is Write && n <= unwritten_in(before).len(),
        }
    }
}

/// All the bytes that were read, in order.
pub open spec fn bytes_read(events: Seq<CopyEvent>) -> Seq<u8>
    decreases events.len(),
{
    if events.len() == 0 {
        Seq::empty()
    } else {
        match events.last() {
            CopyEvent::Read(bytes) => bytes_read(events.drop_last()) + bytes,
            CopyEvent::Wrote(_) => bytes_read(events.drop_last()),
        }
    }
}

/// All the bytes that were written, in order.
pub open spec fn bytes_written(events: Seq<CopyEvent>) -> Seq<u8>
    decreases events.len(),
{
    if events.len() == 0 {
        Seq::empty()
    } else {
        let before = after_copy_events(events.drop_last()).0;
        match events.last() {
            CopyEvent::Read(_) => bytes_written(events.drop_last()),
            CopyEvent::Wrote(n) => bytes_written(events.drop_last()) + unwritten_in(before).take(
                n as int,
            ),
        }
    }
}

/// At each point of a copy the bytes written are those read but for the rest of the last chunk,
/// and the count is of the whole chunks written, as far as it can be counted.
pub proof fn law_a_copy_loses_nothing(events: Seq<CopyEvent>)
    requires
        are_events_of_a_copy(events),
    ensures
        ({
            let (state, step) = after_copy_events(events);
            &&& bytes_read(events) == bytes_written(events) + unwritten_in(state)
            &&& state.copied == saturating(
                0,
                (bytes_written(events).len() - state.written) as nat,
            )
            &&& 0 <= state.written <= bytes_written(events).len()
            &&& step is Write ==> state.chunk is Some && state.written < state.chunk->0.len()
            &&& step is Read || step is Flush ==> state.chunk is None && state.written == 0
        }),
    decreases events.len(),
{
    let (state, step) = after_copy_events(events);
    if events.len() == 0 {
        assert(bytes_read(events) =~= bytes_written(events) + unwritten_in(state));
    } else {
        law_a_copy_loses_nothing(events.drop_last());
        let before = after_copy_events(events.drop_last()).0;
        let out = bytes_written(events.drop_last());
        match events.last() {
            CopyEvent::Read(bytes) => {
                assert(out + unwritten_in(before) =~= out);
                if bytes.len() > 0 {
                    assert(unwritten_in(state) =~= bytes);
                }
                assert(bytes_read(events) =~= bytes_written(events) + unwritten_in(state));
            },
            CopyEvent::Wrote(n) => {
                let rest = unwritten_in(before);
                if n == 0 {
                    assert(rest.take(0) =~= Seq::empty());
                } else if n < rest.len() {
                    assert(unwritten_in(state) =~= rest.skip(n as int));
                } else {
                    assert(rest.take(n as int) =~= rest);
                }
                assert(bytes_read(events) =~= bytes_written(events) + unwritten_in(state));
            },
        }
    }
}

/// The writer is flushed once, at the end of the input, when all that was read is written in
/// order; the copy then tells how many bytes that were, as far as they can be counted.
pub proof fn law_a_copy_moves_everything(events: Seq<CopyEvent>)
    requires
        are_events_of_a_copy(events),
        after_copy_events(events).1 is Flush,
    ensures
        bytes_written(events) == bytes_read(events),
        after_copy_events(events).0.copied == saturating(0, bytes_read(events).len()),
        events.last() == CopyEvent::Read(Seq::empty()),
        forall|i: int|
            0 <= i < events.len() ==> !((#[trigger] after_copy_events(events.take(i))).1 is Flush),
{
    law_a_copy_loses_nothing(events);
    assert(bytes_written(events) + unwritten_in(after_copy_events(events).0) =~= bytes_written(
        events,
    ));
    match events.last() {
        CopyEvent::Read(bytes) => {
            assert(bytes =~= Seq::empty());
        },
        CopyEvent::Wrote(_) => {},
    }
    assert forall|i: int| 0 <= i < events.len() implies !((#[trigger] after_copy_events(
        events.take(i),
    )).1 is Flush) by {
        lemma_events_are_called_for(events, i);
    }
}

proof fn lemma_events_are_called_for(events: Seq<CopyEvent>, i: int)
    requires
        are_events_of_a_copy(events),
        0 <= i < events.len(),
    ensures
        after_copy_events(events.take(i)).1 is Read || after_copy_events(events.take(i)).1 is Write,
    decreases events.len(),
{
    if i == events.len() - 1 {
        assert(events.take(i) =~= events.drop_last());
    } else {
        lemma_events_are_called_for(events.drop_last(), i);
        assert(events.take(i) =~= events.drop_last().take(i));
    }
}

/// Counts add up as far as they can be counted, and stay at the last count from there on.
pub proof fn law_counts_add_up(a: nat, b: nat)
    ensures
        a + b <= u64::MAX ==> saturating(a, b) == a + b,
        a + b > u64::MAX ==> saturating(a, b) == u64::MAX,
{
}

/// Reading goes on to the writing of what was read, and ends with the first read that gives nothing.
/// Writing fails only where a write took nothing, and its bytes count once all of the chunk is
/// written.
pub proof fn law_a_copy_writes_all_it_reads(state: CopyState, bytes: Seq<u8>, n: usize)
    requires
        state.chunk is Some,
        0 <= state.written < state.chunk->0.len(),
        n <= state.chunk->0.len() - state.written,
    ensures
        after_read(state, bytes).1 is Flush <==> bytes.len() == 0,
        after_read(state, bytes).1 is Write <==> bytes.len() > 0,
        bytes.len() > 0 ==> unwritten_in(after_read(state, bytes).0) == bytes,
        after_read(state, bytes).0.copied == state.copied,
        after_write(state, n).1 is Fail <==> n == 0,
        after_write(state, 0).1 == CopyStep::Fail(
            Error::Custom(ErrorKind::WriteZero, "failed to write whole buffer"),
        ),
        after_write(state, n).1 is Read <==> n > 0 && state.written + n == state.chunk->0.len(),
        after_write(state, n).1 is Read ==> {
            &&& state.copied + state.chunk->0.len() <= u64::MAX ==> after_write(state, n).0.copied
                == state.copied + state.chunk->0.len()
            &&& state.copied + state.chunk->0.len() > u64::MAX ==> after_write(state, n).0.copied
                == u64::MAX
        },
        after_write(state, n).1 is Write ==> {
            &&& after_write(state, n).0.copied == state.copied
            &&& unwritten_in(after_write(state, n).0) == unwritten_in(state).skip(n as int)
        },
        not_begun().copied == 0 && unwritten_in(not_begun()).len() == 0,
{
    if bytes.len() > 0 {
        assert(unwritten_in(after_read(state, bytes).0) =~= bytes);
    }
    if 0 < n < unwritten_in(state).len() {
        assert(unwritten_in(after_write(state, n).0) =~= unwritten_in(state).skip(n as int));
    }
}

} // verus!
