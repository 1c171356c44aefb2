//! Paths as the kernel takes them, and reading and writing whole files.

use crate::error::{Error, ErrorKind};
use vstd::prelude::*;

verus! {

/// Bytes that end at their only NUL.
pub open spec fn is_c_path(bytes: Seq<u8>) -> bool {
    &&& bytes.len() > 0
    &&& bytes.last() == 0
    &&& forall|i: int| 0 <= i < bytes.len() - 1 ==> bytes[i] != 0
}

/// Where the first NUL is, if there is any.
pub fn first_nul(bytes: &Vec<u8>) -> (position: Option<usize>)
    ensures
        match position {
            Some(p) => p < bytes@.len() && bytes@[p as int] == 0 && forall|i: int|
                0 <= i < p ==> bytes@[i] != 0,
            None => !bytes@.contains(0),
        },
{
    let mut i: usize = 0;
    while i < bytes.len()
        invariant
            i <= bytes@.len(),
            forall|j: int| 0 <= j < i ==> bytes@[j] != 0,
        decreases bytes@.len() - i,
    {
        if bytes[i] == 0 {
            return Some(i);
        }
        i += 1;
    }
    None
}

/// Whether there is a NUL among the bytes.
pub fn has_nul(bytes: &Vec<u8>) -> (has: bool)
    ensures
        has == bytes@.contains(0),
{
    match first_nul(bytes) {
        Some(p) => {
            assert(bytes@[p as int] == 0);
            true
        },
        None => false,
    }
}

/// A path as the kernel takes it: with a NUL at its end. A path with a NUL in it is refused, with
/// the place of the first.
pub fn c_path(path: Vec<u8>) -> (r: Result<Vec<u8>, usize>)
    ensures
        match r {
            Ok(bytes) => bytes@ == path@.push(0) && is_c_path(bytes@),
            Err(p) => p < path@.len() && path@[p as int] == 0 && forall|i: int|
                0 <= i < p ==> path@[i] != 0,
        },
        r is Ok == !path@.contains(0),
{
    match first_nul(&path) {
        Some(p) => {
            assert(path@[p as int] == 0);
            Err(p)
        },
        None => {
            let ghost given = path@;
            let mut bytes = path;
            bytes.push(0);
            assert forall|i: int| 0 <= i < bytes@.len() - 1 implies bytes@[i] != 0 by {
                assert(given[i] == bytes@[i]);
            }
            Ok(bytes)
        },
    }
}

/// How an operation on the file system is carried out.
#[derive(Debug, Clone, Copy, PartialEq, Eq, Structural)]
pub enum Route {
    /// By an operation that is submitted for completion.
    Completion,
    /// By a call on the blocking thread pool.
    Pool,
    /// By a call on the spot.
    Blocking,
}

/// How an operation on a path is carried out. `driver` tells of the current driver whether it
/// supports completion.
pub fn path_route(driver: Option<bool>, offload: bool) -> (route: Route)
    ensures
        route == if driver == Some(true) {
            Route::Completion
        } else if offload {
            Route::Pool
        } else {
            Route::Blocking
        },
{
    let completion = match driver {
        Some(completion) => completion,
        None => false,
    };
    if completion {
        Route::Completion
    } else if offload {
        Route::Pool
    } else {
        Route::Blocking
    }
}

/// How a file is opened: as other operations on a path, but on the spot where there is no driver.
pub fn open_route(driver: Option<bool>, offload: bool) -> (route: Route)
    ensures
        route == match driver {
            Some(completion) => if completion {
                Route::Completion
            } else if offload {
                Route::Pool
            } else {
                Route::Blocking
            },
            None => Route::Blocking,
        },
{
    match driver {
        Some(_) => path_route(driver, offload),
        None => Route::Blocking,
    }
}

/// What reading a whole file calls for next.
#[derive(Debug, Clone, Copy, PartialEq, Eq)]
pub enum ReadAllStep {
    /// Read more.
    Read,
    /// This is all of it.
    Done,
    /// Give up.
    Fail(Error),
}

/// What a read of a chunk calls for: an empty one is the end of the file.
pub open spec fn step_after_read(chunk: Seq<u8>) -> ReadAllStep {
    if chunk.len() == 0 {
        ReadAllStep::Done
    } else {
        ReadAllStep::Read
    }
}

/// The contents of a file as far as they were read.
pub struct ReadAll {
    pub bytes: Vec<u8>,
}

impl ReadAll {
    /// Nothing was read.
    pub fn new() -> (r: Self)
        ensures
            r.bytes@.len() == 0,
    {
        ReadAll { bytes: Vec::new() }
    }

    /// Goes on after a read: an empty one is the end of the file.
    pub fn on_read(&mut self, read: Result<Vec<u8>, Error>) -> (step: ReadAllStep)
        ensures
            match read {
                Err(error) => step == ReadAllStep::Fail(error) && final(self).bytes@ == old(
                    self,
                ).bytes@,
                Ok(chunk) => {
                    &&& final(self).bytes@ == old(self).bytes@ + chunk@
                    &&& step == step_after_read(chunk@)
                    &&& step is Done <==> chunk@.len() == 0
                    &&& step is Read <==> chunk@.len() > 0
                },
            },
    {
        match read {
            Err(error) => ReadAllStep::Fail(error),
            Ok(chunk) => {
                let mut chunk = chunk;
                if chunk.len() == 0 {
                    assert(self.bytes@ =~= old(self).bytes@ + chunk@);
                    return ReadAllStep::Done;
                }
                self.bytes.append(&mut chunk);
                ReadAllStep::Read
            },
        }
    }
}

/// What writing a whole file calls for next.
#[derive(Debug, Clone, Copy, PartialEq, Eq)]
pub enum WriteAllStep {
    /// Write what is left.
    Write,
    /// Flush the file.
    Flush,
    /// Give up.
    Fail(Error),
}

/// The first step of writing a whole file.
pub open spec fn first_write_step(contents: Seq<u8>) -> WriteAllStep {
    if contents.len() > 0 {
        WriteAllStep::Write
    } else {
        WriteAllStep::Flush
    }
}

/// What a write that took `n` of the bytes left calls for: one that took nothing is an error.
pub open spec fn step_after_write(rest: Seq<u8>, n: usize) -> WriteAllStep {
    if n == 0 {
        WriteAllStep::Fail(Error::Custom(ErrorKind::WriteZero, "failed to write whole buffer"))
    } else if n < rest.len() {
        WriteAllStep::Write
    } else {
        WriteAllStep::Flush
    }
}

/// The contents of a file as far as they are still to be written.
pub struct WriteAll {
    pub rest: Vec<u8>,
}

impl WriteAll {
    /// Nothing was written.
    pub fn new(contents: Vec<u8>) -> (r: (Self, WriteAllStep))
        ensures
            r.0.rest == contents,
            r.1 == first_write_step(contents@),
            r.1 is Flush <==> contents@.len() == 0,
            r.1 is Write <==> contents@.len() > 0,
    {
        let step = if contents.len() > 0 {
            WriteAllStep::Write
        } else {
            WriteAllStep::Flush
        };
        (WriteAll { rest: contents }, step)
    }

    /// Goes on after a write: one that took nothing is an error.
    pub fn on_write(&mut self, written: Result<usize, Error>) -> (step: WriteAllStep)
        requires
            written matches Ok(n) ==> n <= old(self).rest@.len(),
        ensures
            match written {
                Err(error) => step == WriteAllStep::Fail(error) && final(self).rest@ == old(
                    self,
                ).rest@,
                Ok(n) => {
                    &&& final(self).rest@ == old(self).rest@.skip(n as int)
                    &&& step == step_after_write(old(self).rest@, n)
                    &&& step is Fail <==> n == 0
                    &&& step is Flush <==> n > 0 && final(self).rest@.len() == 0
                    &&& step is Write <==> n > 0 && final(self).rest@.len() > 0
                },
            },
    {
        match written {
            Err(error) => WriteAllStep::Fail(error),
            Ok(n) => {
                if n == 0 {
                    assert(self.rest@.skip(0) =~= self.rest@);
                    return WriteAllStep::Fail(
                        Error::Custom(ErrorKind::WriteZero, "failed to write whole buffer"),
                    );
                }
                let rest = self.rest.split_off(n);
                self.rest = rest;
                if self.rest.len() > 0 {
                    WriteAllStep::Write
                } else {
                    WriteAllStep::Flush
                }
            },
        }
    }
}

/// What is left to write of the contents after writes that took so many bytes each.
pub open spec fn left_after(contents: Seq<u8>, writes: Seq<usize>) -> Seq<u8>
    decreases writes.len(),
{
    if writes.len() == 0 {
        contents
    } else {
        left_after(contents, writes.drop_last()).skip(writes.last() as int)
    }
}

/// What a file that was empty holds after the writes: what each took of the bytes then left, one
/// after the other.
pub open spec fn stored_by(contents: Seq<u8>, writes: Seq<usize>) -> Seq<u8>
    decreases writes.len(),
{
    if writes.len() == 0 {
        Seq::empty()
    } else {
        stored_by(contents, writes.drop_last()) + left_after(contents, writes.drop_last()).take(
            writes.last() as int,
        )
    }
}

/// What is called for after the writes.
pub open spec fn step_after_writes(contents: Seq<u8>, writes: Seq<usize>) -> WriteAllStep {
    if writes.len() == 0 {
        first_write_step(contents)
    } else {
        step_after_write(left_after(contents, writes.drop_last()), writes.last())
    }
}

/// Each write was called for, and took no more than was left.
pub open spec fn are_writes_of(contents: Seq<u8>, writes: Seq<usize>) -> bool
    decreases writes.len(),
{
    writes.len() > 0 ==> {
        &&& are_writes_of(contents, writes.drop_last())
        &&& step_after_writes(contents, writes.drop_last()) is Write
        &&& writes.last() <= left_after(contents, writes.drop_last()).len()
    }
}

/// The bytes of the chunks, one after the other.
pub open spec fn gathered(chunks: Seq<Seq<u8>>) -> Seq<u8>
    decreases chunks.len(),
{
    if chunks.len() == 0 {
        Seq::empty()
    } else {
        gathered(chunks.drop_last()) + chunks.last()
    }
}

/// The chunks are what reading a file from its start gives, read after read: each what comes next
/// in the file, and empty only at its end.
pub open spec fn are_reads_of(file: Seq<u8>, chunks: Seq<Seq<u8>>) -> bool
    decreases chunks.len(),
{
    chunks.len() > 0 ==> {
        let from = gathered(chunks.drop_last()).len() as int;
        &&& are_reads_of(file, chunks.drop_last())
        &&& from + chunks.last().len() <= file.len()
        &&& chunks.last() == file.subrange(from, from + chunks.last().len())
        &&& chunks.last().len() == 0 ==> from == file.len()
    }
}

proof fn lemma_nothing_is_lost(contents: Seq<u8>, writes: Seq<usize>)
    requires
        are_writes_of(contents, writes),
    ensures
        stored_by(contents, writes) + left_after(contents, writes) == contents,
    decreases writes.len(),
{
    if writes.len() > 0 {
        lemma_nothing_is_lost(contents, writes.drop_last());
        let rest = left_after(contents, writes.drop_last());
        let n = writes.last() as int;
        assert(stored_by(contents, writes) + left_after(contents, writes) =~= stored_by(
            contents,
            writes.drop_last(),
        ) + (rest.take(n) + rest.skip(n)));
        assert(rest.take(n) + rest.skip(n) =~= rest);
    } else {
        assert(stored_by(contents, writes) + left_after(contents, writes) =~= contents);
    }
}

proof fn lemma_reads_follow_the_file(file: Seq<u8>, chunks: Seq<Seq<u8>>)
    requires
        are_reads_of(file, chunks),
    ensures
        gathered(chunks).len() <= file.len(),
        gathered(chunks) == file.take(gathered(chunks).len() as int),
    decreases chunks.len(),
{
    if chunks.len() > 0 {
        lemma_reads_follow_the_file(file, chunks.drop_last());
    }
    assert(gathered(chunks) =~= file.take(gathered(chunks).len() as int));
}

/// The flush that ends the writing of a whole file is called for once the file holds all of the
/// contents in order, and writes that each take something lead there.
pub proof fn law_a_file_is_written_whole(contents: Seq<u8>, writes: Seq<usize>)
    requires
        are_writes_of(contents, writes),
    ensures
        step_after_writes(contents, writes) is Flush ==> stored_by(contents, writes) == contents,
        step_after_writes(contents, writes) is Write ==> left_after(contents, writes).len() > 0,
        (forall|i: int| 0 <= i < writes.len() ==> #[trigger] writes[i] > 0)
            ==> !(step_after_writes(contents, writes) is Fail) && writes.len() <= contents.len(),
{
    lemma_nothing_is_lost(contents, writes);
    if step_after_writes(contents, writes) is Flush {
        assert(stored_by(contents, writes) + left_after(contents, writes) =~= stored_by(
            contents,
            writes,
        ));
    }
    if forall|i: int| 0 <= i < writes.len() ==> #[trigger] writes[i] > 0 {
        lemma_writes_shorten(contents, writes);
    }
}

proof fn lemma_writes_shorten(contents: Seq<u8>, writes: Seq<usize>)
    requires
        are_writes_of(contents, writes),
        forall|i: int| 0 <= i < writes.len() ==> #[trigger] writes[i] > 0,
    ensures
        writes.len() + left_after(contents, writes).len() <= contents.len(),
    decreases writes.len(),
{
    if writes.len() > 0 {
        assert forall|i: int| 0 <= i < writes.drop_last().len() implies #[trigger] writes.drop_last()[i]
            > 0 by {
            assert(writes[i] > 0);
        }
        lemma_writes_shorten(contents, writes.drop_last());
        assert(writes[writes.len() - 1] > 0);
    }
}

/// Reading a whole file gives all of its bytes in order.
pub proof fn law_a_file_is_read_whole(file: Seq<u8>, chunks: Seq<Seq<u8>>)
    requires
        are_reads_of(file, chunks),
        chunks.len() > 0,
        step_after_read(chunks.last()) is Done,
    ensures
        gathered(chunks) == file,
{
    lemma_reads_follow_the_file(file, chunks.drop_last());
    assert(gathered(chunks) =~= file);
}

/// A file that was written whole and not touched since reads back as the same bytes, however many
/// writes and reads that took.
pub proof fn law_what_is_written_is_read_back(
    contents: Seq<u8>,
    writes: Seq<usize>,
    chunks: Seq<Seq<u8>>,
)
    requires
        are_writes_of(contents, writes),
        step_after_writes(contents, writes) is Flush,
        are_reads_of(stored_by(contents, writes), chunks),
        chunks.len() > 0,
        step_after_read(chunks.last()) is Done,
    ensures
        gathered(chunks) == contents,
{
    law_a_file_is_written_whole(contents, writes);
    law_a_file_is_read_whole(stored_by(contents, writes), chunks);
}

/// Reading goes on as long as a read brings something, and ends with the first that does not.
pub proof fn law_reading_ends_at_the_end(chunk: Seq<u8>)
    ensures
        step_after_read(chunk) is Done <==> chunk.len() == 0,
        step_after_read(chunk) is Read <==> chunk.len() > 0,
{
}

/// Writing goes on as long as something is left, and fails only where a write took nothing.
pub proof fn law_writing_ends_with_the_contents(rest: Seq<u8>, n: usize)
    requires
        n <= rest.len(),
    ensures
        first_write_step(rest) is Flush <==> rest.len() == 0,
        first_write_step(rest) is Write <==> rest.len() > 0,
        n > 0 ==> step_after_write(rest, n) == first_write_step(rest.skip(n as int)),
        step_after_write(rest, 0) == WriteAllStep::Fail(
            Error::Custom(ErrorKind::WriteZero, "failed to write whole buffer"),
        ),
{
}

/// A path is one that the kernel takes where its only NUL is the one at its end.
pub proof fn law_a_path_ends_at_its_nul(path: Seq<u8>)
    ensures
        is_c_path(path.push(0)) <==> !path.contains(0),
        is_c_path(path) ==> path.len() > 0 && path[path.len() - 1] == 0,
{
    let bytes = path.push(0);
    if is_c_path(bytes) && path.contains(0) {
        let i = choose|i: int| 0 <= i < path.len() && path[i] == 0;
        assert(bytes[i] == 0);
    }
    if !path.contains(0) {
        assert forall|i: int| 0 <= i < bytes.len() - 1 implies bytes[i] != 0 by {
            assert(path[i] == bytes[i]);
        }
    }
}

} // verus!
