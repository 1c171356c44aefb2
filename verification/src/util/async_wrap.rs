//! An adapter that reads through a buffer, writes all it is given, and does one thing at a time.

use crate::error::{Error, ErrorKind};
use vstd::prelude::*;

verus! {

/// How many bytes a read asks for.
pub const BUFFER_SIZE: usize = 4096;

/// What a wrapper is busy with, its inner value being lent out.
pub enum Busy {
    /// A read.
    Read,
    /// A write of these bytes, after so many others of the same request.
    Write(Vec<u8>, usize),
    /// A flush.
    Flush,
}

/// An adapter around an inner value that reads and writes.
pub struct AsyncWrap<T> {
    inner: Option<T>,
    read_buf: Option<(Vec<u8>, usize)>,
    busy: Option<Busy>,
}

/// What a request to read calls for.
pub enum ReadStep<T> {
    /// These bytes are there.
    Filled(Vec<u8>),
    /// Read into a fresh buffer with the inner value.
    Start(T),
    /// A read is under way.
    Resume,
    /// The request is refused.
    Refused(Error),
}

/// What a request to write or to flush calls for.
pub enum WriteStep<T> {
    /// So many bytes are written, or the flush is done.
    Done(usize),
    /// Write what is left, or flush, with the inner value.
    Start(T),
    /// The write or the flush is under way.
    Resume,
    /// The request is refused.
    Refused(Error),
}

/// The error for a request while the inner value is lent out.
pub open spec fn in_progress() -> Error {
    Error::Custom(ErrorKind::Other, "another operation is already in progress")
}

fn in_progress_error() -> (error: Error)
    ensures
        error == in_progress(),
{
    Error::Custom(ErrorKind::Other, "another operation is already in progress")
}

/// The first `n` bytes, or all where there are fewer, and the rest.
fn split_bytes(bytes: &Vec<u8>, from: usize, n: usize) -> (taken: Vec<u8>)
    requires
        from <= bytes@.len(),
    ensures
        taken@ == bytes@.skip(from as int).take(
            if n <= bytes@.len() - from {
                n as int
            } else {
                bytes@.len() - from
            },
        ),
{
    let left: usize = bytes.len() - from;
    let len: usize = if n <= left {
        n
    } else {
        left
    };
    let mut taken: Vec<u8> = Vec::new();
    let mut i: usize = 0;
    while i < len
        invariant
            i <= len,
            from + len <= bytes.len(),
            taken@ == bytes@.skip(from as int).take(i as int),
        decreases len - i,
    {
        taken.push(bytes[from + i]);
        assert(taken@ =~= bytes@.skip(from as int).take(i + 1));
        i += 1;
    }
    taken
}

impl<T> AsyncWrap<T> {
    /// The inner value, unless it is lent out.
    pub closed spec fn inner(&self) -> Option<T> {
        self.inner
    }

    /// The bytes that were read and not handed out yet.
    pub closed spec fn unread(&self) -> Seq<u8> {
        match self.read_buf {
            Some((buf, advanced)) => buf@.skip(advanced as int),
            None => Seq::empty(),
        }
    }

    /// What the wrapper is busy with.
    pub closed spec fn busy(&self) -> Option<Busy> {
        self.busy
    }

    /// The inner value is lent out exactly while the wrapper is busy, and a buffer is kept only
    /// while bytes of it are left.
    pub closed spec fn wf(&self) -> bool {
        &&& self.inner is None <==> self.busy is Some
        &&& self.read_buf matches Some((buf, advanced)) ==> advanced < buf@.len()
        &&& self.busy matches Some(Busy::Write(rest, written)) ==> rest@.len() + written
            <= usize::MAX
    }

    /// A wrapper around `inner`.
    pub fn new(inner: T) -> (wrap: Self)
        ensures
            wrap.wf(),
            wrap.inner() == Some(inner),
            wrap.unread().len() == 0,
            wrap.busy() is None,
    {
        AsyncWrap { inner: Some(inner), read_buf: None, busy: None }
    }

    /// Starts to read up to `room` bytes. Bytes that are left from an earlier read come first, and
    /// only where there are none is the inner value asked.
    pub fn poll_read(&mut self, room: usize) -> (step: ReadStep<T>)
        requires
            old(self).wf(),
        ensures
            final(self).wf(),
            ({
                let unread = old(self).unread();
                if room == 0 {
                    &&& step matches ReadStep::Filled(bytes) && bytes@.len() == 0
                    &&& *final(self) == *old(self)
                } else if old(self).busy() matches Some(Busy::Read) {
                    &&& step is Resume
                    &&& *final(self) == *old(self)
                } else if unread.len() > 0 {
                    &&& step matches ReadStep::Filled(bytes) && bytes@ + final(self).unread()
                        == unread && bytes@.len() == if room as int <= unread.len() {
                        room as int
                    } else {
                        unread.len() as int
                    }
                    &&& final(self).inner() == old(self).inner()
                    &&& final(self).busy() == old(self).busy()
                } else if old(self).inner() is None {
                    &&& step == ReadStep::<T>::Refused(in_progress())
                    &&& *final(self) == *old(self)
                } else {
                    &&& step == ReadStep::<T>::Start(old(self).inner()->0)
                    &&& final(self).inner() is None
                    &&& final(self).busy() == Some(Busy::Read)
                    &&& final(self).unread().len() == 0
                }
            }),
    {
        if room == 0 {
            return ReadStep::Filled(Vec::new());
        }
        let reading = match &self.busy {
            Some(Busy::Read) => true,
            _ => false,
        };
        if reading {
            return ReadStep::Resume;
        }
        match self.read_buf.take() {
            Some((buf, advanced)) => {
                let bytes = split_bytes(&buf, advanced, room);
                assert(buf@.len() == buf.len());
                let next: usize = advanced + bytes.len();
                if next < buf.len() {
                    self.read_buf = Some((buf, next));
                }
                assert(bytes@ + self.unread() =~= old(self).unread());
                ReadStep::Filled(bytes)
            },
            None => match self.inner.take() {
                Some(inner) => {
                    self.busy = Some(Busy::Read);
                    ReadStep::Start(inner)
                },
                None => ReadStep::Refused(in_progress_error()),
            },
        }
    }

    /// Ends a read: as much as there is room for is handed out, and the rest is kept.
    pub fn finish_read(&mut self, inner: T, result: Result<Vec<u8>, Error>, room: usize) -> (r:
        Result<Vec<u8>, Error>)
        requires
            old(self).wf(),
            old(self).busy() == Some(Busy::Read),
            old(self).unread().len() == 0,
        ensures
            final(self).wf(),
            final(self).inner() == Some(inner),
            final(self).busy() is None,
            match result {
                Ok(read) => r matches Ok(bytes) && {
                    &&& bytes@ + final(self).unread() == read@
                    &&& bytes@.len() == if room as int <= read@.len() {
                        room as int
                    } else {
                        read@.len() as int
                    }
                },
                Err(error) => r == Err::<Vec<u8>, Error>(error) && final(self).unread().len() == 0,
            },
    {
        self.busy = None;
        self.inner = Some(inner);
        match result {
            Ok(read) => {
                let bytes = split_bytes(&read, 0, room);
                let len: usize = bytes.len();
                if len < read.len() {
                    self.read_buf = Some((read, len));
                } else {
                    self.read_buf = None;
                }
                assert(bytes@ + self.unread() =~= read@);
                Ok(bytes)
            },
            Err(error) => Err(error),
        }
    }

    /// Starts to write all of `bytes`.
    pub fn poll_write(&mut self, bytes: Vec<u8>) -> (step: WriteStep<T>)
        requires
            old(self).wf(),
        ensures
            final(self).wf(),
            final(self).unread() == old(self).unread(),
            if bytes@.len() == 0 {
                &&& step == WriteStep::<T>::Done(0)
                &&& *final(self) == *old(self)
            } else if old(self).busy() matches Some(Busy::Write(_, _)) {
                &&& step is Resume
                &&& *final(self) == *old(self)
            } else if old(self).inner() is None {
                &&& step == WriteStep::<T>::Refused(in_progress())
                &&& *final(self) == *old(self)
            } else {
                &&& step == WriteStep::<T>::Start(old(self).inner()->0)
                &&& final(self).inner() is None
                &&& final(self).busy() == Some(Busy::Write(bytes, 0))
            },
    {
        if bytes.len() == 0 {
            return WriteStep::Done(0);
        }
        let writing = match &self.busy {
            Some(Busy::Write(_, _)) => true,
            _ => false,
        };
        if writing {
            return WriteStep::Resume;
        }
        match self.inner.take() {
            Some(inner) => {
                assert(bytes@.len() == bytes.len());
                self.busy = Some(Busy::Write(bytes, 0));
                WriteStep::Start(inner)
            },
            None => WriteStep::Refused(in_progress_error()),
        }
    }

    /// Takes the bytes that a write is to go on with, for the inner value to write.
    pub fn take_rest(&mut self) -> (rest: Vec<u8>)
        requires
            old(self).wf(),
            old(self).busy() is Some,
            old(self).busy()->0 is Write,
        ensures
            final(self).wf(),
            rest == old(self).busy()->0->Write_0,
            final(self).inner() == old(self).inner(),
            final(self).unread() == old(self).unread(),
            final(self).busy() matches Some(Busy::Write(left, written)) && left@.len() == 0
                && written == old(self).busy()->0->Write_1,
    {
        let mut rest: Vec<u8> = Vec::new();
        match &mut self.busy {
            Some(Busy::Write(left, _)) => {
                std::mem::swap(left, &mut rest);
            },
            _ => {},
        }
        rest
    }

    /// Goes on with a write after the inner value took some of `rest`: what it left is written
    /// next, until nothing is left.
    pub fn on_written(&mut self, inner: T, rest: Vec<u8>, result: Result<usize, Error>) -> (r:
        Result<WriteStep<T>, Error>)
        requires
            old(self).wf(),
            old(self).busy() is Some,
            old(self).busy()->0 is Write,
            old(self).busy()->0->Write_1 + rest@.len() <= usize::MAX,
            result matches Ok(n) ==> n <= rest@.len(),
        ensures
            final(self).wf(),
            final(self).unread() == old(self).unread(),
            match result {
                Err(error) => {
                    &&& r == Err::<WriteStep<T>, Error>(error)
                    &&& final(self).inner() == Some(inner)
                    &&& final(self).busy() is None
                },
                Ok(n) => {
                    let written = old(self).busy()->0->Write_1 + n;
                    if n == rest@.len() {
                        &&& r == Ok::<WriteStep<T>, Error>(WriteStep::Done(written as usize))
                        &&& final(self).inner() == Some(inner)
                        &&& final(self).busy() is None
                    } else {
                        &&& r == Ok::<WriteStep<T>, Error>(WriteStep::Start(inner))
                        &&& final(self).inner() is None
                        &&& final(self).busy() matches Some(Busy::Write(left, total)) && left@
                            == rest@.skip(n as int) && total == written
                    }
                },
            },
    {
        let before: usize = match &self.busy {
            Some(Busy::Write(_, written)) => *written,
            _ => 0,
        };
        match result {
            Err(error) => {
                self.busy = None;
                self.inner = Some(inner);
                Err(error)
            },
            Ok(n) => {
                let mut rest = rest;
                let left = rest.split_off(n);
                let written: usize = before + n;
                if left.len() == 0 {
                    self.busy = None;
                    self.inner = Some(inner);
                    Ok(WriteStep::Done(written))
                } else {
                    self.busy = Some(Busy::Write(left, written));
                    Ok(WriteStep::Start(inner))
                }
            },
        }
    }

    /// Starts to flush.
    pub fn poll_flush(&mut self) -> (step: WriteStep<T>)
        requires
            old(self).wf(),
        ensures
            final(self).wf(),
            final(self).unread() == old(self).unread(),
            if old(self).busy() == Some(Busy::Flush) {
                &&& step is Resume
                &&& *final(self) == *old(self)
            } else if old(self).inner() is None {
                &&& step == WriteStep::<T>::Refused(in_progress())
                &&& *final(self) == *old(self)
            } else {
                &&& step == WriteStep::<T>::Start(old(self).inner()->0)
                &&& final(self).inner() is None
                &&& final(self).busy() == Some(Busy::Flush)
            },
    {
        let flushing = match &self.busy {
            Some(Busy::Flush) => true,
            _ => false,
        };
        if flushing {
            return WriteStep::Resume;
        }
        match self.inner.take() {
            Some(inner) => {
                self.busy = Some(Busy::Flush);
                WriteStep::Start(inner)
            },
            None => WriteStep::Refused(in_progress_error()),
        }
    }

    /// Ends a flush.
    pub fn finish_flush(&mut self, inner: T, result: Result<(), Error>) -> (r: Result<(), Error>)
        requires
            old(self).wf(),
            old(self).busy() == Some(Busy::Flush),
        ensures
            final(self).wf(),
            final(self).inner() == Some(inner),
            final(self).busy() is None,
            final(self).unread() == old(self).unread(),
            r == result,
    {
        self.busy = None;
        self.inner = Some(inner);
        result
    }
}

/// A request that comes while the inner value is lent out is told so.
pub proof fn law_a_busy_wrapper_says_so()
    ensures
        in_progress() == Error::Custom(
            ErrorKind::Other,
            "another operation is already in progress",
        ),
{
}

} // verus!
