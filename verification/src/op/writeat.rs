//! Writing at an offset of a file.

use crate::error::{Error, ErrorKind};
use crate::io::buf::{CompletionBuffer, IoBuf};
use crate::op::io_util::{entry_len, CompletionOp};
use vstd::prelude::*;

verus! {

/// The request to write a buffer at an offset.
pub struct WriteAtOp<B: IoBuf> {
    pub fd: i32,
    buf: Option<CompletionBuffer<B>>,
    pub offset: u64,
    pub completion: CompletionOp,
}

impl<B: IoBuf> WriteAtOp<B> {
    /// The buffer, unless it was given up.
    pub closed spec fn buffer(&self) -> Option<B> {
        match self.buf {
            Some(buf) => Some(buf@),
            None => None,
        }
    }

    pub closed spec fn handle(&self) -> i32 {
        self.fd
    }

    pub closed spec fn at(&self) -> u64 {
        self.offset
    }

    pub closed spec fn token(&self) -> Option<usize> {
        self.completion.token()
    }

    /// A request that was not submitted. The buffer stays in place where operations on the handle
    /// are submitted for completion.
    pub fn new(fd: i32, uses_completion: bool, buf: B, offset: u64) -> (op: Self)
        ensures
            op.handle() == fd,
            op.buffer() == Some(buf),
            op.at() == offset,
            op.token() is None,
    {
        WriteAtOp {
            fd,
            buf: Some(CompletionBuffer::new(buf, uses_completion)),
            offset,
            completion: CompletionOp::new(),
        }
    }

    /// Gives the buffer back.
    pub fn take_bufs(self) -> (buf: B)
        requires
            self.buffer() is Some,
        ensures
            Some(buf) == self.buffer(),
    {
        let mut this = self;
        this.buf.take().unwrap().into_inner()
    }

    /// The length for the queue entry, which holds 32 bits.
    pub fn entry_len(&self) -> (len: Result<u32, Error>)
        requires
            self.buffer() is Some,
        ensures
            if self.buffer()->0.bytes().len() <= u32::MAX {
                len matches Ok(n) && n == self.buffer()->0.bytes().len()
            } else {
                len == Err::<u32, Error>(
                    Error::Custom(
                        ErrorKind::InvalidInput,
                        "write buffer is too large for io_uring",
                    ),
                )
            },
    {
        match &self.buf {
            Some(buf) => {
                let len: usize = buf.as_ref().buf_len();
                entry_len(len, "write buffer is too large for io_uring")
            },
            None => Ok(0),
        }
    }

    /// The buffer, for the call.
    pub fn buffer_ref(&self) -> (buf: Option<&B>)
        ensures
            match buf {
                Some(b) => self.buffer() == Some(*b),
                None => self.buffer() is None,
            },
    {
        match &self.buf {
            Some(buf) => Some(buf.as_ref()),
            None => None,
        }
    }

    /// The operation under way, for going on with it.
    pub fn completion_mut(&mut self) -> (completion: &mut CompletionOp)
        ensures
            completion.token() == old(self).token(),
            final(self).token() == final(completion).token(),
            final(self).buffer() == old(self).buffer(),
            final(self).handle() == old(self).handle(),
            final(self).at() == old(self).at(),
    {
        &mut self.completion
    }

    /// Gives the request up: the token and the buffer, which the driver has to keep until the
    /// kernel is done with it, if the operation is under way.
    pub fn abandon(&mut self) -> (r: Option<(usize, Option<Box<B>>)>)
        ensures
            final(self).handle() == old(self).handle(),
            final(self).at() == old(self).at(),
            final(self).token() is None,
            match old(self).token() {
                None => r is None && final(self).buffer() == old(self).buffer(),
                Some(token) => {
                    &&& final(self).buffer() is None
                    &&& r matches Some((t, buf)) && t == token && match old(self).buffer() {
                        Some(b) => buf matches Some(boxed) && *boxed == b,
                        None => buf is None,
                    }
                },
            },
    {
        match self.completion.abandon() {
            None => None,
            Some(token) => Some(
                (
                    token,
                    match self.buf.take() {
                        Some(buf) => Some(buf.into_stable_box()),
                        None => None,
                    },
                ),
            ),
        }
    }
}

} // verus!
