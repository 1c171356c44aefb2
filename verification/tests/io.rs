use zincio::error::{Error, ErrorKind};
use zincio::io::buf::{CompletionBuffer, IoBuf, IoBufWithCursor};
use zincio::io::copy::{self, copy_bidirectional, CopyStep};
use zincio::io::pipe::{pipe_flags, O_NONBLOCK};
use zincio::io::transfer::{request_len, Relay, RelayStep, Transfer, TransferStep};

#[test]
fn buffers_tell_what_they_hold() {
    let mut vec: Vec<u8> = Vec::with_capacity(64);
    vec.extend_from_slice(b"abc");
    assert_eq!(vec.buf_len(), 3);
    assert!(vec.buf_capacity() >= 64);
    assert!(!vec.would_box());
    assert_eq!(IoBuf::as_slice(&vec), b"abc");
    let fixed: &'static [u8] = b"abcd";
    assert_eq!((fixed.buf_len(), fixed.buf_capacity()), (4, 4));
    assert!(!fixed.would_box());
    let array = [1u8, 2];
    assert_eq!((array.buf_len(), array.buf_capacity()), (2, 2));
    assert!(array.would_box());
    let mut text = String::with_capacity(32);
    text.push_str("h\u{e9}");
    assert_eq!(text.buf_len(), 3);
    assert!(text.buf_capacity() >= 32);
    assert_eq!(text.as_slice(), &[b'h', 0xc3, 0xa9]);
    assert!(!text.would_box());
    let literal: &'static str = "abc";
    assert_eq!((literal.buf_len(), literal.buf_capacity()), (3, 3));
    assert_eq!(IoBuf::as_slice(&literal), b"abc");
    assert!(!literal.would_box());
    let boxed: Box<[u8]> = vec![1, 2, 3].into_boxed_slice();
    assert_eq!((boxed.buf_len(), boxed.buf_capacity()), (3, 3));
    assert_eq!(IoBuf::as_slice(&boxed), [1, 2, 3]);
    assert!(!boxed.would_box());
}

#[test]
fn a_cursor_is_a_buffer_of_what_is_left() {
    let mut twice = IoBufWithCursor::new([1u8, 2, 3, 4, 5]);
    assert_eq!((twice.buf_len(), twice.buf_capacity()), (5, 5));
    assert_eq!(IoBuf::as_slice(&twice), [1, 2, 3, 4, 5]);
    assert!(twice.would_box());
    twice.advance(1);
    twice.advance(2);
    assert_eq!((twice.buf_len(), twice.buf_capacity()), (2, 2));
    let mut once = IoBufWithCursor::new([1u8, 2, 3, 4, 5]);
    once.advance(3);
    assert_eq!(IoBuf::as_slice(&once), IoBuf::as_slice(&twice));
    assert_eq!(IoBuf::as_slice(&once), [4, 5]);
    assert_eq!(once.into_inner(), [1, 2, 3, 4, 5]);
}

#[test]
fn a_cursor_walks_through_a_buffer() {
    let mut buf = IoBufWithCursor::new(b"abcdef".to_vec());
    assert_eq!(buf.remaining(), 6);
    buf.advance(4);
    assert_eq!(buf.remaining(), 2);
    assert_eq!(buf.remaining_of(10), 6);
    assert_eq!(buf.remaining_capacity() + 4, b"abcdef".to_vec().capacity());
    buf.advance(2);
    assert_eq!(buf.remaining(), 0);
    assert_eq!(buf.whole(), b"abcdef");
    assert_eq!(buf.into_inner(), b"abcdef");
}

#[test]
fn buffers_that_move_are_boxed() {
    let mut boxed = CompletionBuffer::new([1u8, 2, 3], true);
    assert!(matches!(boxed, CompletionBuffer::Boxed(_)));
    boxed.as_mut()[0] = 9;
    assert_eq!(boxed.as_ref(), &[9, 2, 3]);
    assert_eq!(boxed.into_inner(), [9, 2, 3]);
    let inline = CompletionBuffer::new([1u8], false);
    assert!(matches!(inline, CompletionBuffer::Inline(_)));
    assert_eq!(*inline.into_stable_box(), [1]);
    let vec = CompletionBuffer::new(vec![1u8], true);
    assert!(matches!(vec, CompletionBuffer::Inline(_)));
    let boxed = CompletionBuffer::new([7u8], true);
    assert_eq!(*boxed.into_stable_box(), [7]);
}

#[test]
fn pipes_block_only_for_completion() {
    assert_eq!(O_NONBLOCK, libc::O_NONBLOCK);
    assert_eq!(pipe_flags(1, false), 1 | libc::O_NONBLOCK);
    assert_eq!(pipe_flags(1 | libc::O_NONBLOCK, true), 1);
}

#[test]
fn a_copy_moves_everything_in_order() {
    let chunks = [b"hello ".to_vec(), b"world".to_vec(), Vec::new()];
    let mut written = Vec::new();
    let mut next = 0;
    let (mut copy, mut step) = copy::Copy::new();
    let total = loop {
        step = match step {
            CopyStep::Read => {
                next += 1;
                copy.on_read(Ok(chunks[next - 1].clone()))
            }
            CopyStep::Write => {
                let (chunk, from) = copy.to_write();
                let n = (chunk.len() - from).min(4);
                written.extend_from_slice(&chunk[from..from + n]);
                copy.on_write(Ok(n))
            }
            CopyStep::Flush => copy.on_flush(Ok(())),
            CopyStep::Done(total) => break total,
            CopyStep::Fail(error) => panic!("{error:?}"),
        };
    };
    assert_eq!(total, 11);
    assert_eq!(written, b"hello world");
}

#[test]
fn a_copy_stops_at_the_first_error() {
    let (mut copy, step) = copy::Copy::new();
    assert_eq!(step, CopyStep::Read);
    assert_eq!(
        copy.on_read(Err(Error::Os(5))),
        CopyStep::Fail(Error::Os(5))
    );
    assert_eq!(copy.on_read(Ok(vec![1, 2])), CopyStep::Write);
    assert_eq!(
        copy.on_write(Err(Error::Os(32))),
        CopyStep::Fail(Error::Os(32))
    );
    assert_eq!(
        copy.on_write(Ok(0)),
        CopyStep::Fail(Error::Custom(
            ErrorKind::WriteZero,
            "failed to write whole buffer"
        ))
    );
    assert_eq!(
        copy.on_flush(Err(Error::Os(9))),
        CopyStep::Fail(Error::Os(9))
    );
}

#[test]
fn both_directions_must_succeed() {
    assert_eq!(copy_bidirectional(Ok(1), Ok(2)), Ok((1, 2)));
    assert_eq!(
        copy_bidirectional(Err(Error::Os(1)), Err(Error::Os(2))),
        Err(Error::Os(1))
    );
    assert_eq!(
        copy_bidirectional(Ok(1), Err(Error::Os(2))),
        Err(Error::Os(2))
    );
}

#[test]
fn transfers_ask_for_what_is_missing() {
    assert_eq!(request_len(10), 10);
    let (mut transfer, step) = Transfer::new(10);
    assert_eq!(step, TransferStep::Move(10));
    assert_eq!(transfer.on_moved(Ok(4)), TransferStep::Move(6));
    assert_eq!(
        transfer.on_moved(Err(Error::Os(5))),
        TransferStep::Fail(Error::Os(5))
    );
    assert_eq!(transfer.on_moved(Ok(6)), TransferStep::Done(10));
    let (mut short, _) = Transfer::new(10);
    short.on_moved(Ok(3));
    assert_eq!(short.on_moved(Ok(0)), TransferStep::Done(3));
    assert_eq!(Transfer::new(0).1, TransferStep::Done(0));
}

#[test]
fn a_relay_drains_what_it_filled() {
    let (mut relay, step) = Relay::new(10);
    assert_eq!(step, RelayStep::Fill(10));
    assert_eq!(relay.on_filled(Ok(6)), RelayStep::Drain(6));
    assert_eq!(relay.on_drained(Ok(4)), RelayStep::Fill(4));
    assert_eq!(relay.on_filled(Ok(4)), RelayStep::Drain(6));
    assert_eq!(relay.on_drained(Ok(6)), RelayStep::Done(10));
}

#[test]
fn a_relay_ends_with_the_file() {
    let (mut relay, _) = Relay::new(10);
    assert_eq!(relay.on_filled(Ok(3)), RelayStep::Drain(3));
    assert_eq!(relay.on_drained(Ok(1)), RelayStep::Fill(7));
    assert_eq!(relay.on_filled(Ok(0)), RelayStep::Drain(2));
    assert_eq!(relay.on_drained(Ok(1)), RelayStep::Drain(1));
    assert_eq!(relay.on_drained(Ok(1)), RelayStep::Done(3));
    let (mut closed, _) = Relay::new(10);
    closed.on_filled(Ok(3));
    assert_eq!(closed.on_drained(Ok(0)), RelayStep::Done(0));
    assert_eq!(
        closed.on_drained(Err(Error::Os(32))),
        RelayStep::Fail(Error::Os(32))
    );
    assert_eq!(
        closed.on_filled(Err(Error::Os(5))),
        RelayStep::Fail(Error::Os(5))
    );
}
