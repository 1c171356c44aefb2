use zincio::error::{Error, ErrorKind};
use zincio::util::async_wrap::{AsyncWrap, ReadStep, WriteStep, BUFFER_SIZE};
use zincio::builder::DriverKind;
use zincio::driver::Backend;
use zincio::util::{required_ops, supports_completion, supports_io_uring, RingOp};

struct CountingReader {
    data: Vec<u8>,
    offset: usize,
    reads: usize,
}

impl CountingReader {
    fn read(&mut self, cap: usize) -> Vec<u8> {
        self.reads += 1;
        let len = (self.data.len() - self.offset).min(cap);
        let bytes = self.data[self.offset..self.offset + len].to_vec();
        self.offset += len;
        bytes
    }
}

fn read(wrap: &mut AsyncWrap<CountingReader>, room: usize) -> (Vec<u8>, Option<usize>) {
    match wrap.poll_read(room) {
        ReadStep::Filled(bytes) => (bytes, None),
        ReadStep::Start(mut inner) => {
            let bytes = inner.read(BUFFER_SIZE);
            let reads = inner.reads;
            let bytes = wrap
                .finish_read(inner, Ok(bytes), room)
                .expect("read should succeed");
            (bytes, Some(reads))
        }
        _ => panic!("read should go on"),
    }
}

#[test]
fn async_wrap_read_buffers_leftover() {
    let reader = CountingReader {
        data: b"abcdefghij".to_vec(),
        offset: 0,
        reads: 0,
    };
    let mut wrap = AsyncWrap::new(reader);

    let (buf1, reads) = read(&mut wrap, 3);
    assert_eq!(buf1.len(), 3);
    assert_eq!(&buf1[..], b"abc");
    assert_eq!(reads, Some(1));

    let (buf2, reads) = read(&mut wrap, 4);
    assert_eq!(buf2.len(), 4);
    assert_eq!(&buf2[..], b"defg");
    assert_eq!(reads, None);

    let (buf3, reads) = read(&mut wrap, 4);
    assert_eq!(buf3.len(), 3);
    assert_eq!(&buf3[..], b"hij");
    assert_eq!(reads, None);

    let (end, reads) = read(&mut wrap, 4);
    assert!(end.is_empty());
    assert_eq!(reads, Some(2));
}

struct ChunkedWriter {
    data: Vec<u8>,
    writes: usize,
    flushed: bool,
    chunk_size: usize,
}

#[test]
fn async_wrap_write_writes_all_and_flushes() {
    let writer = ChunkedWriter {
        data: Vec::new(),
        writes: 0,
        flushed: false,
        chunk_size: 2,
    };
    let mut wrap = AsyncWrap::new(writer);

    let payload = b"hello world";
    let mut step = wrap.poll_write(payload.to_vec());
    let n = loop {
        match step {
            WriteStep::Start(mut inner) => {
                let rest = wrap.take_rest();
                let len = rest.len().min(inner.chunk_size);
                inner.writes += 1;
                inner.data.extend_from_slice(&rest[..len]);
                step = wrap
                    .on_written(inner, rest, Ok(len))
                    .expect("write should succeed");
            }
            WriteStep::Done(n) => break n,
            _ => panic!("write should go on"),
        }
    };
    assert_eq!(n, payload.len());
    match wrap.poll_flush() {
        WriteStep::Start(mut inner) => {
            inner.flushed = true;
            wrap.finish_flush(inner, Ok(()))
                .expect("flush should succeed");
        }
        _ => panic!("flush should start"),
    }
    match wrap.poll_read(1) {
        ReadStep::Start(inner) => {
            assert_eq!(inner.data, payload);
            assert!(inner.flushed);
            assert!(inner.writes > 1);
            assert_eq!(inner.writes, 6);
        }
        _ => panic!("inner value should be there"),
    }
}

#[test]
fn async_wrap_rejects_concurrent_operations() {
    let mut wrap = AsyncWrap::new(());
    assert!(matches!(wrap.poll_read(8), ReadStep::Start(())));
    assert!(matches!(wrap.poll_read(8), ReadStep::Resume));

    match wrap.poll_write(b"hi".to_vec()) {
        WriteStep::Refused(err) => {
            assert_eq!(err.kind(), Some(ErrorKind::Other));
        }
        _ => panic!("expected concurrent write to return an error"),
    }
    assert!(matches!(wrap.poll_flush(), WriteStep::Refused(_)));
}

#[test]
fn empty_requests_touch_nothing() {
    let mut wrap = AsyncWrap::new(());
    match wrap.poll_read(0) {
        ReadStep::Filled(bytes) => assert!(bytes.is_empty()),
        _ => panic!("nothing to read"),
    }
    assert!(matches!(wrap.poll_write(Vec::new()), WriteStep::Done(0)));
    assert!(matches!(wrap.poll_flush(), WriteStep::Start(())));
    assert!(matches!(wrap.poll_flush(), WriteStep::Resume));
    match wrap.poll_read(1) {
        ReadStep::Refused(err) => assert_eq!(
            err,
            Error::Custom(ErrorKind::Other, "another operation is already in progress")
        ),
        _ => panic!("flush is under way"),
    }
}

#[test]
fn a_failed_write_gives_the_inner_value_back() {
    let mut wrap = AsyncWrap::new(5u8);
    assert!(matches!(wrap.poll_write(vec![1, 2]), WriteStep::Start(5)));
    assert!(matches!(wrap.poll_write(vec![3]), WriteStep::Resume));
    let rest = wrap.take_rest();
    assert_eq!(rest, vec![1, 2]);
    match wrap.on_written(5, rest, Err(Error::Os(32))) {
        Err(err) => assert_eq!(err, Error::Os(32)),
        Ok(_) => panic!("the error is handed on"),
    }
    assert!(matches!(wrap.poll_flush(), WriteStep::Start(5)));
}

#[test]
fn a_failed_read_gives_the_inner_value_back() {
    let mut wrap = AsyncWrap::new(5u8);
    assert!(matches!(wrap.poll_read(9), ReadStep::Start(5)));
    assert_eq!(
        wrap.finish_read(5, Err(Error::Os(5)), 9),
        Err(Error::Os(5))
    );
    assert!(matches!(wrap.poll_read(9), ReadStep::Start(5)));
}

#[test]
fn completion_support_needs_a_driver() {
    assert!(!supports_completion(None));
    assert!(!supports_completion(Some(Backend::Mock)));
    assert!(!supports_completion(Some(Backend::Mio)));
    assert!(supports_completion(Some(Backend::IoUring)));
    assert!(supports_completion(Some(Backend::Iocp)));
    assert_eq!(DriverKind::<()>::Mock.backend(), Backend::Mock);
    assert_eq!(DriverKind::<()>::Mio.backend(), Backend::Mio);
    assert_eq!(DriverKind::<()>::Iocp.backend(), Backend::Iocp);
    assert_eq!(DriverKind::<()>::IoUring.backend(), Backend::IoUring);
    assert_eq!(DriverKind::IoUringCustomEntries(8, ()).backend(), Backend::IoUring);
}

#[test]
fn a_ring_needs_all_operations() {
    assert_eq!(required_ops(false, true, false).len(), 12);
    assert_eq!(required_ops(true, false, false).len(), 19);
    let all = required_ops(true, true, true);
    assert_eq!(all.len(), 21);
    assert_eq!(all[0], RingOp::Accept);
    assert_eq!(all[20], RingOp::Splice);
    assert!(!supports_io_uring(None));
    assert!(supports_io_uring(Some(&vec![true; 12])));
    assert!(!supports_io_uring(Some(&vec![true, true, false])));
}
