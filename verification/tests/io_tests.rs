//! The byte buffer, the completion block, and the two drivers, exercised
//! against scripted byte channels.

use msft_runtime::buffer::IoBuffer;
use msft_runtime::drive::ReadDriver;
use msft_runtime::drive::ReadPoll;
use msft_runtime::drive::ReadStart;
use msft_runtime::drive::SinkPoll;
use msft_runtime::drive::WriteDriver;
use msft_runtime::errors::SinkEncodeError;
use msft_runtime::errors::SinkError;
use msft_runtime::errors::StreamError;
use msft_runtime::handle::ReadOverlapped;
use msft_runtime::handle::ThreadpoolIoWork;
use msft_runtime::handle::WriteOverlapped;
use msft_runtime::lines::LinesDecoder;
use msft_runtime::overlapped::Overlapped;
use msft_runtime::overlapped::OverlappedError;
use msft_runtime::WaitPending;

/// A worker pool that only keeps score.
struct NullPool;

impl ThreadpoolIoWork for NullPool {
    fn start(&self) -> &Self {
        self
    }
    fn wait(&self, _pending: WaitPending) -> &Self {
        self
    }
    fn cancel(&self) -> &Self {
        self
    }
}

/// A byte channel whose reads follow a script.
struct ScriptedReader {
    script: Vec<Result<Vec<u8>, OverlappedError>>,
}

impl ReadOverlapped for ScriptedReader {
    fn read_overlapped(
        &mut self,
        _overlapped: &mut Overlapped,
        buf: &mut IoBuffer,
    ) -> Result<usize, OverlappedError> {
        if self.script.is_empty() {
            return Err(OverlappedError::Pending);
        }
        match self.script.remove(0) {
            Ok(bytes) => {
                let n = bytes.len().min(buf.capacity() - buf.len());
                buf.extend_from_slice(&bytes[..n]);
                Ok(n)
            }
            Err(e) => Err(e),
        }
    }
}

/// A byte channel whose writes follow a script of accepted counts.
struct ScriptedWriter {
    script: Vec<Result<usize, OverlappedError>>,
}

impl WriteOverlapped for ScriptedWriter {
    fn write_overlapped(
        &mut self,
        _overlapped: &mut Overlapped,
        bytes: &IoBuffer,
    ) -> Result<usize, OverlappedError> {
        match self.script.remove(0) {
            Ok(n) => Ok(n.min(bytes.len())),
            Err(e) => Err(e),
        }
    }
}

fn filled(bytes: &[u8], capacity: usize) -> IoBuffer {
    let mut buf = IoBuffer::with_capacity(capacity);
    buf.extend_from_slice(bytes);
    buf
}

#[test]
fn test_threadpool_buffer() {
    let mut bytes = IoBuffer::with_capacity(8);
    assert_eq!(0, bytes.len());

    bytes.extend_from_slice(b"0123");
    assert_eq!(4, bytes.len());
    assert_eq!(b'0', bytes.get(0));

    bytes.extend_from_slice(b"4567");
    assert_eq!(8, bytes.len());

    bytes.advance(4);
    assert_eq!(4, bytes.len());
    assert_eq!(b'4', bytes.get(0));
    assert_eq!(b'7', bytes.get(3));

    let head = bytes.split_to(2);
    assert_eq!(vec![b'4', b'5'], head);
    assert_eq!(2, bytes.len());
    assert_eq!(8, bytes.capacity());
}

#[test]
fn test_threadpool_overlapped_offset() {
    let mut overlapped = Overlapped::new_read(1234567890);
    assert_eq!(1234567890, overlapped.get_offset());
    overlapped.set_offset(8234567891);
    assert_eq!(8234567891, overlapped.get_offset());
}

#[test]
fn line_reader_smoke() {
    // Two kernel completions carrying a line split across them: the consumer
    // observes each decoded line, then parks.
    let mut driver: ReadDriver<(), LinesDecoder> =
        ReadDriver::new((), LinesDecoder::default(), 4096, 8);
    driver.completion_ok(b"hello\r\nwor");
    driver.completion_ok(b"ld\r\n");
    match driver.poll_next() {
        ReadPoll::Item(Ok(line)) => assert_eq!("hello", line),
        _ => panic!("expected the first line"),
    }
    match driver.poll_next() {
        ReadPoll::Item(Ok(line)) => assert_eq!("world", line),
        _ => panic!("expected the second line"),
    }
    assert!(matches!(driver.poll_next(), ReadPoll::Pending));
}

#[test]
fn read_start_drives_until_pending() {
    let handle = ScriptedReader {
        script: vec![Ok(b"one\ntw".to_vec()), Ok(b"o\n".to_vec())],
    };
    let mut driver = ReadDriver::new(handle, LinesDecoder::default(), 64, 8);
    let status = driver.start(&NullPool);
    assert_eq!(ReadStart::Pending, status);
    match driver.poll_next() {
        ReadPoll::Item(Ok(line)) => assert_eq!("one", line),
        _ => panic!("expected a line"),
    }
    match driver.poll_next() {
        ReadPoll::Item(Ok(line)) => assert_eq!("two", line),
        _ => panic!("expected a line"),
    }
    assert!(matches!(driver.poll_next(), ReadPoll::Pending));
}

#[test]
fn read_end_of_file_ends_stream() {
    let handle = ScriptedReader {
        script: vec![Ok(b"bye\n".to_vec()), Err(OverlappedError::Eof)],
    };
    let mut driver = ReadDriver::new(handle, LinesDecoder::default(), 64, 8);
    assert_eq!(ReadStart::Stopped, driver.start(&NullPool));
    match driver.poll_next() {
        ReadPoll::Item(Ok(line)) => assert_eq!("bye", line),
        _ => panic!("expected a line"),
    }
    assert!(matches!(driver.poll_next(), ReadPoll::Ended));
    assert!(matches!(driver.poll_next(), ReadPoll::Ended));
}

#[test]
fn read_kernel_failure_is_surfaced() {
    let mut driver: ReadDriver<(), LinesDecoder> =
        ReadDriver::new((), LinesDecoder::default(), 64, 8);
    driver.completion_failed(1117);
    match driver.poll_next() {
        ReadPoll::Item(Err(StreamError::Overlapped(OverlappedError::Os(code)))) => {
            assert_eq!(1117, code)
        }
        _ => panic!("expected the kernel error"),
    }
    assert!(matches!(driver.poll_next(), ReadPoll::Pending));
}

#[test]
fn queue_overflow_delivers_backlog_then_queue_full() {
    // Queue of depth two, three items at once: both queued items are
    // delivered, then exactly one queue-full error, then the stream ends.
    let mut driver: ReadDriver<(), LinesDecoder> =
        ReadDriver::new((), LinesDecoder::default(), 64, 2);
    driver.completion_ok(b"a\nb\nc\n");
    match driver.poll_next() {
        ReadPoll::Item(Ok(line)) => assert_eq!("a", line),
        _ => panic!("expected the first item"),
    }
    match driver.poll_next() {
        ReadPoll::Item(Ok(line)) => assert_eq!("b", line),
        _ => panic!("expected the second item"),
    }
    assert!(matches!(
        driver.poll_next(),
        ReadPoll::Item(Err(StreamError::QueueFull))
    ));
    assert!(matches!(driver.poll_next(), ReadPoll::Ended));
}

#[test]
fn completion_reissues_the_read() {
    // A completion absorbs its bytes, then starts the next cycle, which here
    // reads one more line synchronously before the kernel takes over.
    let handle = ScriptedReader {
        script: vec![Err(OverlappedError::Pending), Ok(b"two\n".to_vec())],
    };
    let mut driver = ReadDriver::new(handle, LinesDecoder::default(), 64, 8);
    assert_eq!(ReadStart::Pending, driver.start(&NullPool));
    assert_eq!(ReadStart::Pending, driver.completion(b"one\n", &NullPool));
    match driver.poll_next() {
        ReadPoll::Item(Ok(line)) => assert_eq!("one", line),
        _ => panic!("expected the completion's line"),
    }
    match driver.poll_next() {
        ReadPoll::Item(Ok(line)) => assert_eq!("two", line),
        _ => panic!("expected the reissued cycle's line"),
    }
    assert!(matches!(driver.poll_next(), ReadPoll::Pending));
}

#[test]
fn write_then_flush_synchronous() {
    // The kernel accepts all six bytes on the first attempt: the future
    // resolves without ever parking.
    let handle = ScriptedWriter { script: vec![Ok(6)] };
    let mut driver = WriteDriver::new(handle);
    driver.buffer(filled(b"ping\r\n", 16));
    driver.flush(&NullPool);
    match driver.poll() {
        SinkPoll::Ready(Ok(())) => {}
        _ => panic!("expected a completed write"),
    }
}

#[test]
fn write_flush_resumes_after_completion() {
    // The kernel takes two bytes synchronously, goes pending, then completes
    // the rest through the callback path.
    let handle = ScriptedWriter {
        script: vec![Ok(2), Err(OverlappedError::Pending), Ok(4)],
    };
    let mut driver = WriteDriver::new(handle);
    driver.buffer(filled(b"abcdef", 16));
    driver.flush(&NullPool);
    assert!(matches!(driver.poll(), SinkPoll::Pending));
    driver.completion_ok(4, &NullPool);
    match driver.poll() {
        SinkPoll::Ready(Ok(())) => {}
        _ => panic!("expected a completed write"),
    }
}

#[test]
fn write_kernel_error_fails_the_cycle() {
    let handle = ScriptedWriter {
        script: vec![Err(OverlappedError::Os(5))],
    };
    let mut driver = WriteDriver::new(handle);
    driver.buffer(filled(b"abc", 8));
    driver.flush(&NullPool);
    match driver.poll() {
        SinkPoll::Ready(Err(SinkError::Overlapped(OverlappedError::Os(code)))) => {
            assert_eq!(5, code)
        }
        _ => panic!("expected the kernel error"),
    }
}

#[test]
fn write_empty_buffer_completes_immediately() {
    // Flushing an empty cycle never touches the channel.
    let handle = ScriptedWriter { script: vec![] };
    let mut driver = WriteDriver::new(handle);
    driver.buffer(IoBuffer::with_capacity(8));
    driver.flush(&NullPool);
    assert!(matches!(driver.poll(), SinkPoll::Ready(Ok(()))));
}

#[test]
fn overlapped_offset_extremes() {
    let mut overlapped = Overlapped::new_write(0);
    assert_eq!(0, overlapped.get_offset());
    overlapped.set_offset(u64::MAX);
    assert_eq!(u64::MAX, overlapped.get_offset());
}

#[test]
fn push_with_len_accepts_exact_fit() {
    // The stated length plus the bytes used equals the capacity exactly:
    // accepted; one byte beyond: buffer full.
    let handle = ScriptedWriter { script: vec![Ok(8)] };
    let mut driver = WriteDriver::new(handle);
    driver.buffer(filled(b"four", 8));
    let item = b"stop".to_vec();
    assert!(driver.push_with_len(4, &item).is_ok());
    match driver.push_with_len(1, &b"x".to_vec()) {
        Err(SinkEncodeError::BufferFull) => {}
        _ => panic!("expected buffer full"),
    }
    driver.flush(&NullPool);
    match driver.poll() {
        SinkPoll::Ready(Ok(())) => {}
        _ => panic!("expected a completed write"),
    }
}

#[test]
fn push_encodable_at_capacity_boundary() {
    // Capacity eight: six bytes used, a two-byte item still fits exactly;
    // one more byte is refused with the buffer-full error.
    let handle = ScriptedWriter { script: vec![Ok(8)] };
    let mut driver = WriteDriver::new(handle);
    driver.buffer(filled(b"sixby!", 8));
    assert!(driver.push_encodable(&b"ok".to_vec()).is_ok());
    match driver.push_encodable(&b"x".to_vec()) {
        Err(SinkEncodeError::BufferFull) => {}
        _ => panic!("expected buffer full"),
    }
    driver.flush(&NullPool);
    match driver.poll() {
        SinkPoll::Ready(Ok(())) => {}
        _ => panic!("expected a completed write"),
    }
}
