use std::time::Duration;

use imap_next::fragment::{write_fragment, FragmentKind};
use imap_next::progress_stream::{ProgressError, ProgressStream, READ_BUFFER_SIZE};
use imap_next::runtime::RuntimeOptions;
use imap_next::stream::{Error, Stream, StreamStep};
use imap_next::{Interrupt, Io};

#[test]
fn progress_stream_write_queue() {
    let mut stream = ProgressStream::new(5u8);
    assert!(!stream.needs_write());
    stream.enqueue_bytes(b"A1 NOOP\r\n");
    stream.enqueue_bytes(b"A2 NOOP\r\n");
    assert!(stream.needs_write());
    {
        let (inner, queue) = stream.write_parts();
        assert_eq!(*inner, 5);
        let bytes: Vec<u8> = queue.iter().copied().collect();
        assert_eq!(bytes, b"A1 NOOP\r\nA2 NOOP\r\n".to_vec());
    }
    assert!(stream.record_written(9).is_ok());
    {
        let (_, queue) = stream.write_parts();
        let bytes: Vec<u8> = queue.iter().copied().collect();
        assert_eq!(bytes, b"A2 NOOP\r\n".to_vec());
    }
    // Writing nothing while bytes wait means the stream is closed.
    assert!(matches!(stream.record_written(0), Err(ProgressError::Closed)));
    assert!(stream.record_written(9).is_ok());
    assert!(!stream.needs_write());
}

#[test]
fn progress_stream_read_buffer() {
    let mut stream = ProgressStream::new(());
    {
        let (_, buffer) = stream.read_parts();
        assert_eq!(buffer.len(), READ_BUFFER_SIZE);
        assert!(buffer.iter().all(|b| *b == 0));
        buffer[..4].copy_from_slice(b"* OK");
    }
    assert_eq!(stream.record_read(4).unwrap(), b"* OK");
    assert_eq!(stream.record_read(1).unwrap(), b"*");
    // Reading nothing means the stream reached its end.
    assert!(matches!(stream.record_read(0), Err(ProgressError::Closed)));
}

#[test]
fn progress_stream_inner() {
    let mut stream = ProgressStream::new(vec![1u8]);
    stream.get_mut().push(2);
    assert_eq!(stream.into_inner(), vec![1, 2]);
}

#[test]
fn stream_handles_progress() {
    let mut stream = Stream::new(0u32);
    *stream.stream_mut() += 3;

    let step = stream.handle_progress::<&str, &str>(Ok("event"));
    assert!(matches!(step, StreamStep::Event("event")));

    let step = stream.handle_progress::<&str, &str>(Err(Interrupt::Error("failure")));
    assert!(matches!(step, StreamStep::Failed(Error::State("failure"))));

    let step =
        stream.handle_progress::<&str, &str>(Err(Interrupt::Io(Io::Output(b"A1 NOOP\r\n".to_vec()))));
    assert!(matches!(step, StreamStep::Continue));
    assert!(stream.progress_stream_mut().needs_write());

    let step = stream.handle_progress::<&str, &str>(Err(Interrupt::Io(Io::NeedMoreInput)));
    assert!(matches!(step, StreamStep::NeedMoreInput));

    assert_eq!(stream.into_stream(), 3);
}

#[test]
fn stream_error_from_progress_error() {
    let closed: Error<()> = ProgressError::Closed.into();
    assert!(matches!(closed, Error::Closed));
    let io: Error<()> =
        ProgressError::Io(std::io::Error::new(std::io::ErrorKind::Other, "broken")).into();
    assert!(matches!(io, Error::Io(error) if error.to_string() == "broken"));
}

#[test]
fn runtime_options_default() {
    assert_eq!(RuntimeOptions::default().timeout, Some(Duration::from_secs(1)));
}

#[test]
fn fragments_are_appended() {
    let mut buffer = b"A1 LOGIN {5}\r\n".to_vec();
    write_fragment(&mut buffer, b"ABCDE", FragmentKind::Literal);
    write_fragment(&mut buffer, b"\r\n", FragmentKind::Line);
    write_fragment(&mut buffer, b"", FragmentKind::Line);
    assert_eq!(buffer, b"A1 LOGIN {5}\r\nABCDE\r\n".to_vec());
}
