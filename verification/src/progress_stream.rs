//! Buffers between a state and a byte stream: output waits in a queue until the stream takes
//! it, input is read into a fixed-size buffer.
//!
//! The reading and writing themselves belong to the I/O driver; it reports here how many
//! bytes the stream took or gave.

use std::collections::VecDeque;
use vstd::prelude::*;

verus! {

/// Size of the read buffer.
pub const READ_BUFFER_SIZE: usize = 1024;

/// Temporary read buffer for input bytes.
///
/// The buffer is non-empty and has a fixed size. Read bytes overwrite the buffer and are
/// then immediately handed to the state as input.
struct ReadBuffer {
    bytes: Vec<u8>,
}

impl ReadBuffer {
    fn new() -> (res: Self)
        ensures
            res.bytes@ == Seq::new(READ_BUFFER_SIZE as nat, |i: int| 0u8),
    {
        let bytes = vec![0u8; READ_BUFFER_SIZE];
        assert(bytes@ =~= Seq::new(READ_BUFFER_SIZE as nat, |i: int| 0u8));
        Self { bytes }
    }
}

/// Queue for output bytes that need to be written.
///
/// Output bytes are enqueued at the back and written bytes are dequeued from the front.
struct WriteBuffer {
    bytes: VecDeque<u8>,
}

impl WriteBuffer {
    fn new() -> (res: Self)
        ensures
            res.bytes@ == Seq::<u8>::empty(),
    {
        Self { bytes: VecDeque::new() }
    }

    fn push_bytes(&mut self, bytes: &[u8])
        ensures
            final(self).bytes@ == old(self).bytes@ + bytes@,
    {
        let mut i: usize = 0;
        while i < bytes.len()
            invariant
                i <= bytes@.len(),
                self.bytes@ == old(self).bytes@ + bytes@.take(i as int),
            decreases bytes@.len() - i,
        {
            self.bytes.push_back(bytes[i]);
            assert(bytes@.take(i + 1) =~= bytes@.take(i as int).push(bytes@[i as int]));
            i = i + 1;
        }
        assert(bytes@.take(bytes@.len() as int) =~= bytes@);
    }

    fn needs_write(&self) -> (res: bool)
        ensures
            res == (self.bytes@.len() > 0),
    {
        self.bytes.len() > 0
    }

    /// Drops the first `byte_count` bytes, which were written.
    fn drop_written(&mut self, byte_count: usize)
        requires
            byte_count <= old(self).bytes@.len(),
        ensures
            final(self).bytes@ == old(self).bytes@.skip(byte_count as int),
    {
        let mut dropped: usize = 0;
        while dropped < byte_count
            invariant
                dropped <= byte_count,
                byte_count <= old(self).bytes@.len(),
                self.bytes@ == old(self).bytes@.skip(dropped as int),
            decreases byte_count - dropped,
        {
            let _ = self.bytes.pop_front();
            assert(old(self).bytes@.skip(dropped as int).subrange(
                1,
                old(self).bytes@.len() - dropped,
            ) =~= old(self).bytes@.skip(dropped + 1));
            dropped = dropped + 1;
        }
    }
}

/// A stream with the buffers that let a state progress over it.
pub struct ProgressStream<S> {
    stream: S,
    read_buffer: ReadBuffer,
    write_buffer: WriteBuffer,
}

impl<S> ProgressStream<S> {
    /// The underlying stream.
    pub closed spec fn stream_spec(self) -> S {
        self.stream
    }

    /// Output bytes that were enqueued and not yet written, oldest first.
    pub closed spec fn pending_output(self) -> Seq<u8> {
        self.write_buffer.bytes@
    }

    /// Size of the read buffer.
    pub open spec fn read_capacity(self) -> nat {
        self.read_buffer_spec().len()
    }

    pub fn new(stream: S) -> (res: Self)
        ensures
            res.stream_spec() == stream,
            res.pending_output() == Seq::<u8>::empty(),
            res.read_buffer_spec() == Seq::new(READ_BUFFER_SIZE as nat, |i: int| 0u8),
    {
        Self { stream, read_buffer: ReadBuffer::new(), write_buffer: WriteBuffer::new() }
    }

    /// The underlying stream, for experiments: writing to or reading from it may conflict with
    /// the buffered bytes.
    pub fn get_mut(&mut self) -> (res: &mut S)
        ensures
            *res == old(self).stream_spec(),
            final(self).stream_spec() == *final(res),
            final(self).pending_output() == old(self).pending_output(),
            final(self).read_buffer_spec() == old(self).read_buffer_spec(),
    {
        &mut self.stream
    }

    /// Takes the underlying stream out; bytes that were not written are dropped.
    pub fn into_inner(self) -> (res: S)
        ensures
            res == self.stream_spec(),
    {
        self.stream
    }

    /// Enqueues output bytes behind those that wait already.
    pub fn enqueue_bytes(&mut self, bytes: &[u8])
        ensures
            final(self).pending_output() == old(self).pending_output() + bytes@,
            final(self).stream_spec() == old(self).stream_spec(),
            final(self).read_buffer_spec() == old(self).read_buffer_spec(),
    {
        self.write_buffer.push_bytes(bytes)
    }

    /// There are output bytes waiting to be written.
    pub fn needs_write(&self) -> (res: bool)
        ensures
            res == (self.pending_output().len() > 0),
    {
        self.write_buffer.needs_write()
    }

    /// The stream and the output bytes that wait, to write the latter to the former.
    pub fn write_parts(&mut self) -> (res: (&mut S, &VecDeque<u8>))
        ensures
            *res.0 == old(self).stream_spec(),
            res.1@ == old(self).pending_output(),
            final(self).stream_spec() == *final(res.0),
            final(self).pending_output() == old(self).pending_output(),
            final(self).read_buffer_spec() == old(self).read_buffer_spec(),
    {
        (&mut self.stream, &self.write_buffer.bytes)
    }

    /// The stream took `byte_count` of the waiting bytes: they leave the queue. Taking none
    /// means that the stream does not accept bytes anymore, since there were bytes to take.
    pub fn record_written(&mut self, byte_count: usize) -> (res: Result<(), ProgressError>)
        requires
            old(self).pending_output().len() > 0,
            byte_count <= old(self).pending_output().len(),
        ensures
            final(self).pending_output() == old(self).pending_output().skip(byte_count as int),
            final(self).stream_spec() == old(self).stream_spec(),
            final(self).read_buffer_spec() == old(self).read_buffer_spec(),
            byte_count == 0 <==> res is Err,
            res is Err ==> res->Err_0 is Closed,
    {
        self.write_buffer.drop_written(byte_count);
        if byte_count == 0 {
            // The result is 0 if the stream doesn't accept bytes anymore or the write buffer
            // was already empty before writing. Because there were bytes to write, the first
            // case occurred.
            return Err(ProgressError::Closed);
        }
        Ok(())
    }

    /// The stream and the read buffer, to read from the former into the latter.
    pub fn read_parts(&mut self) -> (res: (&mut S, &mut [u8]))
        ensures
            *res.0 == old(self).stream_spec(),
            res.1@ == old(self).read_buffer_spec(),
            final(self).stream_spec() == *final(res.0),
            final(self).read_buffer_spec() == final(res.1)@,
            final(self).pending_output() == old(self).pending_output(),
    {
        (&mut self.stream, self.read_buffer.bytes.as_mut_slice())
    }

    /// The stream gave `byte_count` bytes into the read buffer: those are the input. Giving
    /// none means that the stream reached its end.
    pub fn record_read(&self, byte_count: usize) -> (res: Result<&[u8], ProgressError>)
        requires
            byte_count <= self.read_capacity(),
        ensures
            byte_count == 0 <==> res is Err,
            res is Err ==> res->Err_0 is Closed,
            res is Ok ==> res->Ok_0@ == self.read_buffer_spec().take(byte_count as int),
    {
        if byte_count == 0 {
            // The result is 0 if the stream reached "end of file".
            return Err(ProgressError::Closed);
        }
        Ok(&self.read_buffer.bytes.as_slice()[0..byte_count])
    }

    /// Contents of the read buffer.
    pub closed spec fn read_buffer_spec(self) -> Seq<u8> {
        self.read_buffer.bytes@
    }
}

/// Reading from or writing to the stream failed.
#[derive(Debug)]
pub enum ProgressError {
    /// The stream was closed.
    Closed,
    /// An I/O error occurred in the underlying stream.
    Io(std::io::Error),
}

/// Output bytes enqueued one after the other wait in that order behind those that waited
/// already: after enqueueing `a` and then `b`, the bytes to write are the earlier ones followed
/// by `a ++ b`, and the stream takes them front first.
pub proof fn lemma_enqueued_output_in_order<S>(
    s0: ProgressStream<S>,
    s1: ProgressStream<S>,
    s2: ProgressStream<S>,
    a: Seq<u8>,
    b: Seq<u8>,
)
    requires
        s1.pending_output() == s0.pending_output() + a,
        s2.pending_output() == s1.pending_output() + b,
    ensures
        s2.pending_output() == s0.pending_output() + (a + b),
        s0.pending_output().len() == 0 ==> s2.pending_output() == a + b,
{
    assert(s2.pending_output() =~= s0.pending_output() + (a + b));
}

} // verus!
