//! Drives a [`State`](crate::State) over a byte stream.
//!
//! The driver alternates between progressing the state and doing I/O. What to do after each
//! progress step is decided here; the reading, writing and waiting are the I/O driver's.

use crate::progress_stream::{ProgressError, ProgressStream};
use crate::{Interrupt, Io};
use vstd::prelude::*;

verus! {

/// A stream that a state progresses over.
pub struct Stream<S> {
    stream: ProgressStream<S>,
}

/// What the I/O driver does after the state progressed.
pub enum StreamStep<V, E> {
    /// The state emitted an event: it is returned.
    Event(V),
    /// The progress failed: the error is returned.
    Failed(Error<E>),
    /// Output was enqueued: the state progresses again.
    Continue,
    /// The state needs input: bytes are read from the stream and handed to it.
    NeedMoreInput,
}

impl<S> Stream<S> {
    /// The buffers between the state and the stream.
    pub closed spec fn progress_stream(self) -> ProgressStream<S> {
        self.stream
    }

    pub fn new(stream: S) -> (res: Self)
        ensures
            res.progress_stream().stream_spec() == stream,
            res.progress_stream().pending_output() == Seq::<u8>::empty(),
            res.progress_stream().read_capacity() == crate::progress_stream::READ_BUFFER_SIZE,
    {
        Self { stream: ProgressStream::new(stream) }
    }

    /// Return the underlying stream for debug purposes (or experiments).
    ///
    /// Note: Writing to or reading from the stream may introduce conflicts with the
    /// buffered bytes.
    pub fn stream_mut(&mut self) -> (res: &mut S)
        ensures
            *res == old(self).progress_stream().stream_spec(),
            final(self).progress_stream().stream_spec() == *final(res),
            final(self).progress_stream().pending_output() == old(
                self,
            ).progress_stream().pending_output(),
            final(self).progress_stream().read_buffer_spec() == old(
                self,
            ).progress_stream().read_buffer_spec(),
    {
        self.stream.get_mut()
    }

    /// Take the underlying stream out of a [`Stream`].
    ///
    /// Useful when a TCP stream needs to be upgraded to a TLS one.
    pub fn into_stream(self) -> (res: S)
        ensures
            res == self.progress_stream().stream_spec(),
    {
        self.stream.into_inner()
    }

    /// The buffers between the state and the stream, for the I/O driver.
    pub fn progress_stream_mut(&mut self) -> (res: &mut ProgressStream<S>)
        ensures
            *res == old(self).progress_stream(),
            final(self).progress_stream() == *final(res),
    {
        &mut self.stream
    }

    /// Decides what follows a progress step of the state: an event or an error ends the
    /// step; output bytes are enqueued for writing, and the state progresses again; a need for
    /// input makes the driver read.
    pub fn handle_progress<V, E>(&mut self, result: Result<V, Interrupt<E>>) -> (res: StreamStep<
        V,
        E,
    >)
        ensures
            match result {
                Ok(event) => res == StreamStep::<V, E>::Event(event),
                Err(Interrupt::Error(error)) => res == StreamStep::<V, E>::Failed(
                    Error::State(error),
                ),
                Err(Interrupt::Io(Io::Output(bytes))) => res == StreamStep::<V, E>::Continue,
                Err(Interrupt::Io(Io::NeedMoreInput)) => res == StreamStep::<V, E>::NeedMoreInput,
            },
            final(self).progress_stream().pending_output() == match result {
                Err(Interrupt::Io(Io::Output(bytes))) => old(
                    self,
                ).progress_stream().pending_output() + bytes@,
                _ => old(self).progress_stream().pending_output(),
            },
            final(self).progress_stream().stream_spec() == old(
                self,
            ).progress_stream().stream_spec(),
            final(self).progress_stream().read_buffer_spec() == old(
                self,
            ).progress_stream().read_buffer_spec(),
    {
        // Return events immediately without doing IO
        let interrupt = match result {
            Err(interrupt) => interrupt,
            Ok(event) => return StreamStep::Event(event),
        };
        // Return errors immediately without doing IO
        let io = match interrupt {
            Interrupt::Io(io) => io,
            Interrupt::Error(err) => return StreamStep::Failed(Error::State(err)),
        };
        match io {
            Io::Output(bytes) => {
                // Handle the output bytes from the client/server
                self.stream.enqueue_bytes(bytes.as_slice());
                StreamStep::Continue
            },
            // We need to progress the stream
            Io::NeedMoreInput => StreamStep::NeedMoreInput,
        }
    }
}

/// Error during reading into or writing from a stream.
#[derive(Debug)]
pub enum Error<E> {
    /// Operation failed because stream is closed.
    ///
    /// We detect this by checking if the read or written byte count is 0. Whether the stream is
    /// closed indefinitely or temporarily depends on the actual stream implementation.
    Closed,
    /// An I/O error occurred in the underlying stream.
    Io(std::io::Error),
    /// An error occurred while progressing the state.
    State(E),
}

/// The stream error that a buffer error stands for.
pub open spec fn stream_error_of<E>(value: ProgressError) -> Error<E> {
    match value {
        ProgressError::Closed => Error::Closed,
        ProgressError::Io(err) => Error::Io(err),
    }
}

impl<E> From<ProgressError> for Error<E> {
    fn from(value: ProgressError) -> (res: Self) {
        match value {
            ProgressError::Closed => Error::Closed,
            ProgressError::Io(err) => Error::Io(err),
        }
    }
}

impl<E> vstd::std_specs::convert::FromSpecImpl<ProgressError> for Error<E> {
    open spec fn obeys_from_spec() -> bool {
        true
    }

    open spec fn from_spec(value: ProgressError) -> Self {
        stream_error_of(value)
    }
}

} // verus!
