//! Sans-I/O building blocks for IMAP protocol flows: message framing, handle generation,
//! command and response send queues, and the decisions of the client and server flows.

pub mod client;
pub mod codec;
pub mod client_send;
pub mod decimal;
pub mod fragment;
pub mod handle;
pub mod message;
pub mod progress_stream;
pub mod proxy;
pub mod receive;
pub mod runtime;
pub mod server;
pub mod server_send;
pub mod sort;
pub mod stream;
pub mod tag_generator;
pub mod types;

use vstd::prelude::*;

verus! {

/// std's I/O error, carried through the library's error types.
#[verifier::external_type_specification]
#[verifier::external_body]
pub struct ExIoError(std::io::Error);

/// State progression was interrupted by an event that needs to be handled externally.
#[derive(Clone, Debug, Eq, PartialEq)]
pub enum Interrupt<E> {
    /// An IO operation is necessary. Ignoring this might result in a deadlock on IMAP level.
    Io(Io),
    /// An error occurred. Ignoring this might result in an undefined IMAP state.
    Error(E),
}

/// The user must perform an IO operation to progress the state.
#[derive(Clone, Debug, Eq, PartialEq)]
pub enum Io {
    /// More bytes must be read and passed to [`State::enqueue_input`].
    NeedMoreInput,
    /// Given bytes must be written.
    Output(Vec<u8>),
}

/// State machine with sans I/O pattern: the interface between the protocol flows and the
/// I/O drivers.
pub trait State {
    /// Event emitted while progressing the state.
    type Event;
    /// Error emitted while progressing the state.
    type Error;

    /// Enqueue input bytes for the next [`Self::next`] call.
    fn enqueue_input(&mut self, bytes: &[u8]);

    /// Progress the state until the next event (or interrupt).
    fn next(&mut self) -> Result<Self::Event, Interrupt<Self::Error>>;
}

impl<F: State> State for &mut F {
    type Event = F::Event;
    type Error = F::Error;

    fn enqueue_input(&mut self, bytes: &[u8]) {
        (**self).enqueue_input(bytes);
    }

    fn next(&mut self) -> Result<Self::Event, Interrupt<Self::Error>> {
        (**self).next()
    }
}

} // verus!
