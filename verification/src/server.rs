//! Server side of the IMAP flow: handles of enqueued responses, options, and the decisions
//! of the server between sending responses and receiving commands.
//!
//! The decisions are generic: `G` is the caller's value of the greeting, `R` of a response and
//! `C` of a received message, and the caller hands in the encoded fragments of what is to be
//! sent. With `imap_types`' messages, the server receives commands itself: it decodes them
//! with `imap_codec`'s codecs and answers announced literals.

use std::convert::Infallible;

use crate::handle::{next_handle_id_after, Handle, HandleGenerator, RawHandle};
use crate::message::LiteralMode;
use crate::server_send::{send_step, ServerSendEvent, ServerSendState, ServerSendStateView, QueuedMessageView};
use crate::types::{fragment_views, Fragment, FragmentView};
use crate::{Interrupt, Io};
use crate::codec::{
    authenticate_data_decoding, bad_line, command_decoding, decoding_fits, command_kind, continuation_line,
    continuation_text_accepted, decode_message_tag, is_base64_char, encoded_bad_status,
    encoded_continuation_request, idle_done_decoding, message_tag, text_valid, Payload,
};
use crate::receive::{
    fragment_progress, fragmentizer_exceeded, fragmentizer_message, fragmentizer_unparsed, found_of,
    invalid_line_ending_after, DecodeOutcome, Found, ReceiveError, ReceiveProgress, ReceiveState,
};
use imap_codec::fragmentizer::Fragmentizer;
use imap_types::response::{Greeting, Response};
use vstd::prelude::*;

verus! {


/// Replaces `slot` with `text` where the text was `accepted`, and hands it back otherwise.
pub fn replace_if_accepted(slot: &mut String, text: String, accepted: bool) -> (res: Result<
    (),
    String,
>)
    ensures
        accepted ==> res is Ok && final(slot)@ == text@,
        !accepted ==> res == Err::<(), String>(text) && *final(slot) == *old(slot),
{
    if accepted {
        *slot = text;
        Ok(())
    } else {
        Err(text)
    }
}

/// Options of a server.
#[derive(Clone, Debug, PartialEq)]
pub struct Options {
    pub crlf_relaxed: bool,
    /// Max literal size accepted by server.
    ///
    /// Bigger literals are rejected by the server.
    ///
    /// Currently, we don't distinguish between general literals and the literal used in the
    /// APPEND command. However, this might change in the future. Note that
    /// `max_literal_size < max_command_size` must hold.
    pub max_literal_size: u32,
    /// Max command size that can be parsed by the server.
    ///
    /// Bigger commands raise an error.
    pub max_command_size: u32,
    /// Text of the continuation request that accepts a literal.
    literal_accept_text: String,
    /// Text of the continuation request that rejects a literal.
    literal_reject_text: String,
}

impl Options {
    pub closed spec fn crlf_relaxed_spec(&self) -> bool {
        self.crlf_relaxed
    }

    pub closed spec fn max_literal_size_spec(&self) -> u32 {
        self.max_literal_size
    }

    pub closed spec fn max_command_size_spec(&self) -> u32 {
        self.max_command_size
    }

    pub closed spec fn literal_accept_text_spec(&self) -> Seq<char> {
        self.literal_accept_text@
    }

    pub closed spec fn literal_reject_text_spec(&self) -> Seq<char> {
        self.literal_reject_text@
    }

    /// Text of the continuation request that accepts a literal.
    pub fn literal_accept_text(&self) -> (res: &String)
        ensures
            res@ == self.literal_accept_text_spec(),
    {
        &self.literal_accept_text
    }

    /// Sets the text of the continuation request that accepts a literal, where a continuation
    /// request can have it; otherwise the options stay as they are and the text comes back.
    pub fn set_literal_accept_text(&mut self, text: String) -> (res: Result<(), String>)
        ensures
            continuation_text_accepted(text@) ==> res is Ok
                && final(self).literal_accept_text_spec() == text@,
            !continuation_text_accepted(text@) ==> (res == Err::<(), String>(text)
                && *final(self) == *old(self)),
            final(self).literal_reject_text_spec() == old(self).literal_reject_text_spec(),
            final(self).crlf_relaxed_spec() == old(self).crlf_relaxed_spec(),
            final(self).max_literal_size_spec() == old(self).max_literal_size_spec(),
            final(self).max_command_size_spec() == old(self).max_command_size_spec(),
    {
        let accepted = encoded_continuation_request(text.as_str()).is_some();
        replace_if_accepted(&mut self.literal_accept_text, text, accepted)
    }

    /// Text of the continuation request that rejects a literal.
    pub fn literal_reject_text(&self) -> (res: &String)
        ensures
            res@ == self.literal_reject_text_spec(),
    {
        &self.literal_reject_text
    }

    /// Sets the text of the continuation request that rejects a literal, where a continuation
    /// request can have it; otherwise the options stay as they are and the text comes back.
    pub fn set_literal_reject_text(&mut self, text: String) -> (res: Result<(), String>)
        ensures
            continuation_text_accepted(text@) ==> res is Ok
                && final(self).literal_reject_text_spec() == text@,
            !continuation_text_accepted(text@) ==> (res == Err::<(), String>(text)
                && *final(self) == *old(self)),
            final(self).literal_accept_text_spec() == old(self).literal_accept_text_spec(),
            final(self).crlf_relaxed_spec() == old(self).crlf_relaxed_spec(),
            final(self).max_literal_size_spec() == old(self).max_literal_size_spec(),
            final(self).max_command_size_spec() == old(self).max_command_size_spec(),
    {
        let accepted = encoded_continuation_request(text.as_str()).is_some();
        replace_if_accepted(&mut self.literal_reject_text, text, accepted)
    }
}

impl Default for Options {
    fn default() -> (res: Self)
        ensures
            !res.crlf_relaxed_spec(),
            res.max_literal_size_spec() == 25 * 1024 * 1024,
            res.max_command_size_spec() == 25 * 1024 * 1024 + 64 * 1024,
            res.max_literal_size_spec() < res.max_command_size_spec(),
            res.literal_accept_text_spec() == "..."@,
            res.literal_reject_text_spec() == "..."@,
            continuation_text_accepted(res.literal_accept_text_spec()),
            continuation_text_accepted(res.literal_reject_text_spec()),
    {
        proof {
            reveal_strlit("...");
            assert(!is_base64_char("..."@[0]));
        }
        Self {
            // Lean towards conformity
            crlf_relaxed: false,
            // 25 MiB is a common maximum email size (Oct. 2023).
            max_literal_size: 25 * 1024 * 1024,
            // Must be bigger than `max_literal_size`.
            // 64 KiB is used by Dovecot.
            max_command_size: (25 * 1024 * 1024) + (64 * 1024),
            // Short unmeaning text
            literal_accept_text: String::from_str("..."),
            // Short unmeaning text
            literal_reject_text: String::from_str("..."),
        }
    }
}

/// Handle for an enqueued response.
///
/// It identifies the response until the server reports that the response was sent.
#[derive(Clone, Copy, Debug, Eq, PartialEq, Hash)]
pub struct ResponseHandle(RawHandle);

impl Handle for ResponseHandle {
    closed spec fn raw_spec(&self) -> RawHandle {
        self.0
    }

    fn from_raw(raw_handle: RawHandle) -> (res: Self) {
        Self(raw_handle)
    }
}

/// How the server answers a literal that the client announced.
#[derive(Clone, Copy, Debug, Eq, PartialEq)]
pub enum LiteralDecision {
    /// The literal is longer than allowed: the message is discarded, and for a sync literal
    /// the client is told so with a tagged BAD.
    Reject { send_bad: bool },
    /// The literal is accepted; a sync literal needs a continuation request first.
    Accept { send_continuation_request: bool },
}

/// The literal of `length` bytes is rejected exactly when it exceeds `max_literal_size`; the
/// client hears of the decision exactly when the literal is sync.
pub open spec fn literal_decision_of(max_literal_size: u32, length: u32, mode: LiteralMode) -> LiteralDecision {
    if length > max_literal_size {
        LiteralDecision::Reject { send_bad: mode == LiteralMode::Sync }
    } else {
        LiteralDecision::Accept { send_continuation_request: mode == LiteralMode::Sync }
    }
}

/// Whether the decision answers the client: a BAD or a continuation request goes out.
pub open spec fn answers_client(decision: LiteralDecision) -> bool {
    match decision {
        LiteralDecision::Reject { send_bad } => send_bad,
        LiteralDecision::Accept { send_continuation_request } => send_continuation_request,
    }
}

/// Literals are judged by their length alone: a literal is refused exactly when it is longer
/// than the limit, so a shorter literal than an accepted one is accepted too; and the client
/// is answered (BAD or continuation request) exactly for a sync literal, whatever the length.
pub proof fn lemma_literal_decisions(max_literal_size: u32, length: u32, shorter: u32, mode: LiteralMode)
    ensures
        literal_decision_of(max_literal_size, length, mode) is Reject <==> length > max_literal_size,
        answers_client(literal_decision_of(max_literal_size, length, mode)) <==> mode
            == LiteralMode::Sync,
        shorter <= length && literal_decision_of(max_literal_size, length, mode) is Accept
            ==> literal_decision_of(max_literal_size, shorter, mode) is Accept,
        literal_decision_of(max_literal_size, length, LiteralMode::Sync) is Reject
            == literal_decision_of(max_literal_size, length, LiteralMode::NonSync) is Reject,
{
}

pub fn decide_literal(max_literal_size: u32, length: u32, mode: LiteralMode) -> (res: LiteralDecision)
    ensures
        res == literal_decision_of(max_literal_size, length, mode),
{
    if length > max_literal_size {
        match mode {
            // Inform the client that the literal was rejected.
            LiteralMode::Sync => LiteralDecision::Reject { send_bad: true },
            // The client does not wait for our consent; the message is discarded.
            LiteralMode::NonSync => LiteralDecision::Reject { send_bad: false },
        }
    } else {
        match mode {
            // Inform the client that the literal was accepted.
            LiteralMode::Sync => LiteralDecision::Accept { send_continuation_request: true },
            // Non-sync literals are accepted without a word.
            LiteralMode::NonSync => LiteralDecision::Accept { send_continuation_request: false },
        }
    }
}


/// Which message the server expects next from the client.
#[derive(Clone, Copy, Debug, Eq, PartialEq, Structural)]
pub enum NextExpectedMessage {
    Command,
    AuthenticateData,
    /// The server user decides whether to accept an IDLE; nothing is received meanwhile.
    IdleAccept,
    IdleDone,
}

/// What the server reports.
pub enum Event<G, R, C> {
    /// Initial greeting was sent successfully.
    GreetingSent { greeting: G },
    /// Enqueued response was sent successfully.
    ResponseSent { handle: ResponseHandle, response: R },
    /// Command received.
    CommandReceived { command: C },
    /// Command AUTHENTICATE received: the server user must continue or finish the
    /// authentication next.
    CommandAuthenticateReceived { command_authenticate: C },
    /// Continuation to AUTHENTICATE received: the server user must continue or finish the
    /// authentication next.
    AuthenticateDataReceived { authenticate_data: C },
    /// Command IDLE received, with its tag: the server user must accept or reject it next.
    IdleCommandReceived { tag: C },
    IdleDoneReceived,
}

/// Which kind of command was received.
#[derive(Clone, Copy, Debug, Eq, PartialEq, Structural)]
pub enum ReceivedCommandKind {
    Authenticate,
    Idle,
    Other,
}

/// What the receiver found in the client's bytes.
pub enum Received<C> {
    /// A complete command.
    Command { command: C, kind: ReceivedCommandKind },
    /// Complete authenticate data.
    AuthenticateData { authenticate_data: C },
    /// The DONE that ends an IDLE.
    IdleDone,
    /// A command line that announces a literal.
    LiteralFound { length: u32, mode: LiteralMode },
    /// The message could not be decoded.
    DecodingFailed,
    /// A line ended with `\n` where `\r\n` is required.
    ExpectedCrlfGotLf,
    /// The message exceeds the maximum size.
    MessageTooLong,
}

/// Why a received message was discarded.
#[derive(Clone, Copy, Debug, Eq, PartialEq, Structural)]
pub enum ErrorKind {
    ExpectedCrlfGotLf,
    MalformedMessage,
    LiteralTooLong,
    CommandTooLong,
}

/// A received message was discarded.
#[derive(Debug)]
pub enum Error {
    ExpectedCrlfGotLf { discarded_bytes: Vec<u8> },
    MalformedMessage { discarded_bytes: Vec<u8> },
    LiteralTooLong { discarded_bytes: Vec<u8> },
    CommandTooLong { discarded_bytes: Vec<u8> },
}

impl Error {
    /// The error of the given kind, with the bytes of the discarded message.
    pub fn new(kind: ErrorKind, discarded_bytes: Vec<u8>) -> (res: Self)
        ensures
            res == match kind {
                ErrorKind::ExpectedCrlfGotLf => Error::ExpectedCrlfGotLf { discarded_bytes },
                ErrorKind::MalformedMessage => Error::MalformedMessage { discarded_bytes },
                ErrorKind::LiteralTooLong => Error::LiteralTooLong { discarded_bytes },
                ErrorKind::CommandTooLong => Error::CommandTooLong { discarded_bytes },
            },
    {
        match kind {
            ErrorKind::ExpectedCrlfGotLf => Error::ExpectedCrlfGotLf { discarded_bytes },
            ErrorKind::MalformedMessage => Error::MalformedMessage { discarded_bytes },
            ErrorKind::LiteralTooLong => Error::LiteralTooLong { discarded_bytes },
            ErrorKind::CommandTooLong => Error::CommandTooLong { discarded_bytes },
        }
    }
}

/// What the receiving side does with what it found.
pub enum ReceiveAction<G, R, C> {
    /// The message was received completely: report the event.
    Event(Event<G, R, C>),
    /// Discard the message and report the error.
    Discard(ErrorKind),
    /// Answer the announced literal: a rejected literal's message is discarded and reported
    /// as too long, after a tagged BAD with the reject text where `send_bad`; an accepted
    /// literal is received, after a continuation request with the accept text where
    /// `send_continuation_request`.
    Literal { length: u32, decision: LiteralDecision },
}

/// `received` is what can be received while `expected` is expected: commands and their
/// literals, authenticate data, or the DONE of an IDLE; and failures of any.
pub open spec fn receivable<C>(expected: NextExpectedMessage, received: Received<C>) -> bool {
    match received {
        Received::Command { .. } | Received::LiteralFound { .. } => expected
            == NextExpectedMessage::Command,
        Received::AuthenticateData { .. } => expected == NextExpectedMessage::AuthenticateData,
        Received::IdleDone => expected == NextExpectedMessage::IdleDone,
        _ => expected != NextExpectedMessage::IdleAccept,
    }
}

/// The action for what was received, and the message expected after it.
pub open spec fn receive_step<G, R, C>(
    expected: NextExpectedMessage,
    max_literal_size: u32,
    received: Received<C>,
) -> (ReceiveAction<G, R, C>, NextExpectedMessage) {
    match received {
        Received::Command { command, kind } => match kind {
            ReceivedCommandKind::Authenticate => (
                ReceiveAction::Event(
                    Event::CommandAuthenticateReceived { command_authenticate: command },
                ),
                NextExpectedMessage::AuthenticateData,
            ),
            ReceivedCommandKind::Idle => (
                ReceiveAction::Event(Event::IdleCommandReceived { tag: command }),
                NextExpectedMessage::IdleAccept,
            ),
            ReceivedCommandKind::Other => (
                ReceiveAction::Event(Event::CommandReceived { command }),
                expected,
            ),
        },
        Received::AuthenticateData { authenticate_data } => (
            ReceiveAction::Event(Event::AuthenticateDataReceived { authenticate_data }),
            expected,
        ),
        Received::IdleDone => (ReceiveAction::Event(Event::IdleDoneReceived), NextExpectedMessage::Command),
        Received::LiteralFound { length, mode } => (
            ReceiveAction::Literal {
                length,
                decision: literal_decision_of(max_literal_size, length, mode),
            },
            expected,
        ),
        Received::DecodingFailed => (ReceiveAction::Discard(ErrorKind::MalformedMessage), expected),
        Received::ExpectedCrlfGotLf => (
            ReceiveAction::Discard(ErrorKind::ExpectedCrlfGotLf),
            expected,
        ),
        Received::MessageTooLong => (ReceiveAction::Discard(ErrorKind::CommandTooLong), expected),
    }
}

/// The server's result for a result of the send queue: responses that the server made by
/// itself are not reported.
pub open spec fn send_result<G, R, C>(
    res: Result<Option<ServerSendEvent<G, R>>, Interrupt<Infallible>>,
) -> Result<Option<Event<G, R, C>>, Interrupt<Error>> {
    match res {
        Ok(Some(ServerSendEvent::Greeting { greeting })) => Ok(
            Some(Event::GreetingSent { greeting }),
        ),
        Ok(Some(ServerSendEvent::Response { handle: Some(handle), response })) => Ok(
            Some(Event::ResponseSent { handle, response }),
        ),
        Ok(Some(ServerSendEvent::Response { handle: None, .. })) => Ok(None),
        Ok(None) => Ok(None),
        Err(Interrupt::Io(io)) => Err(Interrupt::Io(io)),
        Err(Interrupt::Error(_)) => Ok(None),
    }
}

/// The decisions of an IMAP server: responses go out in the order they were enqueued, and
/// what is received is answered according to the message expected.
pub struct Server<G, R> {
    options: Options,
    handle_generator: HandleGenerator<ResponseHandle>,
    send_state: ServerSendState<G, R>,
    next_expected_message: NextExpectedMessage,
}

impl<G, R> Server<G, R> {
    pub closed spec fn options_spec(self) -> Options {
        self.options
    }

    pub closed spec fn handle_generator_spec(self) -> HandleGenerator<ResponseHandle> {
        self.handle_generator
    }

    pub closed spec fn send_state_spec(self) -> ServerSendStateView<G, R> {
        self.send_state@
    }

    pub closed spec fn next_expected_message_spec(self) -> NextExpectedMessage {
        self.next_expected_message
    }

    /// A server that sends `greeting` first and then expects commands; its handles come from
    /// `handle_generator`.
    pub fn new(
        options: Options,
        handle_generator: HandleGenerator<ResponseHandle>,
        greeting: G,
        greeting_fragments: Vec<Fragment>,
    ) -> (res: Self)
        ensures
            res.options_spec() == options,
            res.handle_generator_spec() == handle_generator,
            res.send_state_spec().queue == seq![
                QueuedMessageView {
                    message: ServerSendEvent::<G, R>::Greeting { greeting },
                    fragments: fragment_views(greeting_fragments@),
                },
            ],
            res.send_state_spec().current is None,
            res.next_expected_message_spec() == NextExpectedMessage::Command,
    {
        let mut send_state = ServerSendState::new();
        send_state.enqueue_greeting(greeting, greeting_fragments);
        let res = Self {
            options,
            handle_generator,
            send_state,
            next_expected_message: NextExpectedMessage::Command,
        };
        assert(res.send_state_spec().queue =~= seq![
            QueuedMessageView {
                message: ServerSendEvent::<G, R>::Greeting { greeting },
                fragments: fragment_views(greeting_fragments@),
            },
        ]);
        res
    }

    pub fn options(&self) -> (res: &Options)
        ensures
            *res == self.options_spec(),
    {
        &self.options
    }

    /// Which message the server expects next, to decode it accordingly.
    pub fn next_expected_message(&self) -> (res: NextExpectedMessage)
        ensures
            res == self.next_expected_message_spec(),
    {
        self.next_expected_message
    }

    /// Enqueues a response of the server user (data, status or continuation request) for
    /// being sent to the client, with a fresh handle.
    ///
    /// The response is not sent immediately but during one of the next progress steps. All
    /// responses are sent in the same order they have been enqueued.
    pub fn enqueue_response(&mut self, response: R, fragments: Vec<Fragment>) -> (res:
        ResponseHandle)
        ensures
            res.raw_spec() == RawHandle::spec_new(
                old(self).handle_generator_spec().generator_id_spec(),
                old(self).handle_generator_spec().next_handle_id_spec(),
            ),
            final(self).handle_generator_spec().generator_id_spec() == old(
                self,
            ).handle_generator_spec().generator_id_spec(),
            final(self).handle_generator_spec().next_handle_id_spec() == next_handle_id_after(
                old(self).handle_generator_spec().next_handle_id_spec(),
            ),
            final(self).send_state_spec().queue == old(self).send_state_spec().queue.push(
                QueuedMessageView {
                    message: ServerSendEvent::Response { handle: Some(res), response },
                    fragments: fragment_views(fragments@),
                },
            ),
            final(self).send_state_spec().current == old(self).send_state_spec().current,
            final(self).next_expected_message_spec() == old(self).next_expected_message_spec(),
            final(self).options_spec() == old(self).options_spec(),
    {
        let handle: ResponseHandle = self.handle_generator.generate();
        self.send_state.enqueue_response(Some(handle), response, fragments);
        handle
    }

    /// Enqueues a response that the server makes by itself, such as the answer to a literal;
    /// it has no handle and is not reported once sent.
    pub fn enqueue_internal_response(&mut self, response: R, fragments: Vec<Fragment>)
        ensures
            final(self).send_state_spec().queue == old(self).send_state_spec().queue.push(
                QueuedMessageView {
                    message: ServerSendEvent::Response { handle: None, response },
                    fragments: fragment_views(fragments@),
                },
            ),
            final(self).send_state_spec().current == old(self).send_state_spec().current,
            final(self).handle_generator_spec() == old(self).handle_generator_spec(),
            final(self).next_expected_message_spec() == old(self).next_expected_message_spec(),
            final(self).options_spec() == old(self).options_spec(),
    {
        self.send_state.enqueue_response(None, response, fragments);
    }

    /// Sends what there is to send.
    pub fn progress_send<C>(&mut self) -> (res: Result<Option<Event<G, R, C>>, Interrupt<Error>>)
        ensures
            final(self).handle_generator_spec() == old(self).handle_generator_spec(),
            final(self).next_expected_message_spec() == old(self).next_expected_message_spec(),
            final(self).options_spec() == old(self).options_spec(),
            exists|step: Result<Option<ServerSendEvent<G, R>>, Interrupt<Infallible>>|
                send_step(old(self).send_state_spec(), final(self).send_state_spec(), step) && res
                    == send_result::<G, R, C>(step),
            match old(self).send_state_spec().current {
                Some(m) => {
                    &&& res == send_result::<G, R, C>(Ok(Some(m)))
                    &&& (final(self).send_state_spec().current is None)
                    &&& final(self).send_state_spec().queue == old(self).send_state_spec().queue
                },
                None => if old(self).send_state_spec().queue.len() == 0 {
                    &&& res == Ok::<Option<Event<G, R, C>>, Interrupt<Error>>(None)
                    &&& final(self).send_state_spec() == old(self).send_state_spec()
                } else {
                    &&& res matches Err(Interrupt::Io(Io::Output(bytes))) && bytes@ == crate::types::flatten(
                        old(self).send_state_spec().queue[0].fragments,
                    )
                    &&& final(self).send_state_spec().current == Some(
                        old(self).send_state_spec().queue[0].message,
                    )
                    &&& final(self).send_state_spec().queue == old(
                        self,
                    ).send_state_spec().queue.drop_first()
                },
            },
    {
        let sent = self.send_state.next();
        let ghost step = sent;
        let res = match sent {
            Ok(Some(ServerSendEvent::Greeting { greeting })) => {
                // The initial greeting was sucessfully sent, inform the caller
                Ok(Some(Event::GreetingSent { greeting }))
            },
            Ok(Some(ServerSendEvent::Response { handle: Some(handle), response })) => {
                // A response was sucessfully sent, inform the caller
                Ok(Some(Event::ResponseSent { handle, response }))
            },
            Ok(Some(ServerSendEvent::Response { handle: None, .. })) => {
                // An internally created response was sent, don't inform the caller
                Ok(None)
            },
            Ok(None) => {
                // No progress yet
                Ok(None)
            },
            Err(Interrupt::Io(io)) => Err(Interrupt::Io(io)),
            // Sending does not fail.
            Err(Interrupt::Error(_)) => Ok(None),
        };
        assert(send_step(old(self).send_state_spec(), self.send_state_spec(), step) && res
            == send_result::<G, R, C>(step));
        res
    }

    /// While the server user decides whether to accept an IDLE, nothing is received: the
    /// driver waits for input.
    pub fn waits_for_idle_decision(&self) -> (res: bool)
        ensures
            res == (self.next_expected_message_spec() == NextExpectedMessage::IdleAccept),
    {
        self.next_expected_message == NextExpectedMessage::IdleAccept
    }

    /// Decides what follows from what was received: AUTHENTICATE leads to authenticate data,
    /// IDLE to the server user's decision and DONE back to commands; an announced literal is
    /// accepted or rejected by its length; failures discard the message.
    pub fn receive<C>(&mut self, received: Received<C>) -> (res: ReceiveAction<G, R, C>)
        requires
            receivable(old(self).next_expected_message_spec(), received),
        ensures
            (res, final(self).next_expected_message_spec()) == receive_step::<G, R, C>(
                old(self).next_expected_message_spec(),
                old(self).options_spec().max_literal_size_spec(),
                received,
            ),
            final(self).send_state_spec() == old(self).send_state_spec(),
            final(self).handle_generator_spec() == old(self).handle_generator_spec(),
            final(self).options_spec() == old(self).options_spec(),
    {
        match received {
            Received::Command { command, kind } => match kind {
                ReceivedCommandKind::Authenticate => {
                    self.next_expected_message = NextExpectedMessage::AuthenticateData;
                    ReceiveAction::Event(
                        Event::CommandAuthenticateReceived { command_authenticate: command },
                    )
                },
                ReceivedCommandKind::Idle => {
                    self.next_expected_message = NextExpectedMessage::IdleAccept;
                    ReceiveAction::Event(Event::IdleCommandReceived { tag: command })
                },
                ReceivedCommandKind::Other => ReceiveAction::Event(
                    Event::CommandReceived { command },
                ),
            },
            Received::AuthenticateData { authenticate_data } => ReceiveAction::Event(
                Event::AuthenticateDataReceived { authenticate_data },
            ),
            Received::IdleDone => {
                self.next_expected_message = NextExpectedMessage::Command;
                ReceiveAction::Event(Event::IdleDoneReceived)
            },
            Received::LiteralFound { length, mode } => {
                let decision = decide_literal(self.options.max_literal_size, length, mode);
                ReceiveAction::Literal { length, decision }
            },
            Received::DecodingFailed => ReceiveAction::Discard(ErrorKind::MalformedMessage),
            Received::ExpectedCrlfGotLf => ReceiveAction::Discard(ErrorKind::ExpectedCrlfGotLf),
            Received::MessageTooLong => ReceiveAction::Discard(ErrorKind::CommandTooLong),
        }
    }

    /// Continues an authentication with a continuation request, while authenticate data is
    /// expected; otherwise the request comes back.
    pub fn authenticate_continue(&mut self, continuation_request: R, fragments: Vec<Fragment>) -> (res:
        Result<ResponseHandle, R>)
        ensures
            old(self).next_expected_message_spec() == NextExpectedMessage::AuthenticateData ==> {
                &&& res is Ok
                &&& final(self).send_state_spec().queue == old(self).send_state_spec().queue.push(
                    QueuedMessageView {
                        message: ServerSendEvent::Response {
                            handle: Some(res->Ok_0),
                            response: continuation_request,
                        },
                        fragments: fragment_views(fragments@),
                    },
                )
                &&& final(self).handle_generator_spec().next_handle_id_spec() == next_handle_id_after(
                    old(self).handle_generator_spec().next_handle_id_spec(),
                )
            },
            old(self).next_expected_message_spec() != NextExpectedMessage::AuthenticateData ==> {
                &&& res == Err::<ResponseHandle, R>(continuation_request)
                &&& final(self).send_state_spec() == old(self).send_state_spec()
                &&& final(self).handle_generator_spec() == old(self).handle_generator_spec()
            },
            final(self).send_state_spec().current == old(self).send_state_spec().current,
            final(self).next_expected_message_spec() == old(self).next_expected_message_spec(),
            final(self).options_spec() == old(self).options_spec(),
    {
        if self.next_expected_message == NextExpectedMessage::AuthenticateData {
            let handle = self.enqueue_response(continuation_request, fragments);
            Ok(handle)
        } else {
            Err(continuation_request)
        }
    }

    /// Finishes an authentication with a status, while authenticate data is expected, after
    /// which commands are expected; otherwise the status comes back.
    pub fn authenticate_finish(&mut self, status: R, fragments: Vec<Fragment>) -> (res: Result<
        ResponseHandle,
        R,
    >)
        ensures
            old(self).next_expected_message_spec() == NextExpectedMessage::AuthenticateData ==> {
                &&& res is Ok
                &&& final(self).send_state_spec().queue == old(self).send_state_spec().queue.push(
                    QueuedMessageView {
                        message: ServerSendEvent::Response {
                            handle: Some(res->Ok_0),
                            response: status,
                        },
                        fragments: fragment_views(fragments@),
                    },
                )
                &&& final(self).next_expected_message_spec() == NextExpectedMessage::Command
            },
            old(self).next_expected_message_spec() != NextExpectedMessage::AuthenticateData ==> {
                &&& res == Err::<ResponseHandle, R>(status)
                &&& final(self).send_state_spec() == old(self).send_state_spec()
                &&& final(self).handle_generator_spec() == old(self).handle_generator_spec()
                &&& final(self).next_expected_message_spec() == old(
                    self,
                ).next_expected_message_spec()
            },
            final(self).send_state_spec().current == old(self).send_state_spec().current,
            final(self).options_spec() == old(self).options_spec(),
    {
        if self.next_expected_message == NextExpectedMessage::AuthenticateData {
            let handle = self.enqueue_response(status, fragments);
            self.next_expected_message = NextExpectedMessage::Command;
            Ok(handle)
        } else {
            Err(status)
        }
    }

    /// Accepts an IDLE with a continuation request, while the decision is awaited, after
    /// which DONE is expected; otherwise the request comes back.
    pub fn idle_accept(&mut self, continuation_request: R, fragments: Vec<Fragment>) -> (res: Result<
        ResponseHandle,
        R,
    >)
        ensures
            old(self).next_expected_message_spec() == NextExpectedMessage::IdleAccept ==> {
                &&& res is Ok
                &&& final(self).send_state_spec().queue == old(self).send_state_spec().queue.push(
                    QueuedMessageView {
                        message: ServerSendEvent::Response {
                            handle: Some(res->Ok_0),
                            response: continuation_request,
                        },
                        fragments: fragment_views(fragments@),
                    },
                )
                &&& final(self).next_expected_message_spec() == NextExpectedMessage::IdleDone
            },
            old(self).next_expected_message_spec() != NextExpectedMessage::IdleAccept ==> {
                &&& res == Err::<ResponseHandle, R>(continuation_request)
                &&& final(self).send_state_spec() == old(self).send_state_spec()
                &&& final(self).handle_generator_spec() == old(self).handle_generator_spec()
                &&& final(self).next_expected_message_spec() == old(
                    self,
                ).next_expected_message_spec()
            },
            final(self).send_state_spec().current == old(self).send_state_spec().current,
            final(self).options_spec() == old(self).options_spec(),
    {
        if self.next_expected_message == NextExpectedMessage::IdleAccept {
            let handle = self.enqueue_response(continuation_request, fragments);
            self.next_expected_message = NextExpectedMessage::IdleDone;
            Ok(handle)
        } else {
            Err(continuation_request)
        }
    }

    /// Rejects an IDLE with a status, while the decision is awaited, after which commands are
    /// expected; otherwise the status comes back.
    pub fn idle_reject(&mut self, status: R, fragments: Vec<Fragment>) -> (res: Result<
        ResponseHandle,
        R,
    >)
        ensures
            old(self).next_expected_message_spec() == NextExpectedMessage::IdleAccept ==> {
                &&& res is Ok
                &&& final(self).send_state_spec().queue == old(self).send_state_spec().queue.push(
                    QueuedMessageView {
                        message: ServerSendEvent::Response {
                            handle: Some(res->Ok_0),
                            response: status,
                        },
                        fragments: fragment_views(fragments@),
                    },
                )
                &&& final(self).next_expected_message_spec() == NextExpectedMessage::Command
            },
            old(self).next_expected_message_spec() != NextExpectedMessage::IdleAccept ==> {
                &&& res == Err::<ResponseHandle, R>(status)
                &&& final(self).send_state_spec() == old(self).send_state_spec()
                &&& final(self).handle_generator_spec() == old(self).handle_generator_spec()
                &&& final(self).next_expected_message_spec() == old(
                    self,
                ).next_expected_message_spec()
            },
            final(self).send_state_spec().current == old(self).send_state_spec().current,
            final(self).options_spec() == old(self).options_spec(),
    {
        if self.next_expected_message == NextExpectedMessage::IdleAccept {
            let handle = self.enqueue_response(status, fragments);
            self.next_expected_message = NextExpectedMessage::Command;
            Ok(handle)
        } else {
            Err(status)
        }
    }
}

/// Only AUTHENTICATE, IDLE and DONE change which message the server expects next:
/// AUTHENTICATE leads to authenticate data, IDLE to the server user's decision about it, and
/// DONE back to commands; everything else that can be received leaves the expectation as it
/// was. While the server user decides about an IDLE, nothing is received.
pub proof fn lemma_receive_changes_expectation<G, R, C>(
    expected: NextExpectedMessage,
    max_literal_size: u32,
    received: Received<C>,
)
    requires
        receivable(expected, received),
    ensures
        expected != NextExpectedMessage::IdleAccept,
        receive_step::<G, R, C>(expected, max_literal_size, received).1 == match received {
            Received::Command { kind: ReceivedCommandKind::Authenticate, .. } => {
                NextExpectedMessage::AuthenticateData
            },
            Received::Command { kind: ReceivedCommandKind::Idle, .. } => {
                NextExpectedMessage::IdleAccept
            },
            Received::IdleDone => NextExpectedMessage::Command,
            _ => expected,
        },
{
}

/// `e` is the error of `kind` with the discarded `bytes`.
pub open spec fn error_is(e: Error, kind: ErrorKind, bytes: Seq<u8>) -> bool {
    match e {
        Error::ExpectedCrlfGotLf { discarded_bytes } => kind == ErrorKind::ExpectedCrlfGotLf
            && discarded_bytes@ == bytes,
        Error::MalformedMessage { discarded_bytes } => kind == ErrorKind::MalformedMessage
            && discarded_bytes@ == bytes,
        Error::LiteralTooLong { discarded_bytes } => kind == ErrorKind::LiteralTooLong
            && discarded_bytes@ == bytes,
        Error::CommandTooLong { discarded_bytes } => kind == ErrorKind::CommandTooLong
            && discarded_bytes@ == bytes,
    }
}

/// How decoding the complete message goes with the codec for the message expected.
pub open spec fn expected_decoding(expected: NextExpectedMessage, fragmentizer: Fragmentizer) -> DecodeOutcome {
    match expected {
        NextExpectedMessage::Command => command_decoding(fragmentizer),
        NextExpectedMessage::AuthenticateData => authenticate_data_decoding(fragmentizer),
        _ => idle_done_decoding(fragmentizer),
    }
}

/// What the flow receives for a decoding that failed with `outcome`: a message over the
/// size limit is too long; a poisoned one had a line ending that is not allowed, where there
/// was one; everything else is a failed decoding.
pub open spec fn failed_decoding(outcome: DecodeOutcome, invalid_line_ending: bool) -> Received<Payload> {
    match outcome {
        DecodeOutcome::MessageTooLong => Received::MessageTooLong,
        DecodeOutcome::MessagePoisoned => if invalid_line_ending {
            Received::ExpectedCrlfGotLf
        } else {
            Received::DecodingFailed
        },
        _ => Received::DecodingFailed,
    }
}

/// `received` is what the flow receives for the complete message of `fragmentizer`, decoded
/// while `expected` is expected: the decoded message where the decoding succeeds (a command
/// of the kind decoded), or the failure.
pub open spec fn received_for(
    expected: NextExpectedMessage,
    fragmentizer: Fragmentizer,
    invalid_line_ending: bool,
    received: Received<Payload>,
) -> bool {
    let outcome = expected_decoding(expected, fragmentizer);
    if outcome == DecodeOutcome::Success {
        match expected {
            NextExpectedMessage::Command => received matches Received::Command {
                command: Payload::Command(_),
                kind,
            } && kind == command_kind(fragmentizer),
            NextExpectedMessage::AuthenticateData => received matches Received::AuthenticateData {
                authenticate_data: Payload::AuthenticateData(_),
            },
            _ => received is IdleDone,
        }
    } else {
        received == failed_decoding(outcome, invalid_line_ending)
    }
}

/// The queue is `before`, with a response of the server's own behind it that is encoded into
/// `fragments`, where there are such.
pub open spec fn internal_pushed<G, R>(
    before: Seq<QueuedMessageView<G, R>>,
    after: Seq<QueuedMessageView<G, R>>,
    fragments: Option<Seq<FragmentView>>,
) -> bool {
    match fragments {
        Some(fragments) => {
            &&& after.len() == before.len() + 1
            &&& after.take(before.len() as int) == before
            &&& after.last().message matches ServerSendEvent::Response { handle: None, .. }
            &&& after.last().fragments == fragments
        },
        None => after == before,
    }
}

/// The BAD that rejects the literal of `message`: the line `<tag> BAD <reject text>\r\n`,
/// where it is to be sent, the message has a tag and the text is status text.
pub open spec fn literal_rejection(message: Seq<u8>, reject_text: Seq<char>, send_bad: bool) -> Option<
    Seq<FragmentView>,
> {
    match message_tag(message) {
        Some(tag) => if send_bad && text_valid(reject_text) {
            Some(seq![FragmentView::Line { data: bad_line(tag, reject_text) }])
        } else {
            None
        },
        None => None,
    }
}

/// The continuation request that accepts a literal: the line `+ <accept text>\r\n`, where it
/// is to be sent and a continuation request can have the text.
pub open spec fn literal_acceptance(accept_text: Seq<char>, send_continuation_request: bool) -> Option<
    Seq<FragmentView>,
> {
    if send_continuation_request && continuation_text_accepted(accept_text) {
        Some(seq![FragmentView::Line { data: continuation_line(accept_text) }])
    } else {
        None
    }
}

/// The receive state after the current message, whose fragmentizer was `fragmentizer`, was
/// discarded: its bytes are gone, the unparsed bytes stay.
pub open spec fn message_discarded(fragmentizer: Fragmentizer, after: ReceiveState) -> bool {
    &&& after.message_bytes() == Seq::<u8>::empty()
    &&& after.unparsed_input() == fragmentizer_unparsed(fragmentizer)
    &&& !after.message_poisoned()
    &&& !after.invalid_line_ending()
}

/// What acting on `action` does, where the fragmentizer was `fragmentizer`: an event is
/// reported; a discarded message is reported as the error with its bytes; a rejected literal
/// discards the message as too long, after a tagged BAD with the reject text where one is to
/// be sent and can be made; an accepted literal is received, after a continuation request
/// with the accept text where one is to be sent and can be made.
pub open spec fn acted(
    before: Server<Greeting<'static>, Response<'static>>,
    after: Server<Greeting<'static>, Response<'static>>,
    fragmentizer: Fragmentizer,
    receive_state: ReceiveState,
    action: ReceiveAction<Greeting<'static>, Response<'static>, Payload>,
    res: Result<Option<Event<Greeting<'static>, Response<'static>, Payload>>, Interrupt<Error>>,
) -> bool {
    let message = fragmentizer_message(fragmentizer);
    &&& receive_state.found_spec() is None
    &&& match action {
        ReceiveAction::Event(event) => {
            &&& res == Ok::<Option<Event<Greeting<'static>, Response<'static>, Payload>>, Interrupt<Error>>(Some(event))
            &&& after.send_state_spec() == before.send_state_spec()
            &&& receive_state.fragmentizer_spec() == fragmentizer
        },
        ReceiveAction::Discard(kind) => {
            &&& res matches Err(Interrupt::Error(e)) && error_is(e, kind, message)
            &&& after.send_state_spec() == before.send_state_spec()
            &&& message_discarded(fragmentizer, receive_state)
        },
        ReceiveAction::Literal { decision: LiteralDecision::Reject { send_bad }, .. } => {
            &&& res matches Err(Interrupt::Error(e)) && error_is(e, ErrorKind::LiteralTooLong, message)
            &&& internal_pushed(
                before.send_state_spec().queue,
                after.send_state_spec().queue,
                literal_rejection(message, before.options_spec().literal_reject_text_spec(), send_bad),
            )
            &&& message_discarded(fragmentizer, receive_state)
        },
        ReceiveAction::Literal {
            decision: LiteralDecision::Accept { send_continuation_request },
            ..
        } => {
            &&& res == Ok::<Option<Event<Greeting<'static>, Response<'static>, Payload>>, Interrupt<Error>>(None)
            &&& internal_pushed(
                before.send_state_spec().queue,
                after.send_state_spec().queue,
                literal_acceptance(
                    before.options_spec().literal_accept_text_spec(),
                    send_continuation_request,
                ),
            )
            &&& receive_state.fragmentizer_spec() == fragmentizer
        },
    }
}

/// A command over the size limit is refused as too long: where the complete message went over
/// the limit, what is received for it is discarded as `CommandTooLong` (with the message's
/// bytes up to the limit, see [`acted`] and `lemma_message_bytes_received`).
pub proof fn lemma_too_long_command_refused(
    expected: NextExpectedMessage,
    fragmentizer: Fragmentizer,
    invalid_line_ending: bool,
    max_literal_size: u32,
    received: Received<Payload>,
)
    requires
        fragmentizer_exceeded(fragmentizer),
        decoding_fits(fragmentizer, expected_decoding(expected, fragmentizer)),
        received_for(expected, fragmentizer, invalid_line_ending, received),
    ensures
        receive_step::<Greeting<'static>, Response<'static>, Payload>(
            expected,
            max_literal_size,
            received,
        ).0 == ReceiveAction::<Greeting<'static>, Response<'static>, Payload>::Discard(
            ErrorKind::CommandTooLong,
        ),
{
}

impl Server<Greeting<'static>, Response<'static>> {
    /// Decodes the complete message with the codec for the message expected, and ends it.
    fn decode_received(&self, receive_state: &mut ReceiveState) -> (res: Received<Payload>)
        ensures
            decoding_fits(
                old(receive_state).fragmentizer_spec(),
                expected_decoding(
                    self.next_expected_message_spec(),
                    old(receive_state).fragmentizer_spec(),
                ),
            ),
            received_for(
                self.next_expected_message_spec(),
                old(receive_state).fragmentizer_spec(),
                old(receive_state).invalid_line_ending(),
                res,
            ),
            final(receive_state).fragmentizer_spec() == old(receive_state).fragmentizer_spec(),
            final(receive_state).crlf_relaxed_spec() == old(receive_state).crlf_relaxed_spec(),
            final(receive_state).found_spec() is None,
    {
        let decoded = match self.next_expected_message {
            NextExpectedMessage::Command => match receive_state.decode_command() {
                Ok((command, kind)) => Ok(Received::Command { command: Payload::Command(command), kind }),
                Err(error) => Err(error),
            },
            NextExpectedMessage::AuthenticateData => match receive_state.decode_authenticate_data() {
                Ok(data) => Ok(Received::AuthenticateData { authenticate_data: Payload::AuthenticateData(data) }),
                Err(error) => Err(error),
            },
            _ => match receive_state.decode_idle_done() {
                Ok(()) => Ok(Received::IdleDone),
                Err(error) => Err(error),
            },
        };
        match decoded {
            Ok(received) => received,
            Err(ReceiveError::DecodingFailure { .. }) => Received::DecodingFailed,
            Err(ReceiveError::ExpectedCrlfGotLf { .. }) => Received::ExpectedCrlfGotLf,
            Err(ReceiveError::MessageTooLong { .. }) => Received::MessageTooLong,
            Err(ReceiveError::MessageIsPoisoned { .. }) => Received::DecodingFailed,
        }
    }

    /// Acts on what the flow decided about what was received.
    fn act(
        &mut self,
        action: ReceiveAction<Greeting<'static>, Response<'static>, Payload>,
        receive_state: &mut ReceiveState,
    ) -> (res: Result<Option<Event<Greeting<'static>, Response<'static>, Payload>>, Interrupt<Error>>)
        requires
            old(receive_state).found_spec() is None,
        ensures
            acted(*old(self), *final(self), old(receive_state).fragmentizer_spec(), *final(receive_state), action, res),
            final(self).options_spec() == old(self).options_spec(),
            final(self).handle_generator_spec() == old(self).handle_generator_spec(),
            final(self).next_expected_message_spec() == old(self).next_expected_message_spec(),
            final(self).send_state_spec().current == old(self).send_state_spec().current,
            final(receive_state).crlf_relaxed_spec() == old(receive_state).crlf_relaxed_spec(),
    {
        let ghost queue = self.send_state_spec().queue;
        match action {
            ReceiveAction::Event(event) => Ok(Some(event)),
            ReceiveAction::Discard(kind) => {
                let discarded_bytes = receive_state.discard_message();
                Err(Interrupt::Error(Error::new(kind, discarded_bytes)))
            },
            ReceiveAction::Literal { decision: LiteralDecision::Reject { send_bad }, .. } => {
                if send_bad {
                    // Inform the client that the literal was rejected.
                    if let Some(tag) = decode_message_tag(receive_state.fragmentizer()) {
                        let text = self.options.literal_reject_text.as_str();
                        if let Some((status, fragments)) = encoded_bad_status(tag.as_slice(), text) {
                            self.enqueue_internal_response(status, fragments);
                            assert(self.send_state_spec().queue.take(queue.len() as int) =~= queue);
                        }
                    }
                }
                let discarded_bytes = receive_state.discard_message();
                Err(Interrupt::Error(Error::new(ErrorKind::LiteralTooLong, discarded_bytes)))
            },
            ReceiveAction::Literal {
                decision: LiteralDecision::Accept { send_continuation_request },
                ..
            } => {
                if send_continuation_request {
                    // Inform the client that the literal was accepted.
                    let text = self.options.literal_accept_text.as_str();
                    if let Some((continuation, fragments)) = encoded_continuation_request(text) {
                        self.enqueue_internal_response(continuation, fragments);
                        assert(self.send_state_spec().queue.take(queue.len() as int) =~= queue);
                    }
                }
                Ok(None)
            },
        }
    }

    /// A step of receiving commands: while the server user decides about an IDLE nothing is
    /// received; otherwise a waiting literal is answered, a complete message decoded with the
    /// codec for the message expected and decided about, or the next fragment parsed.
    /// `Ok(None)` where receiving goes on.
    pub fn progress_receive(&mut self, receive_state: &mut ReceiveState) -> (res: Result<
        Option<Event<Greeting<'static>, Response<'static>, Payload>>,
        Interrupt<Error>,
    >)
        ensures
            final(self).options_spec() == old(self).options_spec(),
            final(self).handle_generator_spec() == old(self).handle_generator_spec(),
            final(self).send_state_spec().current == old(self).send_state_spec().current,
            final(receive_state).crlf_relaxed_spec() == old(receive_state).crlf_relaxed_spec(),
            old(self).next_expected_message_spec() == NextExpectedMessage::IdleAccept ==> {
                &&& res == Err::<Option<Event<Greeting<'static>, Response<'static>, Payload>>, Interrupt<Error>>(
                    Interrupt::Io(Io::NeedMoreInput),
                )
                &&& final(self).send_state_spec() == old(self).send_state_spec()
                &&& final(self).next_expected_message_spec() == NextExpectedMessage::IdleAccept
                &&& *final(receive_state) == *old(receive_state)
            },
            old(self).next_expected_message_spec() != NextExpectedMessage::IdleAccept ==> match old(
                receive_state,
            ).found_spec() {
                None => {
                    let progress = fragment_progress(old(receive_state).next_fragment_spec());
                    &&& res == if progress is NeedMoreInput {
                        Err::<Option<Event<Greeting<'static>, Response<'static>, Payload>>, Interrupt<Error>>(
                            Interrupt::Io(Io::NeedMoreInput),
                        )
                    } else {
                        Ok(None)
                    }
                    &&& final(receive_state).found_spec() == found_of(progress)
                    &&& final(receive_state).invalid_line_ending() == invalid_line_ending_after(
                        old(receive_state).invalid_line_ending(),
                        old(receive_state).crlf_relaxed_spec(),
                        old(receive_state).next_fragment_spec(),
                    )
                    &&& exists|parsed: int|
                        0 <= parsed <= old(receive_state).unparsed_input().len()
                            && final(receive_state).unparsed_input() == old(
                            receive_state,
                        ).unparsed_input().skip(parsed)
                    &&& final(self).send_state_spec() == old(self).send_state_spec()
                    &&& final(self).next_expected_message_spec() == old(self).next_expected_message_spec()
                },
                Some(Found::LiteralAnnouncement { mode, length }) => if old(self).next_expected_message_spec()
                    == NextExpectedMessage::Command {
                    let (action, next) = receive_step::<Greeting<'static>, Response<'static>, Payload>(
                        old(self).next_expected_message_spec(),
                        old(self).options_spec().max_literal_size_spec(),
                        Received::LiteralFound { length, mode },
                    );
                    &&& acted(
                        *old(self),
                        *final(self),
                        old(receive_state).fragmentizer_spec(),
                        *final(receive_state),
                        action,
                        res,
                    )
                    &&& final(self).next_expected_message_spec() == next
                } else {
                    &&& res == Ok::<Option<Event<Greeting<'static>, Response<'static>, Payload>>, Interrupt<Error>>(None)
                    &&& final(receive_state).found_spec() is None
                    &&& final(receive_state).fragmentizer_spec() == old(receive_state).fragmentizer_spec()
                    &&& final(self).send_state_spec() == old(self).send_state_spec()
                    &&& final(self).next_expected_message_spec() == old(self).next_expected_message_spec()
                },
                Some(Found::MessageComplete) => decoding_fits(
                    old(receive_state).fragmentizer_spec(),
                    expected_decoding(
                        old(self).next_expected_message_spec(),
                        old(receive_state).fragmentizer_spec(),
                    ),
                ) && exists|received: Received<Payload>|
                    #[trigger] received_for(
                        old(self).next_expected_message_spec(),
                        old(receive_state).fragmentizer_spec(),
                        old(receive_state).invalid_line_ending(),
                        received,
                    ) && {
                        let (action, next) = receive_step::<Greeting<'static>, Response<'static>, Payload>(
                            old(self).next_expected_message_spec(),
                            old(self).options_spec().max_literal_size_spec(),
                            received,
                        );
                        &&& acted(
                            *old(self),
                            *final(self),
                            old(receive_state).fragmentizer_spec(),
                            *final(receive_state),
                            action,
                            res,
                        )
                        &&& final(self).next_expected_message_spec() == next
                    },
            },
    {
        // We don't expect any message until the server user accepts or rejects IDLE.
        if self.waits_for_idle_decision() {
            return Err(Interrupt::Io(Io::NeedMoreInput));
        }
        match receive_state.take_found() {
            None => {
                let ghost before = receive_state.unparsed_input();
                let progress = receive_state.next_fragment();
                proof {
                    let parsed = choose|parsed: int|
                        0 <= parsed <= before.len() && receive_state.unparsed_input() == before.skip(
                            parsed,
                        );
                    assert(before == old(receive_state).unparsed_input());
                    assert(0 <= parsed <= old(receive_state).unparsed_input().len()
                        && receive_state.unparsed_input() == old(receive_state).unparsed_input().skip(parsed));
                }
                match progress {
                    ReceiveProgress::NeedMoreInput => Err(Interrupt::Io(Io::NeedMoreInput)),
                    _ => Ok(None),
                }
            },
            Some(Found::LiteralAnnouncement { mode, length }) => {
                if self.next_expected_message == NextExpectedMessage::Command {
                    let action = self.receive(Received::LiteralFound { length, mode });
                    self.act(action, receive_state)
                } else {
                    // Only commands have literals; the literal is received without a word.
                    Ok(None)
                }
            },
            Some(Found::MessageComplete) => {
                let received = self.decode_received(receive_state);
                let action = self.receive(received);
                self.act(action, receive_state)
            },
        }
    }
}

} // verus!
