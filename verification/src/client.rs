//! Client side of the IMAP flow: handles of enqueued commands, and the decisions of the client
//! between sending commands and receiving responses.
//!
//! The decisions are generic: `P` is the caller's value of an enqueued command, `G` of a
//! greeting and `R` of a received response, handed in with the parts that the flow reads.
//! With `imap_types`' messages, the client receives greetings and responses itself: it
//! decodes them with `imap_codec`'s codecs.

use std::convert::Infallible;

use crate::client_send::{
    AuthenticateActivityView, ClientSendEvent, ClientSendState, ClientSendStateView,
    ClientSendTermination, CommandActivityView, CurrentMessageView, IdleActivityView, idle_done_line,
    lemma_released_literal_sent_next, literal_released, OutgoingCommand, QueuedMessageView,
    opt_bytes, split_at_sync_literal, spec_terminate, status_view,
};
use crate::handle::{next_handle_id_after, Handle, HandleGenerator, RawHandle};
use crate::codec::{decoding_fits, greeting_decoding, response_decoding, response_shape, ResponseShape};
use crate::receive::{
    fragment_progress, found_of, invalid_line_ending_after, DecodeOutcome, Found,
    ReceiveError, ReceiveProgress, ReceiveState,
};
use crate::types::{StatusInfo, StatusKind};
use imap_types::command::Command;
use imap_types::response::{Greeting, Response};
use crate::{Interrupt, Io};
use vstd::prelude::*;

verus! {

/// Handle for an enqueued command.
///
/// It identifies the command until the client reports that the command was sent or rejected.
#[derive(Clone, Copy, Debug, Eq, PartialEq, Hash)]
pub struct CommandHandle(RawHandle);

impl Handle for CommandHandle {
    closed spec fn raw_spec(&self) -> RawHandle {
        self.0
    }

    fn from_raw(handle: RawHandle) -> (res: Self) {
        Self(handle)
    }
}

/// Options of a client.
#[derive(Clone, Debug, PartialEq)]
#[non_exhaustive]
pub struct Options {
    pub crlf_relaxed: bool,
    /// Max response size that can be parsed by the client.
    ///
    /// Bigger responses raise an error.
    pub max_response_size: u32,
}

impl Default for Options {
    fn default() -> (res: Self)
        ensures
            !res.crlf_relaxed,
            res.max_response_size == 100 * 1024 * 1024,
    {
        Self {
            // Lean towards conformity
            crlf_relaxed: false,
            // We use a value larger than the default `server::Options::max_command_size`
            // because we assume that a client has usually less resource constraints than the
            // server.
            max_response_size: 100 * 1024 * 1024,
        }
    }
}

/// Which message the client expects next from the server.
#[derive(Clone, Copy, Debug, Eq, PartialEq, Structural)]
pub enum NextExpectedMessage {
    Greeting,
    Response,
}

/// What the client reports.
pub enum Event<P, G, R> {
    /// Greeting received.
    GreetingReceived { greeting: G },
    /// Command sent completely.
    CommandSent { handle: CommandHandle, command: P },
    /// Command rejected due to literal, by the status of the server.
    CommandRejected { handle: CommandHandle, command: P, status: R },
    /// AUTHENTICATE sent.
    AuthenticateStarted { handle: CommandHandle },
    /// Server requests (more) authentication data: the client must set it next.
    AuthenticateContinuationRequestReceived { handle: CommandHandle, continuation_request: R },
    /// Status received to authenticate command.
    AuthenticateStatusReceived { handle: CommandHandle, command_authenticate: P, status: R },
    /// IDLE sent.
    IdleCommandSent { handle: CommandHandle },
    /// IDLE accepted by server. Entering IDLE state.
    IdleAccepted { handle: CommandHandle, continuation_request: R },
    /// IDLE rejected by server.
    IdleRejected { handle: CommandHandle, status: R },
    /// DONE sent. Exiting IDLE state.
    IdleDoneSent { handle: CommandHandle },
    /// Server data received.
    DataReceived { data: R },
    /// Server status received.
    StatusReceived { status: R },
    /// Continuation request received that was not part of the client's own handling.
    ContinuationRequestReceived { continuation_request: R },
}

/// A response that was received while responses are expected.
pub enum ReceivedResponse<R> {
    /// A status, with its tag and kind.
    Status { info: StatusInfo, status: R },
    Data { data: R },
    ContinuationRequest { continuation_request: R },
    /// The line announced a literal, which the client accepts in any case.
    LiteralAnnouncement,
}

/// Receiving a message failed; the message was discarded.
#[derive(Debug)]
pub enum Error {
    ExpectedCrlfGotLf { discarded_bytes: Vec<u8> },
    MalformedMessage { discarded_bytes: Vec<u8> },
    ResponseTooLong { discarded_bytes: Vec<u8> },
}

/// The client's error for a receive interrupt.
pub open spec fn client_interrupt(interrupt: Interrupt<ReceiveError>) -> Interrupt<Error> {
    match interrupt {
        Interrupt::Io(io) => Interrupt::Io(io),
        Interrupt::Error(ReceiveError::DecodingFailure { discarded_bytes }) => Interrupt::Error(
            Error::MalformedMessage { discarded_bytes },
        ),
        Interrupt::Error(ReceiveError::ExpectedCrlfGotLf { discarded_bytes }) => Interrupt::Error(
            Error::ExpectedCrlfGotLf { discarded_bytes },
        ),
        Interrupt::Error(ReceiveError::MessageTooLong { discarded_bytes }) => Interrupt::Error(
            Error::ResponseTooLong { discarded_bytes },
        ),
        Interrupt::Error(ReceiveError::MessageIsPoisoned { discarded_bytes }) => Interrupt::Error(
            Error::MalformedMessage { discarded_bytes },
        ),
    }
}

/// Maps a receive interrupt to the client's: I/O passes through, a decoding failure means a
/// malformed message, a message that is too long a response that is too long. The client
/// poisons messages only for their line endings; any other poisoned message is malformed.
pub fn handle_receive_interrupt(interrupt: Interrupt<ReceiveError>) -> (res: Interrupt<Error>)
    ensures
        res == client_interrupt(interrupt),
{
    match interrupt {
        Interrupt::Io(io) => Interrupt::Io(io),
        Interrupt::Error(ReceiveError::DecodingFailure { discarded_bytes }) => {
            Interrupt::Error(Error::MalformedMessage { discarded_bytes })
        },
        Interrupt::Error(ReceiveError::ExpectedCrlfGotLf { discarded_bytes }) => {
            Interrupt::Error(Error::ExpectedCrlfGotLf { discarded_bytes })
        },
        Interrupt::Error(ReceiveError::MessageTooLong { discarded_bytes }) => {
            Interrupt::Error(Error::ResponseTooLong { discarded_bytes })
        },
        Interrupt::Error(ReceiveError::MessageIsPoisoned { discarded_bytes }) => {
            Interrupt::Error(Error::MalformedMessage { discarded_bytes })
        },
    }
}

/// The client's event for what the send queue reports.
pub open spec fn sent_event<P, G, R>(event: ClientSendEvent<P>) -> Event<P, G, R> {
    match event {
        ClientSendEvent::Command { handle, command } => Event::CommandSent { handle, command },
        ClientSendEvent::Authenticate { handle } => Event::AuthenticateStarted { handle },
        ClientSendEvent::Idle { handle } => Event::IdleCommandSent { handle },
        ClientSendEvent::IdleDone { handle } => Event::IdleDoneSent { handle },
    }
}

/// The client's result for a result of the send queue.
pub open spec fn send_result<P, G, R>(
    res: Result<Option<ClientSendEvent<P>>, Interrupt<Infallible>>,
) -> Result<Option<Event<P, G, R>>, Interrupt<Error>> {
    match res {
        Ok(Some(event)) => Ok(Some(sent_event(event))),
        Ok(None) => Ok(None),
        Err(Interrupt::Io(io)) => Err(Interrupt::Io(io)),
        Err(Interrupt::Error(_)) => Ok(None),
    }
}

/// The event for a status that the send queue handled (`termination`) or not.
pub open spec fn status_event<P, G, R>(termination: Option<ClientSendTermination<P>>, status: R) -> Event<
    P,
    G,
    R,
> {
    match termination {
        Some(ClientSendTermination::LiteralRejected { handle, command }) => Event::CommandRejected {
            handle,
            command,
            status,
        },
        Some(ClientSendTermination::AuthenticateAccepted { handle, command_authenticate }) => {
            Event::AuthenticateStatusReceived { handle, command_authenticate, status }
        },
        Some(ClientSendTermination::AuthenticateRejected { handle, command_authenticate }) => {
            Event::AuthenticateStatusReceived { handle, command_authenticate, status }
        },
        Some(ClientSendTermination::IdleRejected { handle }) => Event::IdleRejected { handle, status },
        None => Event::StatusReceived { status },
    }
}

/// Who a continuation request is for: a literal that waits for it, an authentication that
/// waits for it, an IDLE that waits for it, or nobody.
pub open spec fn continuation_target<P>(current: Option<CurrentMessageView<P>>) -> Option<
    CurrentMessageView<P>,
> {
    match current {
        Some(
            CurrentMessageView::Command {
                handle,
                command,
                tag,
                fragments,
                activity: CommandActivityView::WaitingForLiteralAccepted { limbo_literal },
            },
        ) => Some(
            CurrentMessageView::Command {
                handle,
                command,
                tag,
                fragments,
                activity: CommandActivityView::PushingFragments {
                    accepted_literal: Some(limbo_literal),
                },
            },
        ),
        Some(
            CurrentMessageView::Authenticate {
                handle,
                command_authenticate,
                tag,
                activity: AuthenticateActivityView::WaitingForAuthenticateResponse,
            },
        ) => Some(
            CurrentMessageView::Authenticate {
                handle,
                command_authenticate,
                tag,
                activity: AuthenticateActivityView::WaitingForAuthenticateDataSet,
            },
        ),
        Some(
            CurrentMessageView::Idle {
                handle,
                tag,
                activity: IdleActivityView::WaitingForIdleResponse,
            },
        ) => Some(
            CurrentMessageView::Idle {
                handle,
                tag,
                activity: IdleActivityView::WaitingForIdleDoneSet,
            },
        ),
        _ => None,
    }
}

/// The event for a continuation request, given the message being sent; `None` where it
/// released a literal and sending goes on.
pub open spec fn continuation_event<P, G, R>(
    current: Option<CurrentMessageView<P>>,
    continuation_request: R,
) -> Option<Event<P, G, R>> {
    match current {
        Some(
            CurrentMessageView::Command {
                activity: CommandActivityView::WaitingForLiteralAccepted { .. },
                ..
            },
        ) => None,
        Some(
            CurrentMessageView::Authenticate {
                handle,
                activity: AuthenticateActivityView::WaitingForAuthenticateResponse,
                ..
            },
        ) => Some(Event::AuthenticateContinuationRequestReceived { handle, continuation_request }),
        Some(
            CurrentMessageView::Idle {
                handle,
                activity: IdleActivityView::WaitingForIdleResponse,
                ..
            },
        ) => Some(Event::IdleAccepted { handle, continuation_request }),
        _ => Some(Event::ContinuationRequestReceived { continuation_request }),
    }
}

/// What taking `response` does to the client: a status may end the command being sent, and
/// the event reports it; data is reported; a continuation request goes to what waits for
/// it (see [`continuation_target`]); an announced literal changes nothing.
pub open spec fn response_received<P, G, R>(
    before: Client<P>,
    after: Client<P>,
    response: ReceivedResponse<R>,
    res: Option<Event<P, G, R>>,
) -> bool {
    match response {
        ReceivedResponse::Status { info, status } => match before.send_state_spec().current {
            Some(c) => {
                let (current, termination) = spec_terminate(c, status_view(info));
                &&& after.send_state_spec().current == current
                &&& res == Some(status_event::<P, G, R>(termination, status))
            },
            None => {
                &&& (after.send_state_spec().current is None)
                &&& res == Some((Event::<P, G, R>::StatusReceived { status }))
            },
        },
        ReceivedResponse::Data { data } => {
            &&& after.send_state_spec() == before.send_state_spec()
            &&& res == Some((Event::<P, G, R>::DataReceived { data }))
        },
        ReceivedResponse::ContinuationRequest { continuation_request } => {
            &&& res == continuation_event::<P, G, R>(
                before.send_state_spec().current,
                continuation_request,
            )
            &&& after.send_state_spec().current == match continuation_target(
                before.send_state_spec().current,
            ) {
                Some(c) => Some(c),
                None => before.send_state_spec().current,
            }
        },
        ReceivedResponse::LiteralAnnouncement => {
            &&& after.send_state_spec() == before.send_state_spec()
            &&& (res is None)
        },
    }
}

/// The decisions of an IMAP client: commands go out in order once the greeting was received,
/// and received responses are matched against the command being sent.
pub struct Client<P> {
    handle_generator: HandleGenerator<CommandHandle>,
    send_state: ClientSendState<P>,
    next_expected_message: NextExpectedMessage,
}

impl<P> Client<P> {
    pub closed spec fn handle_generator_spec(self) -> HandleGenerator<CommandHandle> {
        self.handle_generator
    }

    pub closed spec fn send_state_spec(self) -> ClientSendStateView<P> {
        self.send_state@
    }

    pub closed spec fn next_expected_message_spec(self) -> NextExpectedMessage {
        self.next_expected_message
    }

    /// Every queued command is well formed.
    pub open spec fn wf(self) -> bool {
        self.send_state_spec().wf()
    }

    /// A client that waits for the greeting and has nothing to send; its handles come from
    /// `handle_generator`.
    pub fn new(handle_generator: HandleGenerator<CommandHandle>) -> (res: Self)
        ensures
            res.handle_generator_spec() == handle_generator,
            res.send_state_spec().queue.len() == 0,
            res.send_state_spec().current is None,
            res.next_expected_message_spec() == NextExpectedMessage::Greeting,
            res.wf(),
    {
        Self {
            handle_generator,
            send_state: ClientSendState::new(),
            next_expected_message: NextExpectedMessage::Greeting,
        }
    }

    /// Which message the client expects next, to decode it accordingly.
    pub fn next_expected_message(&self) -> (res: NextExpectedMessage)
        ensures
            res == self.next_expected_message_spec(),
    {
        self.next_expected_message
    }

    /// Enqueues the command for being sent to the server, with a fresh handle.
    ///
    /// The command is not sent immediately but during one of the next progress steps. All
    /// commands are sent in the same order they have been enqueued.
    pub fn enqueue_command(&mut self, command: OutgoingCommand<P>) -> (res: CommandHandle)
        requires
            command@.well_formed(),
        ensures
            res.raw_spec() == RawHandle::spec_new(
                old(self).handle_generator_spec().generator_id_spec(),
                old(self).handle_generator_spec().next_handle_id_spec(),
            ),
            final(self).handle_generator_spec().generator_id_spec() == old(
                self,
            ).handle_generator_spec().generator_id_spec(),
            final(self).handle_generator_spec().next_handle_id_spec() == next_handle_id_after(
                old(self).handle_generator_spec().next_handle_id_spec(),
            ),
            final(self).send_state_spec().queue == old(self).send_state_spec().queue.push(
                QueuedMessageView { handle: res, command: command@ },
            ),
            final(self).send_state_spec().current == old(self).send_state_spec().current,
            final(self).next_expected_message_spec() == old(self).next_expected_message_spec(),
            old(self).wf() ==> final(self).wf(),
    {
        let handle: CommandHandle = self.handle_generator.generate();
        self.send_state.enqueue_command(handle, command);
        handle
    }

    /// Sends what there is to send, once the greeting was received.
    pub fn progress_send<G, R>(&mut self) -> (res: Result<Option<Event<P, G, R>>, Interrupt<Error>>)
        requires
            old(self).wf(),
        ensures
            final(self).wf(),
            final(self).handle_generator_spec() == old(self).handle_generator_spec(),
            final(self).next_expected_message_spec() == old(self).next_expected_message_spec(),
            old(self).next_expected_message_spec() == NextExpectedMessage::Greeting ==> {
                &&& res == Ok::<Option<Event<P, G, R>>, Interrupt<Error>>(None)
                &&& final(self).send_state_spec() == old(self).send_state_spec()
            },
            old(self).next_expected_message_spec() == NextExpectedMessage::Response ==> (exists|
                sent: Result<Option<ClientSendEvent<P>>, Interrupt<Infallible>>,
            |
                {
                    &&& old(self).send_state_spec().progress_step(final(self).send_state_spec(), sent)
                    &&& res == send_result::<P, G, R>(sent)
                }),
    {
        // Abort if we didn't receive the greeting yet
        if let NextExpectedMessage::Greeting = self.next_expected_message {
            return Ok(None);
        }
        let sent = self.send_state.progress();
        let ghost g = sent;
        let res = match sent {
            Ok(Some(ClientSendEvent::Command { handle, command })) => Ok(
                Some(Event::CommandSent { handle, command }),
            ),
            Ok(Some(ClientSendEvent::Authenticate { handle })) => Ok(
                Some(Event::AuthenticateStarted { handle }),
            ),
            Ok(Some(ClientSendEvent::Idle { handle })) => Ok(Some(Event::IdleCommandSent { handle })),
            Ok(Some(ClientSendEvent::IdleDone { handle })) => Ok(
                Some(Event::IdleDoneSent { handle }),
            ),
            Ok(None) => Ok(None),
            Err(Interrupt::Io(io)) => Err(Interrupt::Io(io)),
            // Sending does not fail.
            Err(Interrupt::Error(_)) => Ok(None),
        };
        assert(res == send_result::<P, G, R>(g));
        res
    }

    /// Takes the greeting, after which responses are expected.
    pub fn receive_greeting<G, R>(&mut self, greeting: G) -> (res: Event<P, G, R>)
        requires
            old(self).next_expected_message_spec() == NextExpectedMessage::Greeting,
        ensures
            res == (Event::<P, G, R>::GreetingReceived { greeting }),
            final(self).next_expected_message_spec() == NextExpectedMessage::Response,
            final(self).send_state_spec() == old(self).send_state_spec(),
            final(self).handle_generator_spec() == old(self).handle_generator_spec(),
    {
        self.next_expected_message = NextExpectedMessage::Response;
        Event::GreetingReceived { greeting }
    }

    /// Takes a response: a status may end the command being sent, a continuation request
    /// may be what a literal, an authentication or an IDLE waits for; everything else is
    /// reported as it is. `None` where nothing is to be reported.
    pub fn receive_response<G, R>(&mut self, response: ReceivedResponse<R>) -> (res: Option<
        Event<P, G, R>,
    >)
        requires
            old(self).next_expected_message_spec() == NextExpectedMessage::Response,
        ensures
            final(self).next_expected_message_spec() == NextExpectedMessage::Response,
            final(self).handle_generator_spec() == old(self).handle_generator_spec(),
            final(self).send_state_spec().queue == old(self).send_state_spec().queue,
            old(self).wf() ==> final(self).wf(),
            response_received(*old(self), *final(self), response, res),
    {
        match response {
            ReceivedResponse::Status { info, status } => {
                let termination = self.send_state.maybe_terminate(&info);
                match termination {
                    Some(ClientSendTermination::LiteralRejected { handle, command }) => Some(
                        Event::CommandRejected { handle, command, status },
                    ),
                    Some(
                        ClientSendTermination::AuthenticateAccepted {
                            handle,
                            command_authenticate,
                        },
                    ) => Some(
                        Event::AuthenticateStatusReceived { handle, command_authenticate, status },
                    ),
                    Some(
                        ClientSendTermination::AuthenticateRejected {
                            handle,
                            command_authenticate,
                        },
                    ) => Some(
                        Event::AuthenticateStatusReceived { handle, command_authenticate, status },
                    ),
                    Some(ClientSendTermination::IdleRejected { handle }) => Some(
                        Event::IdleRejected { handle, status },
                    ),
                    None => Some(Event::StatusReceived { status }),
                }
            },
            ReceivedResponse::Data { data } => Some(Event::DataReceived { data }),
            ReceivedResponse::ContinuationRequest { continuation_request } => {
                if self.send_state.literal_continue() {
                    // We received a continuation request that was necessary for sending a
                    // command. So we abort receiving responses for now and continue with
                    // sending commands.
                    None
                } else if let Some(handle) = self.send_state.authenticate_continue() {
                    Some(Event::AuthenticateContinuationRequestReceived { handle, continuation_request })
                } else if let Some(handle) = self.send_state.idle_continue() {
                    Some(Event::IdleAccepted { handle, continuation_request })
                } else {
                    Some(Event::ContinuationRequestReceived { continuation_request })
                }
            },
            // The client must accept the literal in any case.
            ReceivedResponse::LiteralAnnouncement => None,
        }
    }

    /// Sets the authenticate data that the server requested, as an encoded line.
    pub fn set_authenticate_data(&mut self, authenticate_data: Vec<u8>) -> (res: Result<
        CommandHandle,
        Vec<u8>,
    >)
        ensures
            final(self).next_expected_message_spec() == old(self).next_expected_message_spec(),
            final(self).handle_generator_spec() == old(self).handle_generator_spec(),
            final(self).send_state_spec().queue == old(self).send_state_spec().queue,
            old(self).wf() ==> final(self).wf(),
            match old(self).send_state_spec().current {
                Some(
                    CurrentMessageView::Authenticate {
                        handle,
                        command_authenticate,
                        tag,
                        activity: AuthenticateActivityView::WaitingForAuthenticateDataSet,
                    },
                ) => {
                    &&& res == Ok::<CommandHandle, Vec<u8>>(handle)
                    &&& final(self).send_state_spec().current == Some(
                        CurrentMessageView::Authenticate {
                            handle,
                            command_authenticate,
                            tag,
                            activity: AuthenticateActivityView::PushingAuthenticateData {
                                authenticate_data: authenticate_data@,
                            },
                        },
                    )
                },
                _ => {
                    &&& res == Err::<CommandHandle, Vec<u8>>(authenticate_data)
                    &&& final(self).send_state_spec() == old(self).send_state_spec()
                },
            },
    {
        self.send_state.set_authenticate_data(authenticate_data)
    }

    /// Ends the IDLE that the server accepted: DONE will be sent.
    pub fn set_idle_done(&mut self) -> (res: Option<CommandHandle>)
        ensures
            final(self).next_expected_message_spec() == old(self).next_expected_message_spec(),
            final(self).handle_generator_spec() == old(self).handle_generator_spec(),
            final(self).send_state_spec().queue == old(self).send_state_spec().queue,
            old(self).wf() ==> final(self).wf(),
            match old(self).send_state_spec().current {
                Some(
                    CurrentMessageView::Idle {
                        handle,
                        tag,
                        activity: IdleActivityView::WaitingForIdleDoneSet,
                    },
                ) => {
                    &&& res == Some(handle)
                    &&& final(self).send_state_spec().current == Some(
                        CurrentMessageView::<P>::Idle {
                            handle,
                            tag,
                            activity: IdleActivityView::PushingIdleDone {
                                idle_done: idle_done_line(),
                            },
                        },
                    )
                },
                _ => {
                    &&& (res is None)
                    &&& final(self).send_state_spec() == old(self).send_state_spec()
                },
            },
    {
        self.send_state.set_idle_done()
    }
}

/// A continuation request that arrives while a literal of the command being sent waits for
/// it is not reported: it releases the literal, which the next step of sending outputs,
/// followed by the fragments after it up to the next sync literal (where those bytes are not
/// all empty).
pub proof fn lemma_continuation_request_releases_literal<P, G, R>(
    before: Client<P>,
    after: Client<P>,
    continuation_request: R,
    event: Option<Event<P, G, R>>,
    sent: ClientSendStateView<P>,
    res: Result<Option<ClientSendEvent<P>>, Interrupt<Infallible>>,
)
    requires
        before.send_state_spec().current matches Some(
            CurrentMessageView::Command {
                activity: CommandActivityView::WaitingForLiteralAccepted { .. },
                ..
            },
        ),
        response_received(
            before,
            after,
            ReceivedResponse::ContinuationRequest { continuation_request },
            event,
        ),
        after.send_state_spec().queue == before.send_state_spec().queue,
        after.send_state_spec().progress_step(sent, res),
    ensures
        event is None,
        before.send_state_spec().current matches Some(
            CurrentMessageView::Command {
                fragments,
                activity: CommandActivityView::WaitingForLiteralAccepted { limbo_literal },
                ..
            },
        ) && ((limbo_literal + split_at_sync_literal(fragments).0).len() > 0 ==> (res matches Err(
            Interrupt::Io(Io::Output(bytes)),
        ) && bytes@ == limbo_literal + split_at_sync_literal(fragments).0)),
{
    assert(literal_released(before.send_state_spec(), after.send_state_spec(), true));
    lemma_released_literal_sent_next(
        before.send_state_spec(),
        after.send_state_spec(),
        sent,
        res,
    );
}

/// A tagged status that carries the tag of the IDLE in flight ends that IDLE as rejected,
/// whatever its kind (OK, NO or BAD): the client reports the rejection of that IDLE with the
/// status, and no message is in flight any more, so the commands after it can be sent. A
/// status with another tag, or none, leaves the IDLE in flight and is reported as it is.
pub proof fn lemma_status_ends_idle<P, G, R>(
    before: Client<P>,
    after: Client<P>,
    info: StatusInfo,
    status: R,
    res: Option<Event<P, G, R>>,
)
    requires
        before.send_state_spec().current matches Some(CurrentMessageView::Idle { .. }),
        response_received(before, after, ReceivedResponse::Status { info, status }, res),
    ensures
        before.send_state_spec().current matches Some(CurrentMessageView::Idle { handle, tag, .. })
            && (opt_bytes(info.tag) == Some(tag) ==> {
            &&& res == Some(Event::<P, G, R>::IdleRejected { handle, status })
            &&& after.send_state_spec().current is None
        }) && (opt_bytes(info.tag) != Some(tag) ==> {
            &&& res == Some(Event::<P, G, R>::StatusReceived { status })
            &&& after.send_state_spec().current == before.send_state_spec().current
        }),
{
}

/// A status ends the message in flight only when it carries that message's tag: a BAD for a
/// regular command rejects it (the command is reported rejected), any status for an
/// AUTHENTICATE ends the authentication (reported with the status), any status for an IDLE
/// rejects the IDLE. Ended messages leave nothing in flight. Every other status, and every
/// status while nothing is in flight, is reported as it is and changes nothing.
pub proof fn lemma_status_ends_its_message<P, G, R>(
    before: Client<P>,
    after: Client<P>,
    info: StatusInfo,
    status: R,
    res: Option<Event<P, G, R>>,
)
    requires
        response_received(before, after, ReceivedResponse::Status { info, status }, res),
    ensures
        before.send_state_spec().current matches Some(
            CurrentMessageView::Command { handle, command, tag, .. },
        ) ==> (opt_bytes(info.tag) == Some(tag) && info.kind == StatusKind::Bad ==> {
            &&& res == Some(Event::<P, G, R>::CommandRejected { handle, command, status })
            &&& after.send_state_spec().current is None
        }),
        before.send_state_spec().current matches Some(
            CurrentMessageView::Authenticate { handle, command_authenticate, tag, .. },
        ) ==> (opt_bytes(info.tag) == Some(tag) ==> {
            &&& res == Some(
                Event::<P, G, R>::AuthenticateStatusReceived { handle, command_authenticate, status },
            )
            &&& after.send_state_spec().current is None
        }),
        before.send_state_spec().current matches Some(CurrentMessageView::Idle { handle, tag, .. })
            ==> (opt_bytes(info.tag) == Some(tag) ==> {
            &&& res == Some(Event::<P, G, R>::IdleRejected { handle, status })
            &&& after.send_state_spec().current is None
        }),
        !message_ended_by(before.send_state_spec().current, info) ==> {
            &&& res == Some(Event::<P, G, R>::StatusReceived { status })
            &&& after.send_state_spec().current == before.send_state_spec().current
        },
{
}

/// The status carries the tag of the message in flight and ends it: any status for an
/// AUTHENTICATE or an IDLE, a BAD for a regular command.
pub open spec fn message_ended_by<P>(current: Option<CurrentMessageView<P>>, info: StatusInfo) -> bool {
    match current {
        Some(CurrentMessageView::Command { tag, .. }) => opt_bytes(info.tag) == Some(tag)
            && info.kind == StatusKind::Bad,
        Some(CurrentMessageView::Authenticate { tag, .. }) => opt_bytes(info.tag) == Some(tag),
        Some(CurrentMessageView::Idle { tag, .. }) => opt_bytes(info.tag) == Some(tag),
        None => false,
    }
}

/// `e` is the client's error for a decoding that failed with `outcome`, with the discarded
/// `bytes`: a message over the size limit is a response that is too long, a poisoned one had
/// a line ending that is not allowed where there was one, anything else is malformed.
pub open spec fn decoding_error_is(
    e: Error,
    outcome: DecodeOutcome,
    invalid_line_ending: bool,
    bytes: Seq<u8>,
) -> bool {
    match e {
        Error::ExpectedCrlfGotLf { discarded_bytes } => outcome == DecodeOutcome::MessagePoisoned
            && invalid_line_ending && discarded_bytes@ == bytes,
        Error::MalformedMessage { discarded_bytes } => (outcome == DecodeOutcome::DecodingFailure
            || outcome == DecodeOutcome::DecodingRemainder || (outcome
            == DecodeOutcome::MessagePoisoned && !invalid_line_ending)) && discarded_bytes@ == bytes,
        Error::ResponseTooLong { discarded_bytes } => outcome == DecodeOutcome::MessageTooLong
            && discarded_bytes@ == bytes,
    }
}

/// The response as the client takes it, read as `shape`: a BYE is an untagged status.
pub open spec fn received_of<R>(shape: ResponseShape, response: R) -> ReceivedResponse<R> {
    match shape {
        ResponseShape::Status { tag, kind } => ReceivedResponse::Status {
            info: StatusInfo { tag, kind },
            status: response,
        },
        ResponseShape::Bye => ReceivedResponse::Status {
            info: StatusInfo { tag: None, kind: StatusKind::Okay },
            status: response,
        },
        ResponseShape::Data => ReceivedResponse::Data { data: response },
        ResponseShape::ContinuationRequest => ReceivedResponse::ContinuationRequest {
            continuation_request: response,
        },
    }
}

/// The response as the client takes it, read as `shape`.
pub fn received_response<R>(shape: ResponseShape, response: R) -> (res: ReceivedResponse<R>)
    ensures
        res == received_of(shape, response),
{
    match shape {
        ResponseShape::Status { tag, kind } => ReceivedResponse::Status {
            info: StatusInfo { tag, kind },
            status: response,
        },
        ResponseShape::Bye => ReceivedResponse::Status {
            info: StatusInfo { tag: None, kind: StatusKind::Okay },
            status: response,
        },
        ResponseShape::Data => ReceivedResponse::Data { data: response },
        ResponseShape::ContinuationRequest => ReceivedResponse::ContinuationRequest {
            continuation_request: response,
        },
    }
}

impl Client<Command<'static>> {
    /// A step of receiving responses: a complete message is decoded as the greeting or as a
    /// response, whichever is expected, and taken; an announced literal is received in any
    /// case; otherwise the next fragment is parsed. `Ok(None)` where receiving goes on, or
    /// where a continuation request released a literal and sending goes on.
    pub fn progress_receive(&mut self, receive_state: &mut ReceiveState) -> (res: Result<
        Option<Event<Command<'static>, Greeting<'static>, Response<'static>>>,
        Interrupt<Error>,
    >)
        ensures
            final(self).handle_generator_spec() == old(self).handle_generator_spec(),
            final(self).send_state_spec().queue == old(self).send_state_spec().queue,
            final(receive_state).crlf_relaxed_spec() == old(receive_state).crlf_relaxed_spec(),
            old(self).wf() ==> final(self).wf(),
            match old(receive_state).found_spec() {
                None => {
                    let progress = fragment_progress(old(receive_state).next_fragment_spec());
                    &&& res == if progress is NeedMoreInput {
                        Err::<Option<Event<Command<'static>, Greeting<'static>, Response<'static>>>, Interrupt<Error>>(
                            Interrupt::Io(Io::NeedMoreInput),
                        )
                    } else {
                        Ok(None)
                    }
                    &&& final(receive_state).found_spec() == found_of(progress)
                    &&& final(receive_state).invalid_line_ending() == invalid_line_ending_after(
                        old(receive_state).invalid_line_ending(),
                        old(receive_state).crlf_relaxed_spec(),
                        old(receive_state).next_fragment_spec(),
                    )
                    &&& exists|parsed: int|
                        0 <= parsed <= old(receive_state).unparsed_input().len()
                            && final(receive_state).unparsed_input() == old(
                            receive_state,
                        ).unparsed_input().skip(parsed)
                    &&& *final(self) == *old(self)
                },
                Some(Found::LiteralAnnouncement { .. }) => {
                    &&& res == Ok::<Option<Event<Command<'static>, Greeting<'static>, Response<'static>>>, Interrupt<Error>>(None)
                    &&& final(receive_state).found_spec() is None
                    &&& final(receive_state).fragmentizer_spec() == old(receive_state).fragmentizer_spec()
                    &&& *final(self) == *old(self)
                },
                Some(Found::MessageComplete) => {
                    let fragmentizer = old(receive_state).fragmentizer_spec();
                    let greeting = old(self).next_expected_message_spec() == NextExpectedMessage::Greeting;
                    let outcome = if greeting {
                        greeting_decoding(fragmentizer)
                    } else {
                        response_decoding(fragmentizer)
                    };
                    &&& decoding_fits(fragmentizer, outcome)
                    &&& final(receive_state).found_spec() is None
                    &&& final(receive_state).fragmentizer_spec() == fragmentizer
                    &&& !final(receive_state).invalid_line_ending()
                    &&& outcome != DecodeOutcome::Success ==> {
                        &&& res matches Err(Interrupt::Error(e)) && decoding_error_is(
                            e,
                            outcome,
                            old(receive_state).invalid_line_ending(),
                            old(receive_state).message_bytes(),
                        )
                        &&& *final(self) == *old(self)
                    }
                    &&& (outcome == DecodeOutcome::Success && greeting) ==> {
                        &&& res matches Ok(Some(Event::GreetingReceived { .. }))
                        &&& final(self).next_expected_message_spec() == NextExpectedMessage::Response
                        &&& final(self).send_state_spec() == old(self).send_state_spec()
                    }
                    &&& (outcome == DecodeOutcome::Success && !greeting) ==> {
                        &&& res is Ok
                        &&& final(self).next_expected_message_spec() == NextExpectedMessage::Response
                        &&& exists|response: Response<'static>|
                            #[trigger] response_received(
                                *old(self),
                                *final(self),
                                received_of(response_shape(fragmentizer), response),
                                res->Ok_0,
                            )
                    }
                },
            },
    {
        match receive_state.take_found() {
            None => {
                let ghost before = receive_state.unparsed_input();
                let progress = receive_state.next_fragment();
                proof {
                    let parsed = choose|parsed: int|
                        0 <= parsed <= before.len() && receive_state.unparsed_input() == before.skip(
                            parsed,
                        );
                    assert(before == old(receive_state).unparsed_input());
                    assert(0 <= parsed <= old(receive_state).unparsed_input().len()
                        && receive_state.unparsed_input() == old(receive_state).unparsed_input().skip(parsed));
                }
                match progress {
                    ReceiveProgress::NeedMoreInput => Err(Interrupt::Io(Io::NeedMoreInput)),
                    _ => Ok(None),
                }
            },
            // Unexpected literal in a greeting, let's continue and see what happens; the
            // client accepts the literals of responses in any case.
            Some(Found::LiteralAnnouncement { .. }) => Ok(None),
            Some(Found::MessageComplete) => match self.next_expected_message {
                NextExpectedMessage::Greeting => match receive_state.decode_greeting() {
                    Ok(greeting) => Ok(Some(self.receive_greeting(greeting))),
                    Err(error) => Err(handle_receive_interrupt(Interrupt::Error(error))),
                },
                NextExpectedMessage::Response => match receive_state.decode_response() {
                    Ok((response, shape)) => {
                        let received = received_response(shape, response);
                        Ok(self.receive_response(received))
                    },
                    Err(error) => Err(handle_receive_interrupt(Interrupt::Error(error))),
                },
            },
        }
    }
}

} // verus!
