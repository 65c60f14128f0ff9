//! How the proxy forwards between the client it serves and the server it is a client of.
//!
//! The proxy plays server towards the client and client towards the server. Each event of one
//! side becomes an action on the other; capability lists are filtered on the way to the client.

use crate::client;
use crate::server;
use vstd::prelude::*;

verus! {

/// Text of the proxy's continuation request that accepts a client's literal.
pub const LITERAL_ACCEPT_TEXT: &'static str = "proxy: Literal accepted by proxy";

/// Text of the proxy's BAD that rejects a client's literal.
pub const LITERAL_REJECT_TEXT: &'static str = "proxy: Literal rejected by proxy";

/// Text of the proxy's BAD for a command that the server rejected, where the server's own text
/// is not kept.
pub const COMMAND_REJECTED_TEXT: &'static str = "proxy: Command rejected by server";

/// What the proxy does with what its client-facing server reported.
pub enum ClientSideAction<C> {
    /// Nothing is forwarded: the event only concerns the proxy's own sending, or the client's
    /// message was discarded.
    Nothing,
    /// Forward a command (AUTHENTICATE included) to the server.
    EnqueueCommand { command: C },
    /// Forward IDLE, with the client's tag, to the server.
    EnqueueIdle { tag: C },
    /// Forward authenticate data to the server.
    SetAuthenticateData { authenticate_data: C },
    /// End the IDLE at the server.
    SetIdleDone,
}

/// What the proxy does with what its server-facing client reported. Responses marked as
/// filtered have unsupported capabilities removed first.
pub enum ServerSideAction<P, R> {
    /// Nothing is forwarded: the event only concerns the proxy's own sending, or the server's
    /// message was discarded.
    Nothing,
    /// The server rejected the command: the client gets a BAD for the command's tag, with
    /// the text of the server's status where it is an alert.
    RejectCommand { command: P, status: R },
    /// Forward the server's request for more authenticate data.
    AuthenticateContinue { continuation_request: R },
    /// Forward the server's status that ends the authentication.
    AuthenticateFinish { status: R },
    /// Forward data, filtered.
    EnqueueData { data: R },
    /// Forward a status, filtered.
    EnqueueStatus { status: R },
    /// Forward a continuation request, filtered.
    EnqueueContinuationRequest { continuation_request: R },
    /// Forward the server's acceptance of IDLE.
    IdleAccept { continuation_request: R },
    /// Forward the server's rejection of IDLE.
    IdleReject { status: R },
}

/// The action for an event of the client-facing server.
pub open spec fn client_side_action_of<G, R, C>(
    event: Result<server::Event<G, R, C>, server::Error>,
) -> ClientSideAction<C> {
    match event {
        Ok(server::Event::CommandReceived { command }) => ClientSideAction::EnqueueCommand {
            command,
        },
        Ok(server::Event::CommandAuthenticateReceived { command_authenticate }) => {
            ClientSideAction::EnqueueCommand { command: command_authenticate }
        },
        Ok(server::Event::AuthenticateDataReceived { authenticate_data }) => {
            ClientSideAction::SetAuthenticateData { authenticate_data }
        },
        Ok(server::Event::IdleCommandReceived { tag }) => ClientSideAction::EnqueueIdle { tag },
        Ok(server::Event::IdleDoneReceived) => ClientSideAction::SetIdleDone,
        _ => ClientSideAction::Nothing,
    }
}

/// Decides what to forward to the server for an event of the client-facing server: commands,
/// authenticate data and the end of IDLE go on; sent messages and discarded ones do not.
pub fn client_side_action<G, R, C>(event: Result<server::Event<G, R, C>, server::Error>) -> (res:
    ClientSideAction<C>)
    ensures
        res == client_side_action_of(event),
{
    let event = match event {
        Ok(event) => event,
        // The client's message was discarded.
        Err(_) => return ClientSideAction::Nothing,
    };
    match event {
        server::Event::GreetingSent { .. } => ClientSideAction::Nothing,
        server::Event::ResponseSent { .. } => ClientSideAction::Nothing,
        server::Event::CommandReceived { command } => ClientSideAction::EnqueueCommand { command },
        server::Event::CommandAuthenticateReceived { command_authenticate } => {
            ClientSideAction::EnqueueCommand { command: command_authenticate }
        },
        server::Event::AuthenticateDataReceived { authenticate_data } => {
            ClientSideAction::SetAuthenticateData { authenticate_data }
        },
        server::Event::IdleCommandReceived { tag } => ClientSideAction::EnqueueIdle { tag },
        server::Event::IdleDoneReceived => ClientSideAction::SetIdleDone,
    }
}

/// The action for an event of the server-facing client.
pub open spec fn server_side_action_of<P, G, R>(
    event: Result<client::Event<P, G, R>, client::Error>,
) -> ServerSideAction<P, R> {
    match event {
        Ok(client::Event::CommandRejected { command, status, .. }) => {
            ServerSideAction::RejectCommand { command, status }
        },
        Ok(client::Event::AuthenticateContinuationRequestReceived { continuation_request, .. }) => {
            ServerSideAction::AuthenticateContinue { continuation_request }
        },
        Ok(client::Event::AuthenticateStatusReceived { status, .. }) => {
            ServerSideAction::AuthenticateFinish { status }
        },
        Ok(client::Event::DataReceived { data }) => ServerSideAction::EnqueueData { data },
        Ok(client::Event::StatusReceived { status }) => ServerSideAction::EnqueueStatus { status },
        Ok(client::Event::ContinuationRequestReceived { continuation_request }) => {
            ServerSideAction::EnqueueContinuationRequest { continuation_request }
        },
        Ok(client::Event::IdleAccepted { continuation_request, .. }) => {
            ServerSideAction::IdleAccept { continuation_request }
        },
        Ok(client::Event::IdleRejected { status, .. }) => ServerSideAction::IdleReject { status },
        _ => ServerSideAction::Nothing,
    }
}

/// Decides what to forward to the client for an event of the server-facing client: every
/// response of the server goes on, as the answer to what the client is doing where it is one;
/// the greeting was forwarded when the conversation started, and sent commands and discarded
/// messages do not go on.
pub fn server_side_action<P, G, R>(event: Result<client::Event<P, G, R>, client::Error>) -> (res:
    ServerSideAction<P, R>)
    ensures
        res == server_side_action_of(event),
{
    let event = match event {
        Ok(event) => event,
        // The server's message was discarded.
        Err(_) => return ServerSideAction::Nothing,
    };
    match event {
        // The greeting is received only at the beginning, where it was already forwarded.
        client::Event::GreetingReceived { .. } => ServerSideAction::Nothing,
        client::Event::CommandSent { .. } => ServerSideAction::Nothing,
        client::Event::CommandRejected { command, status, .. } => {
            ServerSideAction::RejectCommand { command, status }
        },
        client::Event::AuthenticateStarted { .. } => ServerSideAction::Nothing,
        client::Event::AuthenticateContinuationRequestReceived { continuation_request, .. } => {
            ServerSideAction::AuthenticateContinue { continuation_request }
        },
        client::Event::AuthenticateStatusReceived { status, .. } => {
            ServerSideAction::AuthenticateFinish { status }
        },
        client::Event::IdleCommandSent { .. } => ServerSideAction::Nothing,
        client::Event::IdleAccepted { continuation_request, .. } => {
            ServerSideAction::IdleAccept { continuation_request }
        },
        client::Event::IdleRejected { status, .. } => ServerSideAction::IdleReject { status },
        client::Event::IdleDoneSent { .. } => ServerSideAction::Nothing,
        client::Event::DataReceived { data } => ServerSideAction::EnqueueData { data },
        client::Event::StatusReceived { status } => ServerSideAction::EnqueueStatus { status },
        client::Event::ContinuationRequestReceived { continuation_request } => {
            ServerSideAction::EnqueueContinuationRequest { continuation_request }
        },
    }
}

/// The server's response that an event of the server-facing client carries, if any.
pub open spec fn response_of_event<P, G, R>(event: client::Event<P, G, R>) -> Option<R> {
    match event {
        client::Event::CommandRejected { status, .. } => Some(status),
        client::Event::AuthenticateContinuationRequestReceived { continuation_request, .. } => Some(
            continuation_request,
        ),
        client::Event::AuthenticateStatusReceived { status, .. } => Some(status),
        client::Event::IdleAccepted { continuation_request, .. } => Some(continuation_request),
        client::Event::IdleRejected { status, .. } => Some(status),
        client::Event::DataReceived { data } => Some(data),
        client::Event::StatusReceived { status } => Some(status),
        client::Event::ContinuationRequestReceived { continuation_request } => Some(
            continuation_request,
        ),
        _ => None,
    }
}

/// The server's response that an action passes on to the client, if any.
pub open spec fn response_of_action<P, R>(action: ServerSideAction<P, R>) -> Option<R> {
    match action {
        ServerSideAction::Nothing => None,
        ServerSideAction::RejectCommand { status, .. } => Some(status),
        ServerSideAction::AuthenticateContinue { continuation_request } => Some(continuation_request),
        ServerSideAction::AuthenticateFinish { status } => Some(status),
        ServerSideAction::EnqueueData { data } => Some(data),
        ServerSideAction::EnqueueStatus { status } => Some(status),
        ServerSideAction::EnqueueContinuationRequest { continuation_request } => Some(
            continuation_request,
        ),
        ServerSideAction::IdleAccept { continuation_request } => Some(continuation_request),
        ServerSideAction::IdleReject { status } => Some(status),
    }
}

/// The proxy drops no response of the server: for every event of the server-facing client,
/// the action passes on exactly the response that the event carries, and does nothing only
/// where the event carries none. A response that answers nothing of the client's goes on as
/// what it is: data as data, a status as a status, a continuation request as one.
pub proof fn lemma_server_responses_forwarded<P, G, R>(event: client::Event<P, G, R>)
    ensures
        response_of_action(server_side_action_of(Ok::<client::Event<P, G, R>, client::Error>(event)))
            == response_of_event(event),
        server_side_action_of(Ok::<client::Event<P, G, R>, client::Error>(event)) is Nothing
            <==> response_of_event(event) is None,
        event is DataReceived ==> server_side_action_of(
            Ok::<client::Event<P, G, R>, client::Error>(event),
        ) is EnqueueData,
        event is StatusReceived ==> server_side_action_of(
            Ok::<client::Event<P, G, R>, client::Error>(event),
        ) is EnqueueStatus,
        event is ContinuationRequestReceived ==> server_side_action_of(
            Ok::<client::Event<P, G, R>, client::Error>(event),
        ) is EnqueueContinuationRequest,
{
}

/// What the client sent, as the client-facing server reported it, if the event is about
/// something received: the command, IDLE's tag or authenticate data.
pub open spec fn message_of_event<G, R, C>(event: server::Event<G, R, C>) -> Option<C> {
    match event {
        server::Event::CommandReceived { command } => Some(command),
        server::Event::CommandAuthenticateReceived { command_authenticate } => Some(
            command_authenticate,
        ),
        server::Event::AuthenticateDataReceived { authenticate_data } => Some(authenticate_data),
        server::Event::IdleCommandReceived { tag } => Some(tag),
        _ => None,
    }
}

/// What an action passes on to the server, if anything of the client's.
pub open spec fn message_of_action<C>(action: ClientSideAction<C>) -> Option<C> {
    match action {
        ClientSideAction::EnqueueCommand { command } => Some(command),
        ClientSideAction::EnqueueIdle { tag } => Some(tag),
        ClientSideAction::SetAuthenticateData { authenticate_data } => Some(authenticate_data),
        _ => None,
    }
}

/// The proxy drops nothing that the client sends: every command, IDLE, authenticate data and
/// DONE received goes on to the server, carrying what was received, and only the reports of
/// the proxy's own sending and discarded messages lead to nothing. IDLE goes on as IDLE and
/// authenticate data as authenticate data.
pub proof fn lemma_client_messages_forwarded<G, R, C>(event: server::Event<G, R, C>)
    ensures
        message_of_action(client_side_action_of(Ok::<server::Event<G, R, C>, server::Error>(event)))
            == message_of_event(event),
        event is IdleDoneReceived ==> client_side_action_of(
            Ok::<server::Event<G, R, C>, server::Error>(event),
        ) is SetIdleDone,
        client_side_action_of(Ok::<server::Event<G, R, C>, server::Error>(event)) is Nothing
            <==> (message_of_event(event) is None && !(event is IdleDoneReceived)),
        event is IdleCommandReceived ==> client_side_action_of(
            Ok::<server::Event<G, R, C>, server::Error>(event),
        ) is EnqueueIdle,
        event is AuthenticateDataReceived ==> client_side_action_of(
            Ok::<server::Event<G, R, C>, server::Error>(event),
        ) is SetAuthenticateData,
{
}

/// Which text the BAD for a rejected command carries.
#[derive(Clone, Copy, Debug, Eq, PartialEq, Structural)]
pub enum RejectionText {
    /// The text of the server's status, which is an alert: it must be shown to the user.
    Alert,
    /// A generic text, since the server's code and text might be misleading.
    Generic,
}

/// The BAD for a rejected command keeps the server's text exactly when its status is an
/// alert.
pub fn rejection_text(status_is_alert: bool) -> (res: RejectionText)
    ensures
        res == (if status_is_alert {
            RejectionText::Alert
        } else {
            RejectionText::Generic
        }),
{
    if status_is_alert {
        // Keep the alert message because it MUST be displayed to the user
        RejectionText::Alert
    } else {
        // Use a generic message because the code and text of the server might mislead
        RejectionText::Generic
    }
}

} // verus!
