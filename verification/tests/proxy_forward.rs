use imap_next::client::{self, CommandHandle};
use imap_next::handle::HandleGeneratorGenerator;
use imap_next::proxy::forward::{
    client_side_action, rejection_text, server_side_action, ClientSideAction, RejectionText,
    ServerSideAction,
};
use imap_next::server::{self, ResponseHandle};

#[test]
fn forward_client_side() {
    let command: Result<server::Event<(), (), &str>, server::Error> =
        Ok(server::Event::CommandReceived { command: "A1 NOOP" });
    assert!(matches!(
        client_side_action(command),
        ClientSideAction::EnqueueCommand { command: "A1 NOOP" }
    ));
    let authenticate: Result<server::Event<(), (), &str>, server::Error> =
        Ok(server::Event::CommandAuthenticateReceived { command_authenticate: "A1 AUTHENTICATE PLAIN" });
    assert!(matches!(
        client_side_action(authenticate),
        ClientSideAction::EnqueueCommand { command: "A1 AUTHENTICATE PLAIN" }
    ));
    let data: Result<server::Event<(), (), &str>, server::Error> =
        Ok(server::Event::AuthenticateDataReceived { authenticate_data: "dGVzdA==" });
    assert!(matches!(
        client_side_action(data),
        ClientSideAction::SetAuthenticateData { authenticate_data: "dGVzdA==" }
    ));
    let idle: Result<server::Event<(), (), &str>, server::Error> =
        Ok(server::Event::IdleCommandReceived { tag: "A1" });
    assert!(matches!(client_side_action(idle), ClientSideAction::EnqueueIdle { tag: "A1" }));
    let done: Result<server::Event<(), (), &str>, server::Error> = Ok(server::Event::IdleDoneReceived);
    assert!(matches!(client_side_action(done), ClientSideAction::SetIdleDone));

    let mut generator = HandleGeneratorGenerator::<ResponseHandle>::new().generate();
    let sent: Result<server::Event<(), (), &str>, server::Error> =
        Ok(server::Event::ResponseSent { handle: generator.generate(), response: () });
    assert!(matches!(client_side_action(sent), ClientSideAction::Nothing));
    let discarded: Result<server::Event<(), (), &str>, server::Error> =
        Err(server::Error::MalformedMessage { discarded_bytes: b"I like bananas\r\n".to_vec() });
    assert!(matches!(client_side_action(discarded), ClientSideAction::Nothing));
}

#[test]
fn forward_server_side() {
    let mut generator = HandleGeneratorGenerator::<CommandHandle>::new().generate();
    let handle = generator.generate();

    let rejected: Result<client::Event<&str, (), &str>, client::Error> = Ok(
        client::Event::CommandRejected { handle, command: "A1 LOGIN", status: "A1 BAD" },
    );
    assert!(matches!(
        server_side_action(rejected),
        ServerSideAction::RejectCommand { command: "A1 LOGIN", status: "A1 BAD" }
    ));
    let data: Result<client::Event<&str, (), &str>, client::Error> =
        Ok(client::Event::DataReceived { data: "* CAPABILITY IMAP4REV1" });
    assert!(matches!(
        server_side_action(data),
        ServerSideAction::EnqueueData { data: "* CAPABILITY IMAP4REV1" }
    ));
    let accepted: Result<client::Event<&str, (), &str>, client::Error> =
        Ok(client::Event::IdleAccepted { handle, continuation_request: "+ idling" });
    assert!(matches!(
        server_side_action(accepted),
        ServerSideAction::IdleAccept { continuation_request: "+ idling" }
    ));
    let status: Result<client::Event<&str, (), &str>, client::Error> =
        Ok(client::Event::AuthenticateStatusReceived {
            handle,
            command_authenticate: "A1 AUTHENTICATE PLAIN",
            status: "A1 OK success",
        });
    assert!(matches!(
        server_side_action(status),
        ServerSideAction::AuthenticateFinish { status: "A1 OK success" }
    ));
    let greeting: Result<client::Event<&str, (), &str>, client::Error> =
        Ok(client::Event::GreetingReceived { greeting: () });
    assert!(matches!(server_side_action(greeting), ServerSideAction::Nothing));
    let sent: Result<client::Event<&str, (), &str>, client::Error> =
        Ok(client::Event::CommandSent { handle, command: "A1 NOOP" });
    assert!(matches!(server_side_action(sent), ServerSideAction::Nothing));
    let discarded: Result<client::Event<&str, (), &str>, client::Error> =
        Err(client::Error::ResponseTooLong { discarded_bytes: vec![] });
    assert!(matches!(server_side_action(discarded), ServerSideAction::Nothing));
}

#[test]
fn rejected_command_text() {
    assert_eq!(rejection_text(true), RejectionText::Alert);
    assert_eq!(rejection_text(false), RejectionText::Generic);
}
