use imap_next::client::{
    handle_receive_interrupt, Client, CommandHandle, Error, Event, NextExpectedMessage, Options,
    ReceivedResponse,
};
use imap_next::client_send::{CommandKind, OutgoingCommand};
use imap_next::handle::HandleGeneratorGenerator;
use imap_next::message::LiteralMode;
use imap_next::receive::ReceiveError;
use imap_next::types::{Fragment, StatusInfo, StatusKind};
use imap_next::{Interrupt, Io};

fn line(bytes: &[u8]) -> Fragment {
    Fragment::Line { data: bytes.to_vec() }
}

fn literal(bytes: &[u8]) -> Fragment {
    Fragment::Literal { data: bytes.to_vec(), mode: LiteralMode::Sync }
}

fn login_command() -> OutgoingCommand<&'static str> {
    OutgoingCommand {
        command: "login",
        tag: b"A1".to_vec(),
        kind: CommandKind::Regular,
        fragments: vec![
            line(b"A1 LOGIN {5}\r\n"),
            literal(b"ABCDE"),
            line(b" {5}\r\n"),
            literal(b"FGHIJ"),
            line(b"\r\n"),
        ],
    }
}

fn new_client() -> Client<&'static str> {
    Client::new(HandleGeneratorGenerator::<CommandHandle>::new().generate())
}

fn output(result: Result<Option<Event<&'static str, (), u8>>, Interrupt<Error>>) -> Vec<u8> {
    match result {
        Err(Interrupt::Io(Io::Output(bytes))) => bytes,
        _ => panic!("expected output"),
    }
}

fn nothing(result: Result<Option<Event<&'static str, (), u8>>, Interrupt<Error>>) -> bool {
    matches!(result, Ok(None))
}

#[test]
fn client_options_default() {
    let options = Options::default();
    assert!(!options.crlf_relaxed);
    assert_eq!(options.max_response_size, 104857600);
}

#[test]
fn client_sends_nothing_before_greeting() {
    let mut client = new_client();
    let handle = client.enqueue_command(OutgoingCommand {
        command: "noop",
        tag: b"A1".to_vec(),
        kind: CommandKind::Regular,
        fragments: vec![line(b"A1 NOOP\r\n")],
    });
    assert_eq!(client.next_expected_message(), NextExpectedMessage::Greeting);
    assert!(nothing(client.progress_send::<(), u8>()));

    let event: Event<&str, &str, u8> = client.receive_greeting("* OK ...\r\n");
    assert!(matches!(event, Event::GreetingReceived { greeting: "* OK ...\r\n" }));
    assert_eq!(client.next_expected_message(), NextExpectedMessage::Response);

    assert_eq!(output(client.progress_send::<(), u8>()), b"A1 NOOP\r\n".to_vec());
    match client.progress_send::<(), u8>() {
        Ok(Some(Event::CommandSent { handle: sent, command: "noop" })) => assert_eq!(sent, handle),
        _ => panic!("expected CommandSent"),
    }
    assert!(nothing(client.progress_send::<(), u8>()));
}

#[test]
fn client_login_with_literal() {
    let mut client = new_client();
    let _: Event<&str, (), u8> = client.receive_greeting(());
    let handle = client.enqueue_command(login_command());

    assert_eq!(output(client.progress_send::<(), u8>()), b"A1 LOGIN {5}\r\n".to_vec());
    // The literal waits for the server's consent.
    assert!(nothing(client.progress_send::<(), u8>()));
    assert!(client
        .receive_response::<(), u8>(ReceivedResponse::ContinuationRequest {
            continuation_request: 1
        })
        .is_none());
    assert_eq!(output(client.progress_send::<(), u8>()), b"ABCDE {5}\r\n".to_vec());
    assert!(nothing(client.progress_send::<(), u8>()));
    assert!(client
        .receive_response::<(), u8>(ReceivedResponse::ContinuationRequest {
            continuation_request: 2
        })
        .is_none());
    assert_eq!(output(client.progress_send::<(), u8>()), b"FGHIJ\r\n".to_vec());
    match client.progress_send::<(), u8>() {
        Ok(Some(Event::CommandSent { handle: sent, command: "login" })) => {
            assert_eq!(sent, handle)
        }
        _ => panic!("expected CommandSent"),
    }

    // A status after the command is reported as it is.
    let status = client.receive_response::<(), u8>(ReceivedResponse::Status {
        info: StatusInfo { tag: Some(b"A1".to_vec()), kind: StatusKind::No },
        status: 7,
    });
    assert!(matches!(status, Some(Event::StatusReceived { status: 7 })));
}

#[test]
fn client_login_with_rejected_literal() {
    let mut client = new_client();
    let _: Event<&str, (), u8> = client.receive_greeting(());
    let handle = client.enqueue_command(login_command());

    assert_eq!(output(client.progress_send::<(), u8>()), b"A1 LOGIN {5}\r\n".to_vec());
    assert!(nothing(client.progress_send::<(), u8>()));

    // A tagged NO does not reject the literal, a tagged BAD of another tag neither.
    let no = client.receive_response::<(), u8>(ReceivedResponse::Status {
        info: StatusInfo { tag: Some(b"A1".to_vec()), kind: StatusKind::No },
        status: 1,
    });
    assert!(matches!(no, Some(Event::StatusReceived { status: 1 })));
    let other = client.receive_response::<(), u8>(ReceivedResponse::Status {
        info: StatusInfo { tag: Some(b"A2".to_vec()), kind: StatusKind::Bad },
        status: 2,
    });
    assert!(matches!(other, Some(Event::StatusReceived { status: 2 })));

    let bad = client.receive_response::<(), u8>(ReceivedResponse::Status {
        info: StatusInfo { tag: Some(b"A1".to_vec()), kind: StatusKind::Bad },
        status: 3,
    });
    match bad {
        Some(Event::CommandRejected { handle: rejected, command: "login", status: 3 }) => {
            assert_eq!(rejected, handle)
        }
        _ => panic!("expected CommandRejected"),
    }
    assert!(nothing(client.progress_send::<(), u8>()));
}

#[test]
fn client_idle_accepted_and_done() {
    let mut client = new_client();
    let _: Event<&str, (), u8> = client.receive_greeting(());
    let idle = OutgoingCommand {
        command: "idle",
        tag: b"A1".to_vec(),
        kind: CommandKind::Idle,
        fragments: vec![line(b"A1 IDLE\r\n")],
    };
    assert!(idle.is_well_formed());
    let handle = client.enqueue_command(idle);

    assert_eq!(output(client.progress_send::<(), u8>()), b"A1 IDLE\r\n".to_vec());
    assert!(matches!(
        client.progress_send::<(), u8>(),
        Ok(Some(Event::IdleCommandSent { .. }))
    ));
    // DONE cannot be set before the server accepted IDLE.
    assert_eq!(client.set_idle_done(), None);
    match client.receive_response::<(), u8>(ReceivedResponse::ContinuationRequest {
        continuation_request: 9,
    }) {
        Some(Event::IdleAccepted { handle: accepted, continuation_request: 9 }) => {
            assert_eq!(accepted, handle)
        }
        _ => panic!("expected IdleAccepted"),
    }
    // Data received while idling is reported.
    assert!(matches!(
        client.receive_response::<(), u8>(ReceivedResponse::Data { data: 4 }),
        Some(Event::DataReceived { data: 4 })
    ));
    assert_eq!(client.set_idle_done(), Some(handle));
    assert_eq!(output(client.progress_send::<(), u8>()), b"DONE\r\n".to_vec());
    match client.progress_send::<(), u8>() {
        Ok(Some(Event::IdleDoneSent { handle: done })) => assert_eq!(done, handle),
        _ => panic!("expected IdleDoneSent"),
    }
}

#[test]
fn client_idle_rejected() {
    let mut client = new_client();
    let _: Event<&str, (), u8> = client.receive_greeting(());
    let handle = client.enqueue_command(OutgoingCommand {
        command: "idle",
        tag: b"A1".to_vec(),
        kind: CommandKind::Idle,
        fragments: vec![line(b"A1 IDLE\r\n")],
    });
    assert_eq!(output(client.progress_send::<(), u8>()), b"A1 IDLE\r\n".to_vec());
    assert!(matches!(
        client.progress_send::<(), u8>(),
        Ok(Some(Event::IdleCommandSent { .. }))
    ));
    match client.receive_response::<(), u8>(ReceivedResponse::Status {
        info: StatusInfo { tag: Some(b"A1".to_vec()), kind: StatusKind::No },
        status: 5,
    }) {
        Some(Event::IdleRejected { handle: rejected, status: 5 }) => assert_eq!(rejected, handle),
        _ => panic!("expected IdleRejected"),
    }
}

#[test]
fn client_authenticate_with_more_data() {
    let mut client = new_client();
    let _: Event<&str, (), u8> = client.receive_greeting(());
    let handle = client.enqueue_command(OutgoingCommand {
        command: "authenticate",
        tag: b"A1".to_vec(),
        kind: CommandKind::Authenticate,
        fragments: vec![line(b"A1 AUTHENTICATE PLAIN\r\n")],
    });
    assert_eq!(
        output(client.progress_send::<(), u8>()),
        b"A1 AUTHENTICATE PLAIN\r\n".to_vec()
    );
    assert!(matches!(
        client.progress_send::<(), u8>(),
        Ok(Some(Event::AuthenticateStarted { .. }))
    ));
    // Data is not accepted before the server asked for it.
    assert_eq!(
        client.set_authenticate_data(b"x\r\n".to_vec()),
        Err(b"x\r\n".to_vec())
    );
    match client.receive_response::<(), u8>(ReceivedResponse::ContinuationRequest {
        continuation_request: 0,
    }) {
        Some(Event::AuthenticateContinuationRequestReceived { handle: h, .. }) => {
            assert_eq!(h, handle)
        }
        _ => panic!("expected a continuation request for the authentication"),
    }
    assert_eq!(
        client.set_authenticate_data(b"dGVzdAB0ZXN0AHRlc3Q=\r\n".to_vec()),
        Ok(handle)
    );
    assert_eq!(
        output(client.progress_send::<(), u8>()),
        b"dGVzdAB0ZXN0AHRlc3Q=\r\n".to_vec()
    );
    assert!(nothing(client.progress_send::<(), u8>()));
    match client.receive_response::<(), u8>(ReceivedResponse::Status {
        info: StatusInfo { tag: Some(b"A1".to_vec()), kind: StatusKind::Okay },
        status: 8,
    }) {
        Some(Event::AuthenticateStatusReceived { handle: h, command_authenticate: "authenticate", status: 8 }) => {
            assert_eq!(h, handle)
        }
        _ => panic!("expected AuthenticateStatusReceived"),
    }
}

#[test]
fn client_unexpected_continuation_and_literal_announcement() {
    let mut client: Client<&str> = new_client();
    let _: Event<&str, (), u8> = client.receive_greeting(());
    assert!(matches!(
        client.receive_response::<(), u8>(ReceivedResponse::ContinuationRequest {
            continuation_request: 3
        }),
        Some(Event::ContinuationRequestReceived { continuation_request: 3 })
    ));
    assert!(client
        .receive_response::<(), u8>(ReceivedResponse::LiteralAnnouncement)
        .is_none());
}

#[test]
fn client_receive_errors() {
    let error = handle_receive_interrupt(Interrupt::Error(ReceiveError::DecodingFailure {
        discarded_bytes: b"x".to_vec(),
    }));
    assert!(matches!(error, Interrupt::Error(Error::MalformedMessage { discarded_bytes }) if discarded_bytes == b"x"));
    let error = handle_receive_interrupt(Interrupt::Error(ReceiveError::ExpectedCrlfGotLf {
        discarded_bytes: b"y".to_vec(),
    }));
    assert!(matches!(error, Interrupt::Error(Error::ExpectedCrlfGotLf { .. })));
    let error = handle_receive_interrupt(Interrupt::Error(ReceiveError::MessageTooLong {
        discarded_bytes: vec![],
    }));
    assert!(matches!(error, Interrupt::Error(Error::ResponseTooLong { .. })));
    let io = handle_receive_interrupt(Interrupt::Io(Io::NeedMoreInput));
    assert!(matches!(io, Interrupt::Io(Io::NeedMoreInput)));
}

#[test]
fn client_command_handles_differ() {
    let mut client: Client<&str> = new_client();
    let first = client.enqueue_command(OutgoingCommand {
        command: "a",
        tag: b"A1".to_vec(),
        kind: CommandKind::Regular,
        fragments: vec![line(b"A1 NOOP\r\n")],
    });
    let second = client.enqueue_command(OutgoingCommand {
        command: "b",
        tag: b"A2".to_vec(),
        kind: CommandKind::Regular,
        fragments: vec![line(b"A2 NOOP\r\n")],
    });
    assert_ne!(first, second);
}
