use imap_next::client::{self, Client, CommandHandle};
use imap_next::client_send::{CommandKind, OutgoingCommand};
use imap_next::message::LiteralMode;
use imap_next::codec::Payload;
use imap_next::handle::HandleGeneratorGenerator;
use imap_next::receive::ReceiveState;
use imap_next::server::{Error, Event, NextExpectedMessage, Options, ResponseHandle, Server};
use imap_next::types::Fragment;
use imap_next::{Interrupt, Io};
use imap_types::command::{Command, CommandBody};
use imap_types::response::{Greeting, Response};

type ServerResult = Result<Option<Event<Greeting<'static>, Response<'static>, Payload>>, Interrupt<Error>>;

fn new_server(options: Options) -> Server<Greeting<'static>, Response<'static>> {
    Server::new(
        options,
        HandleGeneratorGenerator::<ResponseHandle>::new().generate(),
        Greeting::ok(None, "hello").unwrap(),
        vec![Fragment::Line { data: b"* OK hello\r\n".to_vec() }],
    )
}

/// Steps the server's receiving until it reports something.
fn receive(server: &mut Server<Greeting<'static>, Response<'static>>, state: &mut ReceiveState) -> ServerResult {
    for _ in 0..100 {
        match server.progress_receive(state) {
            Ok(None) => continue,
            other => return other,
        }
    }
    panic!("receiving does not end")
}

fn send_output(server: &mut Server<Greeting<'static>, Response<'static>>) -> Vec<u8> {
    match server.progress_send::<Payload>() {
        Err(Interrupt::Io(Io::Output(bytes))) => bytes,
        _ => panic!("expected output"),
    }
}

#[test]
fn server_receives_decoded_command() {
    let mut server = new_server(Options::default());
    let mut state = ReceiveState::new(false, Some(1024));
    state.enqueue_input(b"A1 NOOP\r\n");
    match receive(&mut server, &mut state) {
        Ok(Some(Event::CommandReceived { command: Payload::Command(command) })) => {
            assert_eq!(command.tag.inner(), "A1");
            assert!(matches!(command.body, CommandBody::Noop));
        }
        _ => panic!("expected a command"),
    }
    assert!(matches!(receive(&mut server, &mut state), Err(Interrupt::Io(Io::NeedMoreInput))));
}

#[test]
fn server_receives_idle_and_waits_for_decision() {
    let mut server = new_server(Options::default());
    let mut state = ReceiveState::new(false, Some(1024));
    state.enqueue_input(b"A1 IDLE\r\nDONE\r\n");
    assert!(matches!(
        receive(&mut server, &mut state),
        Ok(Some(Event::IdleCommandReceived { tag: Payload::Command(_) }))
    ));
    assert_eq!(server.next_expected_message(), NextExpectedMessage::IdleAccept);
    // Nothing is received until the server user decides.
    assert!(matches!(server.progress_receive(&mut state), Err(Interrupt::Io(Io::NeedMoreInput))));
    let continuation = Response::CommandContinuationRequest(
        imap_types::response::CommandContinuationRequest::basic(None, "idling").unwrap(),
    );
    assert!(server.idle_accept(continuation, vec![]).is_ok());
    assert!(matches!(receive(&mut server, &mut state), Ok(Some(Event::IdleDoneReceived))));
    assert_eq!(server.next_expected_message(), NextExpectedMessage::Command);
}

#[test]
fn server_reports_malformed_command_with_its_bytes() {
    let mut server = new_server(Options::default());
    let mut state = ReceiveState::new(false, Some(1024));
    state.enqueue_input(b"A1 NOPE NOPE\r\nA2 NOOP\r\n");
    match receive(&mut server, &mut state) {
        Err(Interrupt::Error(Error::MalformedMessage { discarded_bytes })) => {
            assert_eq!(discarded_bytes, b"A1 NOPE NOPE\r\n".to_vec());
        }
        _ => panic!("expected a malformed message"),
    }
    assert!(matches!(
        receive(&mut server, &mut state),
        Ok(Some(Event::CommandReceived { command: Payload::Command(_) }))
    ));
}

#[test]
fn server_reports_lf_line_ending() {
    let mut server = new_server(Options::default());
    let mut state = ReceiveState::new(false, Some(1024));
    state.enqueue_input(b"A1 NOOP\n");
    match receive(&mut server, &mut state) {
        Err(Interrupt::Error(Error::ExpectedCrlfGotLf { discarded_bytes })) => {
            assert_eq!(discarded_bytes, b"A1 NOOP\n".to_vec());
        }
        _ => panic!("expected a line ending error"),
    }
}

#[test]
fn server_reports_command_too_long() {
    let mut server = new_server(Options::default());
    let mut state = ReceiveState::new(false, Some(5));
    state.enqueue_input(b"A1 NOOP\r\n");
    match receive(&mut server, &mut state) {
        Err(Interrupt::Error(Error::CommandTooLong { discarded_bytes })) => {
            assert_eq!(discarded_bytes, b"A1 NO".to_vec());
        }
        _ => panic!("expected a command that is too long"),
    }
}

#[test]
fn server_rejects_long_literal_with_bad() {
    let mut options = Options::default();
    options.max_literal_size = 3;
    let mut server = new_server(options);
    let mut state = ReceiveState::new(false, Some(1024));
    state.enqueue_input(b"A1 LOGIN {5}\r\n");
    match receive(&mut server, &mut state) {
        Err(Interrupt::Error(Error::LiteralTooLong { discarded_bytes })) => {
            assert_eq!(discarded_bytes, b"A1 LOGIN {5}\r\n".to_vec());
        }
        _ => panic!("expected a literal that is too long"),
    }
    assert_eq!(send_output(&mut server), b"* OK hello\r\n".to_vec());
    assert!(matches!(server.progress_send::<Payload>(), Ok(Some(Event::GreetingSent { .. }))));
    assert_eq!(send_output(&mut server), b"A1 BAD ...\r\n".to_vec());
}

#[test]
fn server_accepts_literal_with_continuation_request() {
    let mut server = new_server(Options::default());
    let mut state = ReceiveState::new(false, Some(1024));
    state.enqueue_input(b"A1 LOGIN {5}\r\n");
    assert!(matches!(receive(&mut server, &mut state), Err(Interrupt::Io(Io::NeedMoreInput))));
    assert_eq!(send_output(&mut server), b"* OK hello\r\n".to_vec());
    assert!(matches!(server.progress_send::<Payload>(), Ok(Some(Event::GreetingSent { .. }))));
    assert_eq!(send_output(&mut server), b"+ ...\r\n".to_vec());
    state.enqueue_input(b"alice {6}\r\n");
    assert!(matches!(receive(&mut server, &mut state), Err(Interrupt::Io(Io::NeedMoreInput))));
    state.enqueue_input(b"secret\r\n");
    match receive(&mut server, &mut state) {
        Ok(Some(Event::CommandReceived { command: Payload::Command(command) })) => {
            assert_eq!(command.tag.inner(), "A1");
            assert!(matches!(command.body, CommandBody::Login { .. }));
        }
        _ => panic!("expected a command"),
    }
}

#[test]
fn server_receives_authenticate_data() {
    let mut server = new_server(Options::default());
    let mut state = ReceiveState::new(false, Some(1024));
    state.enqueue_input(b"A1 AUTHENTICATE PLAIN\r\nAGFsaWNlAHNlY3JldA==\r\n");
    assert!(matches!(
        receive(&mut server, &mut state),
        Ok(Some(Event::CommandAuthenticateReceived { command_authenticate: Payload::Command(_) }))
    ));
    assert!(matches!(
        receive(&mut server, &mut state),
        Ok(Some(Event::AuthenticateDataReceived { authenticate_data: Payload::AuthenticateData(_) }))
    ));
}

type ClientEvent = client::Event<Command<'static>, Greeting<'static>, Response<'static>>;

fn client_receive(client: &mut Client<Command<'static>>, state: &mut ReceiveState) -> Result<Option<ClientEvent>, Interrupt<client::Error>> {
    for _ in 0..100 {
        match client.progress_receive(state) {
            Ok(None) => continue,
            other => return other,
        }
    }
    panic!("receiving does not end")
}

#[test]
fn client_receives_greeting_then_responses() {
    let mut client = Client::<Command<'static>>::new(
        HandleGeneratorGenerator::<CommandHandle>::new().generate(),
    );
    let mut state = ReceiveState::new(false, Some(1024));
    state.enqueue_input(b"* OK hello\r\n* 3 EXISTS\r\nA1 OK done\r\n+ go on\r\n");
    assert!(matches!(client_receive(&mut client, &mut state), Ok(Some(client::Event::GreetingReceived { .. }))));
    assert!(matches!(client_receive(&mut client, &mut state), Ok(Some(client::Event::DataReceived { .. }))));
    assert!(matches!(client_receive(&mut client, &mut state), Ok(Some(client::Event::StatusReceived { .. }))));
    assert!(matches!(
        client_receive(&mut client, &mut state),
        Ok(Some(client::Event::ContinuationRequestReceived { .. }))
    ));
    assert!(matches!(client_receive(&mut client, &mut state), Err(Interrupt::Io(Io::NeedMoreInput))));
}

#[test]
fn client_reports_malformed_greeting() {
    let mut client = Client::<Command<'static>>::new(
        HandleGeneratorGenerator::<CommandHandle>::new().generate(),
    );
    let mut state = ReceiveState::new(false, Some(1024));
    state.enqueue_input(b"hello\r\n");
    match client_receive(&mut client, &mut state) {
        Err(Interrupt::Error(client::Error::MalformedMessage { discarded_bytes })) => {
            assert_eq!(discarded_bytes, b"hello\r\n".to_vec());
        }
        _ => panic!("expected a malformed message"),
    }
}

#[test]
fn client_reports_response_too_long() {
    let mut client = Client::<Command<'static>>::new(
        HandleGeneratorGenerator::<CommandHandle>::new().generate(),
    );
    let mut state = ReceiveState::new(false, Some(8));
    state.enqueue_input(b"* OK hello\r\n");
    match client_receive(&mut client, &mut state) {
        Err(Interrupt::Error(client::Error::ResponseTooLong { discarded_bytes })) => {
            assert_eq!(discarded_bytes, b"* OK hel".to_vec());
        }
        _ => panic!("expected a response that is too long"),
    }
}

#[test]
fn client_continuation_request_releases_literal() {
    let mut client = Client::<Command<'static>>::new(
        HandleGeneratorGenerator::<CommandHandle>::new().generate(),
    );
    let mut state = ReceiveState::new(false, Some(1024));
    state.enqueue_input(b"* OK hello\r\n");
    assert!(matches!(client_receive(&mut client, &mut state), Ok(Some(client::Event::GreetingReceived { .. }))));
    let command = Command::new("A1", CommandBody::Noop).unwrap();
    client.enqueue_command(OutgoingCommand {
        command,
        tag: b"A1".to_vec(),
        kind: CommandKind::Regular,
        fragments: vec![
            Fragment::Line { data: b"A1 LOGIN {5}\r\n".to_vec() },
            Fragment::Literal { data: b"ABCDE".to_vec(), mode: LiteralMode::Sync },
            Fragment::Line { data: b" FGHIJ\r\n".to_vec() },
        ],
    });
    match client.progress_send::<Greeting<'static>, Response<'static>>() {
        Err(Interrupt::Io(Io::Output(bytes))) => assert_eq!(bytes, b"A1 LOGIN {5}\r\n".to_vec()),
        _ => panic!("expected output"),
    }
    assert!(matches!(client.progress_send::<Greeting<'static>, Response<'static>>(), Ok(None)));
    state.enqueue_input(b"+ go on\r\n");
    // The continuation request is not reported: it releases the literal.
    assert!(matches!(client_receive(&mut client, &mut state), Err(Interrupt::Io(Io::NeedMoreInput))));
    match client.progress_send::<Greeting<'static>, Response<'static>>() {
        Err(Interrupt::Io(Io::Output(bytes))) => assert_eq!(bytes, b"ABCDE FGHIJ\r\n".to_vec()),
        _ => panic!("expected the literal"),
    }
}
