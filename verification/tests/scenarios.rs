use imap_codec::decode::Decoder;
use imap_codec::encode::{Encoder, Fragment as CodecFragment};
use imap_codec::{CommandCodec, GreetingCodec, ResponseCodec};
use imap_next::client::{self, Client, CommandHandle};
use imap_next::client_send::{CommandKind, OutgoingCommand};
use imap_next::codec::Payload;
use imap_next::handle::HandleGeneratorGenerator;
use imap_next::message::LiteralMode;
use imap_next::receive::ReceiveState;
use imap_next::server::{Error, Event, Options, ResponseHandle, Server};
use imap_next::types::Fragment;
use imap_next::{Interrupt, Io};
use imap_types::command::{Command, CommandBody};
use imap_types::response::{Greeting, Response};
use imap_types::IntoStatic;

type ServerEvent = Event<Greeting<'static>, Response<'static>, Payload>;

fn fragments(encoded: imap_codec::encode::Encoded) -> Vec<Fragment> {
    encoded
        .map(|fragment| match fragment {
            CodecFragment::Line { data } => Fragment::Line { data },
            CodecFragment::Literal { data, mode: imap_types::core::LiteralMode::Sync } => {
                Fragment::Literal { data, mode: LiteralMode::Sync }
            }
            CodecFragment::Literal { data, mode: imap_types::core::LiteralMode::NonSync } => {
                Fragment::Literal { data, mode: LiteralMode::NonSync }
            }
        })
        .collect()
}

fn decode_command(bytes: &[u8]) -> Command<'static> {
    CommandCodec::default().decode(bytes).unwrap().1.into_static()
}

fn decode_response(bytes: &[u8]) -> Response<'static> {
    ResponseCodec::default().decode(bytes).unwrap().1.into_static()
}

/// A server whose output is collected and whose input is handed in.
struct Tester {
    server: Server<Greeting<'static>, Response<'static>>,
    state: ReceiveState,
    output: Vec<u8>,
}

impl Tester {
    /// A server that sent `greeting`.
    fn greeted(options: Options, greeting: &[u8]) -> Self {
        let greeting = GreetingCodec::default().decode(greeting).unwrap().1.into_static();
        let encoded = fragments(GreetingCodec::default().encode(&greeting));
        let state = ReceiveState::new(options.crlf_relaxed, Some(options.max_command_size));
        let server = Server::new(
            options,
            HandleGeneratorGenerator::<ResponseHandle>::new().generate(),
            greeting.clone(),
            encoded,
        );
        let mut tester = Self { server, state, output: Vec::new() };
        match tester.step() {
            Some(Ok(Event::GreetingSent { greeting: sent })) => assert_eq!(sent, greeting),
            _ => panic!("expected the greeting to be sent"),
        }
        tester.take_output();
        tester
    }

    /// Progresses like the driver does: output is collected, and `None` stands for more
    /// input being needed.
    fn step(&mut self) -> Option<Result<ServerEvent, Error>> {
        for _ in 0..1000 {
            match self.server.progress_send::<Payload>() {
                Ok(Some(event)) => return Some(Ok(event)),
                Err(Interrupt::Io(Io::Output(bytes))) => {
                    self.output.extend(bytes);
                    continue;
                }
                Err(_) => panic!("sending does not fail"),
                Ok(None) => {}
            }
            match self.server.progress_receive(&mut self.state) {
                Ok(Some(event)) => return Some(Ok(event)),
                Ok(None) => {}
                Err(Interrupt::Io(Io::NeedMoreInput)) => return None,
                Err(Interrupt::Io(_)) => panic!("unexpected I/O"),
                Err(Interrupt::Error(error)) => return Some(Err(error)),
            }
        }
        panic!("the server does not settle")
    }

    fn take_output(&mut self) -> Vec<u8> {
        std::mem::take(&mut self.output)
    }

    fn receive(&mut self, bytes: &[u8]) -> Option<Result<ServerEvent, Error>> {
        self.state.enqueue_input(bytes);
        self.step()
    }

    fn receive_command(&mut self, bytes: &[u8]) {
        match self.receive(bytes) {
            Some(Ok(Event::CommandReceived { command: Payload::Command(command) })) => {
                assert_eq!(command, decode_command(bytes));
            }
            _ => panic!("expected a command"),
        }
    }

    /// Sends the response through `send`, which enqueues it; the response is sent as given.
    fn send_with(
        &mut self,
        bytes: &[u8],
        send: impl FnOnce(&mut Server<Greeting<'static>, Response<'static>>, Response<'static>, Vec<Fragment>) -> ResponseHandle,
    ) {
        let response = decode_response(bytes);
        let encoded = fragments(ResponseCodec::default().encode(&response));
        let handle = send(&mut self.server, response.clone(), encoded);
        match self.step() {
            Some(Ok(Event::ResponseSent { handle: sent_handle, response: sent })) => {
                assert_eq!(sent_handle, handle);
                assert_eq!(sent, response);
            }
            _ => panic!("expected the response to be sent"),
        }
        assert_eq!(self.take_output(), bytes.to_vec());
    }

    fn send_status(&mut self, bytes: &[u8]) {
        self.send_with(bytes, |server, response, encoded| server.enqueue_response(response, encoded));
    }

    fn receive_error(&mut self, bytes: &[u8]) -> Error {
        match self.receive(bytes) {
            Some(Err(error)) => error,
            _ => panic!("expected an error"),
        }
    }
}

const GREETING: &[u8] = b"* OK ...\r\n";

#[test]
fn server_noop() {
    let mut server = Tester::greeted(Options::default(), GREETING);
    server.receive_command(b"A1 NOOP\r\n");
    server.send_status(b"A1 OK ...\r\n");
}

#[test]
fn server_noop_with_large_lines() {
    const LARGE: usize = 10 * 1024 * 1024;
    let mut greeting = b"* OK ".to_vec();
    greeting.extend(vec![b'.'; LARGE]);
    greeting.extend(b"\r\n");
    let mut server = Tester::greeted(Options::default(), &greeting);
    server.receive_command(b"A1 NOOP\r\n");
    let mut status = b"A1 OK ".to_vec();
    status.extend(vec![b'.'; LARGE]);
    status.extend(b"\r\n");
    server.send_status(&status);
}

#[test]
fn server_gibberish_instead_of_command() {
    let mut server = Tester::greeted(Options::default(), GREETING);
    let gibberish = b"I like bananas\r\n";
    match server.receive_error(gibberish) {
        Error::MalformedMessage { discarded_bytes } => assert_eq!(discarded_bytes, gibberish.to_vec()),
        _ => panic!("expected a malformed message"),
    }
}

#[test]
fn command_with_missing_cr() {
    let mut server = Tester::greeted(Options::default(), GREETING);
    let noop = b"A1 NOOP\n";
    match server.receive_error(noop) {
        Error::ExpectedCrlfGotLf { discarded_bytes } => assert_eq!(discarded_bytes, noop.to_vec()),
        _ => panic!("expected a line ending error"),
    }
}

#[test]
fn server_crlf_relaxed() {
    let mut options = Options::default();
    options.crlf_relaxed = true;
    let mut server = Tester::greeted(options, GREETING);
    server.receive_command(b"A1 NOOP\n");
    server.send_status(b"A1 OK ...\r\n");
    server.receive_command(b"A2 NOOP\r\n");
    server.send_status(b"A2 OK ...\r\n");
}

#[test]
fn server_login_with_literal() {
    for max_literal_size in [5, 6, 10, 100] {
        let mut options = Options::default();
        options.set_literal_accept_text("You shall pass".to_string()).unwrap();
        options.max_literal_size = max_literal_size;
        let mut server = Tester::greeted(options, GREETING);
        let login = b"A1 LOGIN {5}\r\nABCDE {5}\r\nFGHIJ\r\n";
        let continuation_request = b"+ You shall pass\r\n".to_vec();
        assert!(server.receive(&login[..14]).is_none());
        assert_eq!(server.take_output(), continuation_request);
        assert!(server.receive(&login[14..25]).is_none());
        assert_eq!(server.take_output(), continuation_request);
        match server.receive(&login[25..]) {
            Some(Ok(Event::CommandReceived { command: Payload::Command(command) })) => {
                assert_eq!(command, decode_command(login));
            }
            _ => panic!("expected a command"),
        }
        server.send_status(b"A1 NO ...\r\n");
    }
}

#[test]
fn server_login_with_rejected_literal() {
    for max_literal_size in [0, 1, 4] {
        let mut options = Options::default();
        options.set_literal_reject_text("You shall not pass".to_owned()).unwrap();
        options.max_literal_size = max_literal_size;
        let mut server = Tester::greeted(options, GREETING);
        let login = b"A1 LOGIN {5}\r\nABCDE {5}\r\nFGHIJ\r\n";
        match server.receive_error(&login[..14]) {
            Error::LiteralTooLong { discarded_bytes } => assert_eq!(discarded_bytes, login[..14].to_vec()),
            _ => panic!("expected a literal that is too long"),
        }
        assert!(server.step().is_none());
        assert_eq!(server.take_output(), b"A1 BAD You shall not pass\r\n".to_vec());
    }
}

#[test]
fn login_with_non_sync_literal() {
    let mut server = Tester::greeted(Options::default(), GREETING);
    server.receive_command(b"A1 LOGIN {5+}\r\nABCDE {5+}\r\nFGHIJ\r\n");
    assert!(server.take_output().is_empty());
    server.send_status(b"A1 NO ...\r\n");
}

#[test]
fn command_with_literals_larger_than_max_command_size() {
    for password_size in [4usize, 5, 6, 7, 8, 9] {
        let max_command_size = 28;
        let mut options = Options::default();
        options.set_literal_accept_text("more data".to_owned()).unwrap();
        options.max_literal_size = password_size as u32;
        options.max_command_size = max_command_size as u32;
        let mut server = Tester::greeted(options, GREETING);

        let login = b"A1 LOGIN {3}\r\nABC {3}\r\n...\r\n";
        let continuation_request = b"+ more data\r\n".to_vec();
        assert!(server.receive(&login[..14]).is_none());
        assert_eq!(server.take_output(), continuation_request);
        assert!(server.receive(&login[14..25]).is_none());
        assert_eq!(server.take_output(), continuation_request);
        match server.receive(&login[25..]) {
            Some(Ok(Event::CommandReceived { command: Payload::Command(command) })) => {
                assert_eq!(command, decode_command(login));
            }
            _ => panic!("expected a command"),
        }

        let large_login = format!(
            "A1 LOGIN {{3}}\r\nABC {{{}}}\r\n{}\r\n",
            password_size,
            String::from_utf8(vec![b'.'; password_size]).unwrap(),
        )
        .into_bytes();
        assert!(server.receive(&large_login[..14]).is_none());
        assert_eq!(server.take_output(), continuation_request);
        assert!(server.receive(&large_login[14..25]).is_none());
        assert_eq!(server.take_output(), continuation_request);
        match server.receive_error(&large_login[25..]) {
            Error::CommandTooLong { discarded_bytes } => {
                assert_eq!(discarded_bytes, large_login[..max_command_size].to_vec());
            }
            _ => panic!("expected a command that is too long"),
        }
    }
}

#[test]
fn server_idle_accepted() {
    let mut server = Tester::greeted(Options::default(), GREETING);
    let idle = b"A1 IDLE\r\n";
    match server.receive(idle) {
        Some(Ok(Event::IdleCommandReceived { tag: Payload::Command(command) })) => {
            assert_eq!(command.tag, decode_command(idle).tag);
        }
        _ => panic!("expected IDLE"),
    }
    server.send_with(b"+ idling\r\n", |server, response, encoded| {
        server.idle_accept(response, encoded).ok().unwrap()
    });
    assert!(matches!(server.receive(b"DONE\r\n"), Some(Ok(Event::IdleDoneReceived))));
    server.receive_command(b"A2 NOOP\r\n");
    server.send_status(b"A2 OK ...\r\n");
}

#[test]
fn server_idle_rejected() {
    let mut server = Tester::greeted(Options::default(), GREETING);
    assert!(matches!(
        server.receive(b"A1 IDLE\r\n"),
        Some(Ok(Event::IdleCommandReceived { tag: Payload::Command(_) }))
    ));
    server.send_with(b"A1 NO rise and shine\r\n", |server, response, encoded| {
        server.idle_reject(response, encoded).ok().unwrap()
    });
    server.receive_command(b"A2 NOOP\r\n");
    server.send_status(b"A2 OK ...\r\n");
}

fn receive_authenticate(server: &mut Tester, bytes: &[u8]) {
    match server.receive(bytes) {
        Some(Ok(Event::CommandAuthenticateReceived {
            command_authenticate: Payload::Command(command),
        })) => assert_eq!(command, decode_command(bytes)),
        _ => panic!("expected AUTHENTICATE"),
    }
}

fn receive_authenticate_data(server: &mut Tester, bytes: &[u8]) {
    match server.receive(bytes) {
        Some(Ok(Event::AuthenticateDataReceived {
            authenticate_data: Payload::AuthenticateData(_),
        })) => {}
        _ => panic!("expected authenticate data"),
    }
}

fn authenticate_finish(server: &mut Tester, bytes: &[u8]) {
    server.send_with(bytes, |server, response, encoded| {
        server.authenticate_finish(response, encoded).ok().unwrap()
    });
}

#[test]
fn authenticate_accepted() {
    let mut server = Tester::greeted(Options::default(), GREETING);
    receive_authenticate(&mut server, b"A1 AUTHENTICATE PLAIN dGVzdAB0ZXN0AHRlc3Q=\r\n");
    authenticate_finish(&mut server, b"A1 OK success\r\n");
    server.receive_command(b"A2 NOOP\r\n");
    server.send_status(b"A2 OK ...\r\n");
}

#[test]
fn authenticate_with_more_data_accepted() {
    let mut server = Tester::greeted(Options::default(), GREETING);
    receive_authenticate(&mut server, b"A1 AUTHENTICATE PLAIN\r\n");
    server.send_with(b"+ \r\n", |server, response, encoded| {
        server.authenticate_continue(response, encoded).ok().unwrap()
    });
    receive_authenticate_data(&mut server, b"dGVzdAB0ZXN0AHRlc3Q=\r\n");
    authenticate_finish(&mut server, b"A1 OK success\r\n");
    server.receive_command(b"A2 NOOP\r\n");
    server.send_status(b"A2 OK ...\r\n");
}

#[test]
fn authenticate_rejected() {
    let mut server = Tester::greeted(Options::default(), GREETING);
    receive_authenticate(&mut server, b"A1 AUTHENTICATE PLAIN dGVzdAB0ZXN0AHRlc3Q=\r\n");
    authenticate_finish(&mut server, b"A1 NO abort\r\n");
    server.receive_command(b"A2 NOOP\r\n");
    server.send_status(b"A2 OK ...\r\n");
}

#[test]
fn authenticate_with_more_data_rejected() {
    let mut server = Tester::greeted(Options::default(), GREETING);
    receive_authenticate(&mut server, b"A1 AUTHENTICATE PLAIN\r\n");
    server.send_with(b"+ \r\n", |server, response, encoded| {
        server.authenticate_continue(response, encoded).ok().unwrap()
    });
    receive_authenticate_data(&mut server, b"dGVzdAB0ZXN0AHRlc3Q=\r\n");
    authenticate_finish(&mut server, b"A1 NO abort\r\n");
    server.receive_command(b"A2 NOOP\r\n");
    server.send_status(b"A2 OK ...\r\n");
}

type ClientEvent = client::Event<Command<'static>, Greeting<'static>, Response<'static>>;

/// The command as the client enqueues it, with its encoded fragments.
fn outgoing(bytes: &[u8]) -> OutgoingCommand<Command<'static>> {
    let command = decode_command(bytes);
    let kind = match command.body {
        CommandBody::Authenticate { .. } => CommandKind::Authenticate,
        CommandBody::Idle => CommandKind::Idle,
        _ => CommandKind::Regular,
    };
    OutgoingCommand {
        tag: command.tag.inner().as_bytes().to_vec(),
        fragments: fragments(CommandCodec::default().encode(&command)),
        command,
        kind,
    }
}

/// A client whose output is collected and whose input is handed in.
struct ClientTester {
    client: Client<Command<'static>>,
    state: ReceiveState,
    output: Vec<u8>,
}

impl ClientTester {
    fn new(options: client::Options) -> Self {
        Self {
            client: Client::new(HandleGeneratorGenerator::<CommandHandle>::new().generate()),
            state: ReceiveState::new(options.crlf_relaxed, Some(options.max_response_size)),
            output: Vec::new(),
        }
    }

    fn step(&mut self) -> Option<Result<ClientEvent, client::Error>> {
        for _ in 0..1000 {
            match self.client.progress_send::<Greeting<'static>, Response<'static>>() {
                Ok(Some(event)) => return Some(Ok(event)),
                Err(Interrupt::Io(Io::Output(bytes))) => {
                    self.output.extend(bytes);
                    continue;
                }
                Err(_) => panic!("sending does not fail"),
                Ok(None) => {}
            }
            match self.client.progress_receive(&mut self.state) {
                Ok(Some(event)) => return Some(Ok(event)),
                Ok(None) => {}
                Err(Interrupt::Io(Io::NeedMoreInput)) => return None,
                Err(Interrupt::Io(_)) => panic!("unexpected I/O"),
                Err(Interrupt::Error(error)) => return Some(Err(error)),
            }
        }
        panic!("the client does not settle")
    }

    fn take_output(&mut self) -> Vec<u8> {
        std::mem::take(&mut self.output)
    }

    fn receive(&mut self, bytes: &[u8]) -> Option<Result<ClientEvent, client::Error>> {
        self.state.enqueue_input(bytes);
        self.step()
    }

    fn receive_greeting(&mut self, bytes: &[u8]) {
        let expected = GreetingCodec::default().decode(bytes).unwrap().1.into_static();
        match self.receive(bytes) {
            Some(Ok(client::Event::GreetingReceived { greeting })) => assert_eq!(greeting, expected),
            _ => panic!("expected the greeting"),
        }
    }

    fn receive_status(&mut self, bytes: &[u8]) {
        match self.receive(bytes) {
            Some(Ok(client::Event::StatusReceived { status })) => {
                assert_eq!(status, decode_response(bytes));
            }
            _ => panic!("expected a status"),
        }
    }

    /// Enqueues the command and sends it completely.
    fn send_command(&mut self, bytes: &[u8]) {
        let command = outgoing(bytes);
        let expected = command.command.clone();
        let handle = self.client.enqueue_command(command);
        match self.step() {
            Some(Ok(client::Event::CommandSent { handle: sent_handle, command })) => {
                assert_eq!(sent_handle, handle);
                assert_eq!(command, expected);
            }
            _ => panic!("expected the command to be sent"),
        }
        assert_eq!(self.take_output(), bytes.to_vec());
    }

    fn receive_error(&mut self, bytes: &[u8]) -> client::Error {
        match self.receive(bytes) {
            Some(Err(error)) => error,
            _ => panic!("expected an error"),
        }
    }
}

#[test]
fn flow_test_client_noop() {
    let mut client = ClientTester::new(client::Options::default());
    client.receive_greeting(GREETING);
    client.send_command(b"A1 NOOP\r\n");
    client.receive_status(b"A1 OK ...\r\n");
}

#[test]
fn flow_test_client_noop_with_large_lines() {
    const LARGE: usize = 10 * 1024 * 1024;
    let mut client = ClientTester::new(client::Options::default());
    let mut greeting = b"* OK ".to_vec();
    greeting.extend(vec![b'.'; LARGE]);
    greeting.extend(b"\r\n");
    client.receive_greeting(&greeting);
    client.send_command(b"A1 NOOP\r\n");
    let mut status = b"A1 OK ".to_vec();
    status.extend(vec![b'.'; LARGE]);
    status.extend(b"\r\n");
    client.receive_status(&status);
}

#[test]
fn gibberish_instead_of_greeting() {
    let mut client = ClientTester::new(client::Options::default());
    let gibberish = b"I like bananas\r\n";
    match client.receive_error(gibberish) {
        client::Error::MalformedMessage { discarded_bytes } => assert_eq!(discarded_bytes, gibberish.to_vec()),
        _ => panic!("expected a malformed message"),
    }
}

#[test]
fn gibberish_instead_of_response() {
    let mut client = ClientTester::new(client::Options::default());
    client.receive_greeting(GREETING);
    client.send_command(b"A1 NOOP\r\n");
    let gibberish = b"I like bananas\r\n";
    match client.receive_error(gibberish) {
        client::Error::MalformedMessage { discarded_bytes } => assert_eq!(discarded_bytes, gibberish.to_vec()),
        _ => panic!("expected a malformed message"),
    }
}

#[test]
fn greeting_with_missing_cr() {
    let mut client = ClientTester::new(client::Options::default());
    let greeting = b"* OK ...\n";
    match client.receive_error(greeting) {
        client::Error::ExpectedCrlfGotLf { discarded_bytes } => assert_eq!(discarded_bytes, greeting.to_vec()),
        _ => panic!("expected a line ending error"),
    }
}

#[test]
fn response_with_missing_cr() {
    let mut client = ClientTester::new(client::Options::default());
    client.receive_greeting(GREETING);
    client.send_command(b"A1 NOOP\r\n");
    let status = b"A1 OK ...\n";
    match client.receive_error(status) {
        client::Error::ExpectedCrlfGotLf { discarded_bytes } => assert_eq!(discarded_bytes, status.to_vec()),
        _ => panic!("expected a line ending error"),
    }
}

#[test]
fn flow_test_client_crlf_relaxed() {
    let mut options = client::Options::default();
    options.crlf_relaxed = true;
    let mut client = ClientTester::new(options);
    client.receive_greeting(b"* OK ...\n");
    client.send_command(b"A1 NOOP\r\n");
    client.receive_status(b"A1 OK ...\n");
    client.send_command(b"A2 NOOP\r\n");
    client.receive_status(b"A2 OK ...\r\n");
}

const LOGIN: &[u8] = b"A1 LOGIN {5}\r\nABCDE {5}\r\nFGHIJ\r\n";

#[test]
fn flow_test_client_login_with_literal() {
    let mut client = ClientTester::new(client::Options::default());
    client.receive_greeting(GREETING);
    let command = outgoing(LOGIN);
    let expected = command.command.clone();
    let handle = client.client.enqueue_command(command);
    let continuation_request = b"+ ...\r\n";
    assert!(client.step().is_none());
    assert_eq!(client.take_output(), LOGIN[..14].to_vec());
    assert!(client.receive(continuation_request).is_none());
    assert_eq!(client.take_output(), LOGIN[14..25].to_vec());
    match client.receive(continuation_request) {
        Some(Ok(client::Event::CommandSent { handle: sent_handle, command })) => {
            assert_eq!(sent_handle, handle);
            assert_eq!(command, expected);
        }
        _ => panic!("expected the command to be sent"),
    }
    assert_eq!(client.take_output(), LOGIN[25..].to_vec());
    client.receive_status(b"A1 NO ...\r\n");
}

#[test]
fn flow_test_client_login_with_rejected_literal() {
    let mut client = ClientTester::new(client::Options::default());
    client.receive_greeting(GREETING);
    let command = outgoing(LOGIN);
    let expected = command.command.clone();
    let handle = client.client.enqueue_command(command);
    assert!(client.step().is_none());
    assert_eq!(client.take_output(), LOGIN[..14].to_vec());
    let status = b"A1 BAD ...\r\n";
    match client.receive(status) {
        Some(Ok(client::Event::CommandRejected { handle: rejected, command, status: received })) => {
            assert_eq!(rejected, handle);
            assert_eq!(command, expected);
            assert_eq!(received, decode_response(status));
        }
        _ => panic!("expected the command to be rejected"),
    }
}

#[test]
fn login_with_literal_and_unexpected_status() {
    for unexpected_status in [b"A1 OK ...\r\n", b"A1 NO ...\r\n"] {
        let mut client = ClientTester::new(client::Options::default());
        client.receive_greeting(GREETING);
        let command = outgoing(LOGIN);
        let expected = command.command.clone();
        let handle = client.client.enqueue_command(command);
        assert!(client.step().is_none());
        assert_eq!(client.take_output(), LOGIN[..14].to_vec());
        client.receive_status(unexpected_status);
        let continuation_request = b"+ ...\r\n";
        assert!(client.receive(continuation_request).is_none());
        assert_eq!(client.take_output(), LOGIN[14..25].to_vec());
        match client.receive(continuation_request) {
            Some(Ok(client::Event::CommandSent { handle: sent_handle, command })) => {
                assert_eq!(sent_handle, handle);
                assert_eq!(command, expected);
            }
            _ => panic!("expected the command to be sent"),
        }
        assert_eq!(client.take_output(), LOGIN[25..].to_vec());
    }
}

fn receive_sent_greeting(client: &mut ClientTester) {
    let mut server = Tester::greeted(Options::default(), GREETING);
    assert!(server.take_output().is_empty());
    client.receive_greeting(GREETING);
}

/// The client and the server exchange a NOOP.
fn exchange_noop(client: &mut ClientTester, server: &mut Tester, noop: &[u8], status: &[u8]) {
    client.send_command(noop);
    server.receive_command(noop);
    server.send_status(status);
    client.receive_status(status);
}

#[test]
fn both_noop() {
    let mut server = Tester::greeted(Options::default(), GREETING);
    let mut client = ClientTester::new(client::Options::default());
    receive_sent_greeting(&mut client);
    exchange_noop(&mut client, &mut server, b"A1 NOOP\r\n", b"A1 OK ...\r\n");
}

#[test]
fn client_server_noop() {
    let mut server = Tester::greeted(Options::default(), GREETING);
    let mut client = ClientTester::new(client::Options::default());
    client.receive_greeting(GREETING);
    exchange_noop(&mut client, &mut server, b"A1 NOOP\r\n", b"A1 OK ...\r\n");
}

#[test]
fn client_server_login_with_literal() {
    for max_literal_size in [5, 6, 10, 100] {
        let mut options = Options::default();
        options.set_literal_accept_text("You shall pass".to_owned()).unwrap();
        options.max_literal_size = max_literal_size;
        // The server runs with the default options.
        let mut server = Tester::greeted(Options::default(), GREETING);
        let mut client = ClientTester::new(client::Options::default());
        client.receive_greeting(GREETING);

        client.client.enqueue_command(outgoing(LOGIN));
        assert!(client.step().is_none());
        let sent = client.take_output();
        assert!(server.receive(&sent).is_none());
        let continuation_request = server.take_output();
        assert!(client.receive(&continuation_request).is_none());
        let sent = client.take_output();
        assert!(server.receive(&sent).is_none());
        let continuation_request = server.take_output();
        assert!(matches!(client.receive(&continuation_request), Some(Ok(client::Event::CommandSent { .. }))));
        let sent = client.take_output();
        match server.receive(&sent) {
            Some(Ok(Event::CommandReceived { command: Payload::Command(command) })) => {
                assert_eq!(command, decode_command(LOGIN));
            }
            _ => panic!("expected a command"),
        }
        server.send_status(b"A1 NO ...\r\n");
        client.receive_status(b"A1 NO ...\r\n");
    }
}

#[test]
fn client_server_login_with_rejected_literal() {
    for max_literal_size in [0, 1, 4] {
        let mut options = Options::default();
        options.set_literal_reject_text("You shall not pass".to_owned()).unwrap();
        options.max_literal_size = max_literal_size;
        let mut server = Tester::greeted(options, GREETING);
        let mut client = ClientTester::new(client::Options::default());
        client.receive_greeting(GREETING);

        let handle = client.client.enqueue_command(outgoing(LOGIN));
        assert!(client.step().is_none());
        let sent = client.take_output();
        match server.receive_error(&sent) {
            Error::LiteralTooLong { discarded_bytes } => assert_eq!(discarded_bytes, LOGIN[..14].to_vec()),
            _ => panic!("expected a literal that is too long"),
        }
        assert!(server.step().is_none());
        let status = server.take_output();
        assert_eq!(status, b"A1 BAD You shall not pass\r\n".to_vec());
        match client.receive(&status) {
            Some(Ok(client::Event::CommandRejected { handle: rejected, status: received, .. })) => {
                assert_eq!(rejected, handle);
                assert_eq!(received, decode_response(&status));
            }
            _ => panic!("expected the command to be rejected"),
        }
    }
}

/// The client sends IDLE, which the server receives; the IDLE's handle.
fn start_idle(client: &mut ClientTester, server: &mut Tester) -> CommandHandle {
    let idle = b"A1 IDLE\r\n";
    let handle = client.client.enqueue_command(outgoing(idle));
    match client.step() {
        Some(Ok(client::Event::IdleCommandSent { handle: sent })) => assert_eq!(sent, handle),
        _ => panic!("expected IDLE to be sent"),
    }
    assert_eq!(client.take_output(), idle.to_vec());
    assert!(matches!(
        server.receive(idle),
        Some(Ok(Event::IdleCommandReceived { tag: Payload::Command(_) }))
    ));
    handle
}

#[test]
fn client_server_idle_accepted() {
    let mut server = Tester::greeted(Options::default(), GREETING);
    let mut client = ClientTester::new(client::Options::default());
    client.receive_greeting(GREETING);
    let handle = start_idle(&mut client, &mut server);

    let continuation_request = b"+ idling\r\n";
    server.send_with(continuation_request, |server, response, encoded| {
        server.idle_accept(response, encoded).ok().unwrap()
    });
    match client.receive(continuation_request) {
        Some(Ok(client::Event::IdleAccepted { handle: accepted, continuation_request: received })) => {
            assert_eq!(accepted, handle);
            assert_eq!(received, decode_response(continuation_request));
        }
        _ => panic!("expected IDLE to be accepted"),
    }

    assert_eq!(client.client.set_idle_done(), Some(handle));
    match client.step() {
        Some(Ok(client::Event::IdleDoneSent { handle: done })) => assert_eq!(done, handle),
        _ => panic!("expected DONE to be sent"),
    }
    let done = client.take_output();
    assert_eq!(done, b"DONE\r\n".to_vec());
    assert!(matches!(server.receive(&done), Some(Ok(Event::IdleDoneReceived))));

    exchange_noop(&mut client, &mut server, b"A2 NOOP\r\n", b"A2 OK ...\r\n");
}

#[test]
fn client_server_idle_rejected() {
    let mut server = Tester::greeted(Options::default(), GREETING);
    let mut client = ClientTester::new(client::Options::default());
    client.receive_greeting(GREETING);
    let handle = start_idle(&mut client, &mut server);

    let status = b"A1 NO rise and shine\r\n";
    server.send_with(status, |server, response, encoded| {
        server.idle_reject(response, encoded).ok().unwrap()
    });
    match client.receive(status) {
        Some(Ok(client::Event::IdleRejected { handle: rejected, status: received })) => {
            assert_eq!(rejected, handle);
            assert_eq!(received, decode_response(status));
        }
        _ => panic!("expected IDLE to be rejected"),
    }

    exchange_noop(&mut client, &mut server, b"A2 NOOP\r\n", b"A2 OK ...\r\n");
}
