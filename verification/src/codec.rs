//! The IMAP messages of `imap_types`, decoded from a complete message of the `Fragmentizer`
//! and encoded into fragments with `imap_codec`'s codecs.
//!
//! The messages themselves are opaque here: what the flows read of them is stated over the
//! fragmentizer that held their bytes.

use imap_codec::encode::Encoder;
use imap_codec::fragmentizer::DecodeMessageError as DecodeError;
use imap_codec::fragmentizer::Fragmentizer;
use imap_codec::{AuthenticateDataCodec, CommandCodec, GreetingCodec, IdleDoneCodec, ResponseCodec};
use imap_types::auth::AuthenticateData;
use imap_types::command::{Command, CommandBody};
use imap_types::response::StatusKind as CodecStatusKind;
use imap_types::response::{CommandContinuationRequest, Greeting, Response, Status};
use imap_types::IntoStatic;

use crate::receive::{
    fragmentizer_exceeded, fragmentizer_message, fragmentizer_poisoned, DecodeOutcome,
};
use crate::server::ReceivedCommandKind;
use crate::types::{fragment_views, Fragment, FragmentView, StatusKind};
use vstd::prelude::*;

verus! {

/// `imap_types`' command.
#[verifier::external_type_specification]
#[verifier::external_body]
pub struct ExCommand<'a>(Command<'a>);

/// `imap_types`' data of an authentication exchange.
#[verifier::external_type_specification]
#[verifier::external_body]
pub struct ExAuthenticateData<'a>(AuthenticateData<'a>);

/// `imap_types`' greeting.
#[verifier::external_type_specification]
#[verifier::external_body]
pub struct ExGreeting<'a>(Greeting<'a>);

/// `imap_types`' response: a status, data or a continuation request.
#[verifier::external_type_specification]
#[verifier::external_body]
pub struct ExResponse<'a>(Response<'a>);

/// What a server receives from a client, as decoded.
#[derive(Debug)]
pub enum Payload {
    /// A command; also AUTHENTICATE and IDLE, whose tag it carries.
    Command(Command<'static>),
    AuthenticateData(AuthenticateData<'static>),
}

/// What the client reads of a decoded response.
#[derive(Clone, Debug, PartialEq, Eq)]
pub enum ResponseShape {
    /// A tagged or untagged status, with its tag's bytes and its kind.
    Status { tag: Option<Vec<u8>>, kind: StatusKind },
    /// A BYE.
    Bye,
    Data,
    ContinuationRequest,
}

/// A failed decoding fails as too long exactly where the message went over the size limit,
/// and otherwise as poisoned exactly where the message was poisoned; other failures are the
/// codec's.
pub open spec fn outcome_fits(fragmentizer: Fragmentizer, outcome: DecodeOutcome) -> bool {
    &&& (outcome == DecodeOutcome::MessageTooLong <==> fragmentizer_exceeded(fragmentizer))
    &&& (outcome == DecodeOutcome::MessagePoisoned <==> (!fragmentizer_exceeded(fragmentizer)
        && fragmentizer_poisoned(fragmentizer)))
}

/// What an outcome of decoding says of the message: a successful decoding was neither over the
/// size limit nor poisoned; a failed one fits the message (see [`outcome_fits`]).
pub open spec fn decoding_fits(fragmentizer: Fragmentizer, outcome: DecodeOutcome) -> bool {
    if outcome == DecodeOutcome::Success {
        !fragmentizer_exceeded(fragmentizer) && !fragmentizer_poisoned(fragmentizer)
    } else {
        outcome_fits(fragmentizer, outcome)
    }
}

/// How decoding the fragmentizer's message with `CommandCodec` goes.
pub uninterp spec fn command_decoding(fragmentizer: Fragmentizer) -> DecodeOutcome;

/// Which kind of command a successful decoding with `CommandCodec` gives.
pub uninterp spec fn command_kind(fragmentizer: Fragmentizer) -> ReceivedCommandKind;

/// How decoding the fragmentizer's message with `AuthenticateDataCodec` goes.
pub uninterp spec fn authenticate_data_decoding(fragmentizer: Fragmentizer) -> DecodeOutcome;

/// How decoding the fragmentizer's message with `IdleDoneCodec` goes.
pub uninterp spec fn idle_done_decoding(fragmentizer: Fragmentizer) -> DecodeOutcome;

/// How decoding the fragmentizer's message with `GreetingCodec` goes.
pub uninterp spec fn greeting_decoding(fragmentizer: Fragmentizer) -> DecodeOutcome;

/// How decoding the fragmentizer's message with `ResponseCodec` goes.
pub uninterp spec fn response_decoding(fragmentizer: Fragmentizer) -> DecodeOutcome;

/// What a successful decoding with `ResponseCodec` gives, as the client reads it.
pub uninterp spec fn response_shape(fragmentizer: Fragmentizer) -> ResponseShape;

/// Whether base64 (the standard alphabet, with padding) decodes `text`.
pub uninterp spec fn base64_decodable(text: Seq<char>) -> bool;

/// A character of IMAP text: a 7-bit character other than NUL, CR and LF.
pub open spec fn is_text_char(c: char) -> bool {
    1 <= (c as u32) <= 0x7f && c != '\n' && c != '\r'
}

/// `text` is IMAP text: not empty, and text characters only.
pub open spec fn text_valid(text: Seq<char>) -> bool {
    text.len() > 0 && forall|i: int| 0 <= i < text.len() ==> #[trigger] is_text_char(text[i])
}

/// A character that base64 with the standard alphabet and padding reads.
pub open spec fn is_base64_char(c: char) -> bool {
    ('A' <= c <= 'Z') || ('a' <= c <= 'z') || ('0' <= c <= '9') || c == '+' || c == '/' || c
        == '='
}

/// `text` holds a character that base64 does not read, so that it does not decode.
pub open spec fn has_non_base64_char(text: Seq<char>) -> bool {
    exists|i: int| 0 <= i < text.len() && !#[trigger] is_base64_char(text[i])
}

/// A continuation request with no code can have `text`: IMAP text that does not start with
/// `[` and is not base64, so that it cannot be read as a code or as data.
pub open spec fn continuation_text_accepted(text: Seq<char>) -> bool {
    &&& text_valid(text)
    &&& text[0] != '['
    &&& (has_non_base64_char(text) || !base64_decodable(text))
}

/// The bytes of ASCII text.
pub open spec fn ascii_bytes(text: Seq<char>) -> Seq<u8> {
    text.map_values(|c: char| c as u8)
}

/// The line of a continuation request with no code: `+ <text>\r\n`.
pub open spec fn continuation_line(text: Seq<char>) -> Seq<u8> {
    seq![43u8, 32u8] + ascii_bytes(text) + seq![13u8, 10u8]
}

/// The line of a tagged BAD with no code: `<tag> BAD <text>\r\n`.
pub open spec fn bad_line(tag: Seq<u8>, text: Seq<char>) -> Seq<u8> {
    tag + seq![32u8, 66u8, 65u8, 68u8, 32u8] + ascii_bytes(text) + seq![13u8, 10u8]
}

/// A byte of a tag: a printable 7-bit character other than `(`, `)`, `{`, SP, `%`, `*`, `"`,
/// `\\` and `+`.
pub open spec fn is_tag_byte(b: u8) -> bool {
    &&& 0x20 < b < 0x7f
    &&& b != 40 && b != 41 && b != 123 && b != 37 && b != 42 && b != 34 && b != 92 && b != 43
}

/// `tag` is a valid tag: not empty, and tag bytes only.
pub open spec fn tag_valid(tag: Seq<u8>) -> bool {
    tag.len() > 0 && forall|i: int| 0 <= i < tag.len() ==> #[trigger] is_tag_byte(tag[i])
}

/// Where the first space of the message is, where it comes before any line feed.
pub open spec fn first_space(message: Seq<u8>) -> Option<int>
    decreases message.len(),
{
    if message.len() == 0 {
        None
    } else if message[0] == 32 {
        Some(0)
    } else if message[0] == 10 {
        None
    } else {
        match first_space(message.drop_first()) {
            Some(i) => Some(i + 1),
            None => None,
        }
    }
}

/// The tag at the front of a message: the bytes before its first space, where that comes
/// before any line feed and they are a valid tag.
pub open spec fn message_tag(message: Seq<u8>) -> Option<Seq<u8>> {
    match first_space(message) {
        Some(i) => if tag_valid(message.take(i)) {
            Some(message.take(i))
        } else {
            None
        },
        None => None,
    }
}

/// `Fragmentizer::decode_message` with `CommandCodec`: the command and its kind (AUTHENTICATE,
/// IDLE or any other command), or how the decoding failed. Which command is decoded is not
/// stated, only the kind that the flow reads.
#[verifier::external_body]
pub(crate) fn decode_command_message(fragmentizer: &Fragmentizer) -> (res: Result<
    (Command<'static>, ReceivedCommandKind),
    DecodeOutcome,
>)
    ensures
        res matches Ok(c) ==> command_decoding(*fragmentizer) == DecodeOutcome::Success
            && !fragmentizer_poisoned(*fragmentizer) && !fragmentizer_exceeded(*fragmentizer) && c.1
            == command_kind(*fragmentizer),
        res matches Err(o) ==> o == command_decoding(*fragmentizer) && o != DecodeOutcome::Success
            && outcome_fits(*fragmentizer, o),
{
    match fragmentizer.decode_message(&CommandCodec::default()) {
        Ok(command) => {
            let kind = match command.body {
                CommandBody::Authenticate { .. } => ReceivedCommandKind::Authenticate,
                CommandBody::Idle => ReceivedCommandKind::Idle,
                _ => ReceivedCommandKind::Other,
            };
            Ok((command.into_static(), kind))
        },
        Err(DecodeError::DecodingFailure(_)) => Err(DecodeOutcome::DecodingFailure),
        Err(DecodeError::DecodingRemainder { .. }) => Err(DecodeOutcome::DecodingRemainder),
        Err(DecodeError::MessageTooLong { .. }) => Err(DecodeOutcome::MessageTooLong),
        Err(DecodeError::MessagePoisoned { .. }) => Err(DecodeOutcome::MessagePoisoned),
    }
}

/// `Fragmentizer::decode_message` with `AuthenticateDataCodec`: the data, or how the decoding
/// failed. Which data is decoded is not stated.
#[verifier::external_body]
pub(crate) fn decode_authenticate_data_message(fragmentizer: &Fragmentizer) -> (res: Result<
    AuthenticateData<'static>,
    DecodeOutcome,
>)
    ensures
        res is Ok ==> authenticate_data_decoding(*fragmentizer) == DecodeOutcome::Success && !fragmentizer_poisoned(
            *fragmentizer,
        ) && !fragmentizer_exceeded(*fragmentizer),
        res matches Err(o) ==> o == authenticate_data_decoding(*fragmentizer) && o != DecodeOutcome::Success
            && outcome_fits(*fragmentizer, o),
{
    match fragmentizer.decode_message(&AuthenticateDataCodec::default()) {
        Ok(data) => Ok(data.into_static()),
        Err(DecodeError::DecodingFailure(_)) => Err(DecodeOutcome::DecodingFailure),
        Err(DecodeError::DecodingRemainder { .. }) => Err(DecodeOutcome::DecodingRemainder),
        Err(DecodeError::MessageTooLong { .. }) => Err(DecodeOutcome::MessageTooLong),
        Err(DecodeError::MessagePoisoned { .. }) => Err(DecodeOutcome::MessagePoisoned),
    }
}

/// `Fragmentizer::decode_message` with `IdleDoneCodec`: whether the message is the DONE of an
/// IDLE, or how the decoding failed.
#[verifier::external_body]
pub(crate) fn decode_idle_done_message(fragmentizer: &Fragmentizer) -> (res: Result<(), DecodeOutcome>)
    ensures
        res is Ok ==> idle_done_decoding(*fragmentizer) == DecodeOutcome::Success && !fragmentizer_poisoned(
            *fragmentizer,
        ) && !fragmentizer_exceeded(*fragmentizer),
        res matches Err(o) ==> o == idle_done_decoding(*fragmentizer) && o != DecodeOutcome::Success
            && outcome_fits(*fragmentizer, o),
{
    match fragmentizer.decode_message(&IdleDoneCodec::default()) {
        Ok(_) => Ok(()),
        Err(DecodeError::DecodingFailure(_)) => Err(DecodeOutcome::DecodingFailure),
        Err(DecodeError::DecodingRemainder { .. }) => Err(DecodeOutcome::DecodingRemainder),
        Err(DecodeError::MessageTooLong { .. }) => Err(DecodeOutcome::MessageTooLong),
        Err(DecodeError::MessagePoisoned { .. }) => Err(DecodeOutcome::MessagePoisoned),
    }
}

/// `Fragmentizer::decode_message` with `GreetingCodec`: the greeting, or how the decoding
/// failed. Which greeting is decoded is not stated.
#[verifier::external_body]
pub(crate) fn decode_greeting_message(fragmentizer: &Fragmentizer) -> (res: Result<
    Greeting<'static>,
    DecodeOutcome,
>)
    ensures
        res is Ok ==> greeting_decoding(*fragmentizer) == DecodeOutcome::Success && !fragmentizer_poisoned(
            *fragmentizer,
        ) && !fragmentizer_exceeded(*fragmentizer),
        res matches Err(o) ==> o == greeting_decoding(*fragmentizer) && o != DecodeOutcome::Success
            && outcome_fits(*fragmentizer, o),
{
    match fragmentizer.decode_message(&GreetingCodec::default()) {
        Ok(greeting) => Ok(greeting.into_static()),
        Err(DecodeError::DecodingFailure(_)) => Err(DecodeOutcome::DecodingFailure),
        Err(DecodeError::DecodingRemainder { .. }) => Err(DecodeOutcome::DecodingRemainder),
        Err(DecodeError::MessageTooLong { .. }) => Err(DecodeOutcome::MessageTooLong),
        Err(DecodeError::MessagePoisoned { .. }) => Err(DecodeOutcome::MessagePoisoned),
    }
}

/// `Fragmentizer::decode_message` with `ResponseCodec`: the response, or how the decoding
/// failed. Which response is decoded is not stated; what the client reads of it is
/// [`decoded_response_shape`]'s.
#[verifier::external_body]
pub(crate) fn decode_response_message(fragmentizer: &Fragmentizer) -> (res: Result<
    Response<'static>,
    DecodeOutcome,
>)
    ensures
        res is Ok ==> response_decoding(*fragmentizer) == DecodeOutcome::Success && !fragmentizer_poisoned(
            *fragmentizer,
        ) && !fragmentizer_exceeded(*fragmentizer),
        res matches Err(o) ==> o == response_decoding(*fragmentizer) && o != DecodeOutcome::Success
            && outcome_fits(*fragmentizer, o),
{
    match fragmentizer.decode_message(&ResponseCodec::default()) {
        Ok(response) => Ok(response.into_static()),
        Err(DecodeError::DecodingFailure(_)) => Err(DecodeOutcome::DecodingFailure),
        Err(DecodeError::DecodingRemainder { .. }) => Err(DecodeOutcome::DecodingRemainder),
        Err(DecodeError::MessageTooLong { .. }) => Err(DecodeOutcome::MessageTooLong),
        Err(DecodeError::MessagePoisoned { .. }) => Err(DecodeOutcome::MessagePoisoned),
    }
}

/// `Fragmentizer::decode_message` with `ResponseCodec` once more, read as the client reads a
/// response: a status's tag and kind, or which other response it is; `None` where the decoding
/// fails.
#[verifier::external_body]
pub(crate) fn decoded_response_shape(fragmentizer: &Fragmentizer) -> (res: Option<ResponseShape>)
    ensures
        res is Some <==> response_decoding(*fragmentizer) == DecodeOutcome::Success,
        res is Some ==> res->Some_0 == response_shape(*fragmentizer),
{
    let (tag, kind) = match fragmentizer.decode_message(&ResponseCodec::default()).ok()? {
        Response::Status(Status::Tagged(t)) => (Some(t.tag.inner().as_bytes().to_vec()), t.body.kind),
        Response::Status(Status::Untagged(body)) => (None, body.kind),
        Response::Status(Status::Bye(_)) => return Some(ResponseShape::Bye),
        Response::Data(_) => return Some(ResponseShape::Data),
        Response::CommandContinuationRequest(_) => return Some(ResponseShape::ContinuationRequest),
    };
    let kind = match kind {
        CodecStatusKind::Ok => StatusKind::Okay,
        CodecStatusKind::No => StatusKind::No,
        CodecStatusKind::Bad => StatusKind::Bad,
    };
    Some(ResponseShape::Status { tag, kind })
}

/// `Fragmentizer::decode_tag`, as the tag's bytes: the tag at the front of the current
/// message's bytes, where there is one.
#[verifier::external_body]
pub(crate) fn decode_message_tag(fragmentizer: &Fragmentizer) -> (res: Option<Vec<u8>>)
    ensures
        match res {
            Some(tag) => message_tag(fragmentizer_message(*fragmentizer)) == Some(tag@),
            None => message_tag(fragmentizer_message(*fragmentizer)) is None,
        },
{
    fragmentizer.decode_tag().map(|tag| tag.inner().as_bytes().to_vec())
}

/// `Status::bad` with the tag, no code and the text, and the fragments that `ResponseCodec`
/// encodes it into: the single line `<tag> BAD <text>\r\n`. `None` where the tag or the text
/// is refused.
#[verifier::external_body]
pub(crate) fn encoded_bad_status(tag: &[u8], text: &str) -> (res: Option<
    (Response<'static>, Vec<Fragment>),
>)
    ensures
        res is Some <==> (tag_valid(tag@) && text_valid(text@)),
        res matches Some(r) ==> fragment_views(r.1@) == seq![
            FragmentView::Line { data: bad_line(tag@, text@) },
        ],
{
    let tag = imap_types::core::Tag::try_from(tag.to_vec()).ok()?;
    let response = Response::Status(Status::bad(Some(tag), None, String::from(text)).ok()?);
    let data = ResponseCodec::default().encode(&response).dump();
    Some((response, vec![Fragment::Line { data }]))
}

/// `CommandContinuationRequest::basic` with no code and the text, and the fragments that
/// `ResponseCodec` encodes it into: the single line `+ <text>\r\n`. `None` where the text is
/// refused: where it is not IMAP text, starts with `[`, or decodes as base64 (which a text
/// with a character outside base64's alphabet does not).
#[verifier::external_body]
pub(crate) fn encoded_continuation_request(text: &str) -> (res: Option<
    (Response<'static>, Vec<Fragment>),
>)
    ensures
        res is Some <==> (text_valid(text@) && text@[0] != '[' && (has_non_base64_char(text@)
            || !base64_decodable(text@))),
        res is Some <==> continuation_text_accepted(text@),
        res matches Some(r) ==> fragment_views(r.1@) == seq![
            FragmentView::Line { data: continuation_line(text@) },
        ],
{
    let continuation = CommandContinuationRequest::basic(None, String::from(text)).ok()?;
    let response = Response::CommandContinuationRequest(continuation);
    let data = ResponseCodec::default().encode(&response).dump();
    Some((response, vec![Fragment::Line { data }]))
}

/// Continuation request text is also status text.
pub proof fn lemma_continuation_text_is_status_text(text: Seq<char>)
    requires
        continuation_text_accepted(text),
    ensures
        text_valid(text),
{
}

} // verus!
