//! Receiving side of both flows: splits the received bytes into messages with `imap_codec`'s
//! `Fragmentizer`, and decides what a line and a decoding outcome mean.
//!
//! A complete message is decoded with the codec for the message that the flow expects.

use imap_codec::fragmentizer::FragmentInfo;
use imap_codec::fragmentizer::Fragmentizer;
use imap_codec::fragmentizer::LineEnding as CodecEnding;
use imap_codec::fragmentizer::LiteralAnnouncement as CodecAnnouncement;

use imap_types::auth::AuthenticateData;
use imap_types::command::Command;
use imap_types::response::{Greeting, Response};

use crate::codec::{
    authenticate_data_decoding, command_decoding, command_kind, decode_authenticate_data_message,
    decoding_fits,
    decode_command_message, decode_greeting_message, decode_idle_done_message,
    decode_response_message, decoded_response_shape, greeting_decoding, idle_done_decoding,
    response_decoding, response_shape, ResponseShape,
};
use crate::message::{LineEnding, LiteralAnnouncement, LiteralMode};
use crate::server::ReceivedCommandKind;
use vstd::prelude::*;

verus! {

/// `imap_codec`'s splitter of IMAP bytes into line and literal fragments.
#[verifier::external_type_specification]
#[verifier::external_body]
pub struct ExFragmentizer(Fragmentizer);

/// A fragment that the `Fragmentizer` found, as far as the flow reads it.
#[derive(Clone, Copy, Debug, Eq, PartialEq)]
pub enum FragmentSummary {
    /// A line, with the literal it announces and its ending.
    Line { announcement: Option<LiteralAnnouncement>, ending: LineEnding },
    /// A literal.
    Literal,
}

/// The bytes that were enqueued into the fragmentizer and are not parsed yet.
pub uninterp spec fn fragmentizer_unparsed(fragmentizer: Fragmentizer) -> Seq<u8>;

/// Whether the fragmentizer's current message was poisoned, so that decoding it fails.
pub uninterp spec fn fragmentizer_poisoned(fragmentizer: Fragmentizer) -> bool;

/// The fragment that the fragmentizer finds next in its unparsed bytes, if any; it depends on
/// the fragmentizer's state alone.
pub uninterp spec fn fragmentizer_fragment(fragmentizer: Fragmentizer) -> Option<FragmentSummary>;

/// The bytes of the fragmentizer's current message parsed so far (cut off at its size limit).
pub uninterp spec fn fragmentizer_message(fragmentizer: Fragmentizer) -> Seq<u8>;

/// The size limit of the fragmentizer's messages, if it has one.
pub uninterp spec fn fragmentizer_limit(fragmentizer: Fragmentizer) -> Option<u32>;

/// Whether the current message went over the size limit, so that bytes of it were dropped.
pub uninterp spec fn fragmentizer_exceeded(fragmentizer: Fragmentizer) -> bool;

/// Whether the last fragment completed the current message, so that the next fragment starts
/// a new one.
pub uninterp spec fn fragmentizer_message_ended(fragmentizer: Fragmentizer) -> bool;

/// The message bytes stay within the size limit.
pub open spec fn within_limit(fragmentizer: Fragmentizer) -> bool {
    fragmentizer_limit(fragmentizer) matches Some(m) ==> fragmentizer_message(fragmentizer).len()
        <= m
}

/// The message bytes after `parsed` bytes were parsed: a new message starts empty where the
/// last one ended; the parsed bytes are appended, and where that goes over the size limit, the
/// message is cut off at the limit and marked as exceeded.
pub open spec fn message_grown(before: Fragmentizer, after: Fragmentizer, parsed: Seq<u8>) -> bool {
    let ended = fragmentizer_message_ended(before);
    let base = if ended {
        Seq::<u8>::empty()
    } else {
        fragmentizer_message(before)
    };
    let exceeded = !ended && fragmentizer_exceeded(before);
    let all = base + parsed;
    match fragmentizer_limit(before) {
        Some(m) => if all.len() > m {
            fragmentizer_message(after) == all.take(m as int) && fragmentizer_exceeded(after)
        } else {
            fragmentizer_message(after) == all && fragmentizer_exceeded(after) == exceeded
        },
        None => fragmentizer_message(after) == all && fragmentizer_exceeded(after) == exceeded,
    }
}

/// `Fragmentizer::new`: a fragmentizer whose messages are cut off at `max_message_size`
/// bytes. It has no bytes to parse, and its first message is empty, not poisoned and not over
/// the limit.
#[verifier::external_body]
fn fragmentizer_with_max_message_size(max_message_size: u32) -> (res: Fragmentizer)
    ensures
        fragmentizer_unparsed(res) == Seq::<u8>::empty(),
        !fragmentizer_poisoned(res),
        fragmentizer_message(res) == Seq::<u8>::empty(),
        fragmentizer_limit(res) == Some(max_message_size),
        !fragmentizer_exceeded(res),
        !fragmentizer_message_ended(res),
{
    Fragmentizer::new(max_message_size)
}

/// `Fragmentizer::without_max_message_size`: a fragmentizer without a limit on the message
/// size. It has no bytes to parse, and its first message is empty, not poisoned and not over
/// a limit.
#[verifier::external_body]
fn fragmentizer_without_max_message_size() -> (res: Fragmentizer)
    ensures
        fragmentizer_unparsed(res) == Seq::<u8>::empty(),
        !fragmentizer_poisoned(res),
        fragmentizer_message(res) == Seq::<u8>::empty(),
        fragmentizer_limit(res) is None,
        !fragmentizer_exceeded(res),
        !fragmentizer_message_ended(res),
{
    Fragmentizer::without_max_message_size()
}

/// `Fragmentizer::enqueue_bytes`: the bytes are queued for parsing behind those that wait
/// already; nothing else changes.
#[verifier::external_body]
fn enqueue_fragmentizer_bytes(fragmentizer: &mut Fragmentizer, bytes: &[u8])
    ensures
        fragmentizer_unparsed(*final(fragmentizer)) == fragmentizer_unparsed(*old(fragmentizer))
            + bytes@,
        fragmentizer_poisoned(*final(fragmentizer)) == fragmentizer_poisoned(*old(fragmentizer)),
        fragmentizer_message(*final(fragmentizer)) == fragmentizer_message(*old(fragmentizer)),
        fragmentizer_limit(*final(fragmentizer)) == fragmentizer_limit(*old(fragmentizer)),
        fragmentizer_exceeded(*final(fragmentizer)) == fragmentizer_exceeded(*old(fragmentizer)),
        fragmentizer_message_ended(*final(fragmentizer)) == fragmentizer_message_ended(
            *old(fragmentizer),
        ),
{
    fragmentizer.enqueue_bytes(bytes)
}

/// `Fragmentizer::progress`: the next fragment of the current message, or `None` where more
/// bytes are needed, with its announcement and line ending converted to the library's types.
/// The fragment is the one the fragmentizer's state determines. Where the last fragment ended
/// a message, a new one starts: empty, not poisoned and not over the limit. The parsed bytes
/// leave the front of the unparsed bytes and are appended to the message, up to the size
/// limit (see [`message_grown`]). A line without an announcement ends the message. The
/// message bytes never go over the limit.
#[verifier::external_body]
fn progress_fragmentizer(fragmentizer: &mut Fragmentizer) -> (res: Option<FragmentSummary>)
    ensures
        res == fragmentizer_fragment(*old(fragmentizer)),
        exists|parsed: int|
            0 <= parsed <= fragmentizer_unparsed(*old(fragmentizer)).len()
                && fragmentizer_unparsed(*final(fragmentizer)) == fragmentizer_unparsed(
                *old(fragmentizer),
            ).skip(parsed) && message_grown(
                *old(fragmentizer),
                *final(fragmentizer),
                fragmentizer_unparsed(*old(fragmentizer)).take(parsed),
            ),
        fragmentizer_limit(*final(fragmentizer)) == fragmentizer_limit(*old(fragmentizer)),
        within_limit(*old(fragmentizer)),
        within_limit(*final(fragmentizer)),
        fragmentizer_poisoned(*final(fragmentizer)) == (!fragmentizer_message_ended(
            *old(fragmentizer),
        ) && fragmentizer_poisoned(*old(fragmentizer))),
        fragmentizer_message_ended(*final(fragmentizer)) == (res matches Some(
            FragmentSummary::Line { announcement: None, .. },
        )),
{
    let (announcement, ending) = match fragmentizer.progress()? {
        FragmentInfo::Line { announcement, ending, .. } => (announcement, ending),
        FragmentInfo::Literal { .. } => return Some(FragmentSummary::Literal),
    };
    let announcement = match announcement {
        Some(CodecAnnouncement { mode: imap_types::core::LiteralMode::Sync, length }) => Some(LiteralAnnouncement { length, mode: LiteralMode::Sync }),
        Some(CodecAnnouncement { mode: imap_types::core::LiteralMode::NonSync, length }) => Some(LiteralAnnouncement { length, mode: LiteralMode::NonSync }),
        None => None,
    };
    let ending = match ending { CodecEnding::Lf => LineEnding::Lf, CodecEnding::CrLf => LineEnding::CrLf };
    Some(FragmentSummary::Line { announcement, ending })
}

/// `Fragmentizer::poison_message`: decoding the current message will fail; the unparsed bytes
/// stay.
#[verifier::external_body]
fn poison_fragmentizer_message(fragmentizer: &mut Fragmentizer)
    ensures
        fragmentizer_poisoned(*final(fragmentizer)),
        fragmentizer_unparsed(*final(fragmentizer)) == fragmentizer_unparsed(*old(fragmentizer)),
        fragmentizer_message(*final(fragmentizer)) == fragmentizer_message(*old(fragmentizer)),
        fragmentizer_limit(*final(fragmentizer)) == fragmentizer_limit(*old(fragmentizer)),
        fragmentizer_exceeded(*final(fragmentizer)) == fragmentizer_exceeded(*old(fragmentizer)),
        fragmentizer_message_ended(*final(fragmentizer)) == fragmentizer_message_ended(
            *old(fragmentizer),
        ),
{
    fragmentizer.poison_message()
}

/// `Fragmentizer::message_bytes`, copied: the bytes of the current message parsed so far.
#[verifier::external_body]
fn fragmentizer_message_bytes(fragmentizer: &Fragmentizer) -> (res: Vec<u8>)
    ensures
        res@ == fragmentizer_message(*fragmentizer),
{
    fragmentizer.message_bytes().to_vec()
}

/// `Fragmentizer::skip_message`: the next message starts immediately, unpoisoned and empty;
/// the unparsed bytes stay.
#[verifier::external_body]
fn skip_fragmentizer_message(fragmentizer: &mut Fragmentizer)
    ensures
        !fragmentizer_poisoned(*final(fragmentizer)),
        fragmentizer_message(*final(fragmentizer)) == Seq::<u8>::empty(),
        fragmentizer_unparsed(*final(fragmentizer)) == fragmentizer_unparsed(*old(fragmentizer)),
        fragmentizer_limit(*final(fragmentizer)) == fragmentizer_limit(*old(fragmentizer)),
        !fragmentizer_exceeded(*final(fragmentizer)),
        !fragmentizer_message_ended(*final(fragmentizer)),
{
    fragmentizer.skip_message()
}

/// What a step of receiving found.
#[derive(Clone, Copy, Debug, Eq, PartialEq)]
pub enum ReceiveProgress {
    /// The line announces a literal: the caller decides about it.
    LiteralAnnouncement { mode: LiteralMode, length: u32 },
    /// The message is complete and can be decoded.
    MessageComplete,
    /// A literal fragment was received; receiving goes on.
    LiteralReceived,
    /// More bytes are needed.
    NeedMoreInput,
}

/// How decoding the complete message went.
#[derive(Clone, Copy, Debug, Eq, PartialEq, Structural)]
pub enum DecodeOutcome {
    Success,
    DecodingFailure,
    DecodingRemainder,
    MessageTooLong,
    MessagePoisoned,
}

/// Receiving a message failed; the message was discarded.
#[derive(Debug)]
pub enum ReceiveError {
    DecodingFailure { discarded_bytes: Vec<u8> },
    ExpectedCrlfGotLf { discarded_bytes: Vec<u8> },
    MessageIsPoisoned { discarded_bytes: Vec<u8> },
    MessageTooLong { discarded_bytes: Vec<u8> },
}

/// `error` is the error for a failed decoding: a message that could not be decoded, or not
/// completely, is a decoding failure; one over the size limit is too long; a poisoned one had
/// a line ending that is not allowed where such a line was seen.
pub open spec fn is_decode_error(
    outcome: DecodeOutcome,
    invalid_line_ending: bool,
    error: ReceiveError,
) -> bool {
    match outcome {
        DecodeOutcome::DecodingFailure | DecodeOutcome::DecodingRemainder => error is DecodingFailure,
        DecodeOutcome::MessageTooLong => error is MessageTooLong,
        DecodeOutcome::MessagePoisoned => if invalid_line_ending {
            error is ExpectedCrlfGotLf
        } else {
            error is MessageIsPoisoned
        },
        DecodeOutcome::Success => false,
    }
}

/// The bytes of the discarded message that an error carries.
pub open spec fn discarded_bytes_of(error: ReceiveError) -> Seq<u8> {
    match error {
        ReceiveError::DecodingFailure { discarded_bytes } => discarded_bytes@,
        ReceiveError::ExpectedCrlfGotLf { discarded_bytes } => discarded_bytes@,
        ReceiveError::MessageIsPoisoned { discarded_bytes } => discarded_bytes@,
        ReceiveError::MessageTooLong { discarded_bytes } => discarded_bytes@,
    }
}

/// What receiving a fragment means for the caller.
pub open spec fn fragment_progress(fragment: Option<FragmentSummary>) -> ReceiveProgress {
    match fragment {
        Some(FragmentSummary::Line { announcement: Some(a), .. }) => (
        ReceiveProgress::LiteralAnnouncement { mode: a.mode, length: a.length }),
        Some(FragmentSummary::Line { announcement: None, .. }) => ReceiveProgress::MessageComplete,
        Some(FragmentSummary::Literal) => ReceiveProgress::LiteralReceived,
        None => ReceiveProgress::NeedMoreInput,
    }
}

/// Whether the message has a line ending that is not allowed after the fragment: once a line
/// ends with `\n` alone where `\r\n` is required, it has.
pub open spec fn invalid_line_ending_after(
    invalid_line_ending: bool,
    crlf_relaxed: bool,
    fragment: Option<FragmentSummary>,
) -> bool {
    invalid_line_ending || (!crlf_relaxed && fragment matches Some(
        FragmentSummary::Line { ending: LineEnding::Lf, .. },
    ))
}

/// A fragment that waits for the flow: a literal to be answered, or a message to be decoded.
#[derive(Clone, Copy, Debug, Eq, PartialEq)]
pub enum Found {
    LiteralAnnouncement { mode: LiteralMode, length: u32 },
    MessageComplete,
}

/// What waits for the flow after a step of receiving.
pub open spec fn found_of(progress: ReceiveProgress) -> Option<Found> {
    match progress {
        ReceiveProgress::LiteralAnnouncement { mode, length } => Some(
            Found::LiteralAnnouncement { mode, length },
        ),
        ReceiveProgress::MessageComplete => Some(Found::MessageComplete),
        _ => None,
    }
}

/// Splits received bytes into messages, and remembers whether the current message had a line
/// ending that is not allowed, and what waits for the flow.
pub struct ReceiveState {
    crlf_relaxed: bool,
    fragmentizer: Fragmentizer,
    message_has_invalid_line_ending: bool,
    found: Option<Found>,
}

/// `new` is `old` after the complete message was decoded with `outcome`, and `res` what that
/// gives: the decoded message, or the error with the message's bytes, which are discarded.
pub open spec fn decoded_as<M>(
    old: ReceiveState,
    new: ReceiveState,
    outcome: DecodeOutcome,
    res: Result<M, ReceiveError>,
) -> bool {
    &&& new.crlf_relaxed_spec() == old.crlf_relaxed_spec()
    &&& !new.invalid_line_ending()
    &&& new.fragmentizer_spec() == old.fragmentizer_spec()
    &&& new.found_spec() is None
    &&& (res is Ok <==> outcome == DecodeOutcome::Success)
    &&& (res matches Err(e) ==> is_decode_error(outcome, old.invalid_line_ending(), e)
        && discarded_bytes_of(e) == old.message_bytes())
}

impl ReceiveState {
    /// A line may end with `\n` alone.
    pub closed spec fn crlf_relaxed_spec(self) -> bool {
        self.crlf_relaxed
    }

    /// The current message had a line that ended with `\n` alone, which is not allowed.
    pub closed spec fn invalid_line_ending(self) -> bool {
        self.message_has_invalid_line_ending
    }

    /// The fragmentizer that splits the received bytes.
    pub closed spec fn fragmentizer_spec(self) -> Fragmentizer {
        self.fragmentizer
    }

    /// What waits for the flow: an announced literal or a complete message.
    pub closed spec fn found_spec(self) -> Option<Found> {
        self.found
    }

    /// Received bytes that are not parsed yet.
    pub open spec fn unparsed_input(self) -> Seq<u8> {
        fragmentizer_unparsed(self.fragmentizer_spec())
    }

    /// The current message was poisoned: decoding it fails.
    pub open spec fn message_poisoned(self) -> bool {
        fragmentizer_poisoned(self.fragmentizer_spec())
    }

    /// The bytes of the current message parsed so far.
    pub open spec fn message_bytes(self) -> Seq<u8> {
        fragmentizer_message(self.fragmentizer_spec())
    }

    /// The size limit of messages, if there is one.
    pub open spec fn size_limit(self) -> Option<u32> {
        fragmentizer_limit(self.fragmentizer_spec())
    }

    /// The current message went over the size limit: bytes of it were dropped.
    pub open spec fn message_exceeded(self) -> bool {
        fragmentizer_exceeded(self.fragmentizer_spec())
    }

    /// The last fragment completed the current message; the next fragment starts a new one.
    pub open spec fn message_ended(self) -> bool {
        fragmentizer_message_ended(self.fragmentizer_spec())
    }

    /// The fragment that is found next.
    pub open spec fn next_fragment_spec(self) -> Option<FragmentSummary> {
        fragmentizer_fragment(self.fragmentizer_spec())
    }

    pub fn new(crlf_relaxed: bool, max_message_size: Option<u32>) -> (res: Self)
        ensures
            res.crlf_relaxed_spec() == crlf_relaxed,
            !res.invalid_line_ending(),
            res.unparsed_input() == Seq::<u8>::empty(),
            !res.message_poisoned(),
            res.message_bytes() == Seq::<u8>::empty(),
            res.found_spec() is None,
            res.size_limit() == max_message_size,
            !res.message_exceeded(),
            !res.message_ended(),
    {
        Self {
            crlf_relaxed,
            fragmentizer: match max_message_size {
                Some(max_message_size) => fragmentizer_with_max_message_size(max_message_size),
                None => fragmentizer_without_max_message_size(),
            },
            message_has_invalid_line_ending: false,
            found: None,
        }
    }

    /// The fragmentizer, for decoding the complete message or its tag.
    pub fn fragmentizer(&self) -> (res: &Fragmentizer)
        ensures
            *res == self.fragmentizer_spec(),
    {
        &self.fragmentizer
    }

    /// Enqueues received bytes behind those that are not parsed yet.
    pub fn enqueue_input(&mut self, bytes: &[u8])
        ensures
            final(self).crlf_relaxed_spec() == old(self).crlf_relaxed_spec(),
            final(self).invalid_line_ending() == old(self).invalid_line_ending(),
            final(self).unparsed_input() == old(self).unparsed_input() + bytes@,
            final(self).message_poisoned() == old(self).message_poisoned(),
            final(self).message_bytes() == old(self).message_bytes(),
            final(self).found_spec() == old(self).found_spec(),
            final(self).size_limit() == old(self).size_limit(),
            final(self).message_exceeded() == old(self).message_exceeded(),
            final(self).message_ended() == old(self).message_ended(),
    {
        enqueue_fragmentizer_bytes(&mut self.fragmentizer, bytes);
    }

    /// Discard the current message immediately without receiving it completely, and return
    /// its bytes received so far.
    ///
    /// This operation is dangerous because the next message might start in untrusted bytes.
    /// Use it only where the remaining bytes of the message will not be sent, e.g. the server
    /// rejected the literal of the message.
    pub fn discard_message(&mut self) -> (res: Vec<u8>)
        ensures
            final(self).crlf_relaxed_spec() == old(self).crlf_relaxed_spec(),
            !final(self).invalid_line_ending(),
            !final(self).message_poisoned(),
            final(self).unparsed_input() == old(self).unparsed_input(),
            final(self).message_bytes() == Seq::<u8>::empty(),
            res@ == old(self).message_bytes(),
            final(self).found_spec() is None,
            final(self).size_limit() == old(self).size_limit(),
            !final(self).message_exceeded(),
            !final(self).message_ended(),
    {
        let discarded_bytes = fragmentizer_message_bytes(&self.fragmentizer);
        skip_fragmentizer_message(&mut self.fragmentizer);
        self.message_has_invalid_line_ending = false;
        self.found = None;
        discarded_bytes
    }

    /// Discard the current message once it will be received completely.
    ///
    /// This operation is safe because it ensures that next message will start at a sane point:
    /// the fragments of the current message are parsed until the end of the message, and the
    /// message is then discarded without being decoded.
    pub fn poison_message(&mut self)
        ensures
            final(self).crlf_relaxed_spec() == old(self).crlf_relaxed_spec(),
            final(self).invalid_line_ending() == old(self).invalid_line_ending(),
            final(self).message_poisoned(),
            final(self).unparsed_input() == old(self).unparsed_input(),
            final(self).message_bytes() == old(self).message_bytes(),
            final(self).found_spec() == old(self).found_spec(),
            final(self).size_limit() == old(self).size_limit(),
            final(self).message_exceeded() == old(self).message_exceeded(),
            final(self).message_ended() == old(self).message_ended(),
    {
        poison_fragmentizer_message(&mut self.fragmentizer);
    }

    /// What a fragment means: a line that ends with `\n` alone, where that is not allowed,
    /// poisons the message; a line that announces a literal leaves the decision to the caller,
    /// any other line completes the message.
    pub fn handle_fragment(&mut self, fragment: Option<FragmentSummary>) -> (res: ReceiveProgress)
        ensures
            final(self).crlf_relaxed_spec() == old(self).crlf_relaxed_spec(),
            final(self).invalid_line_ending() == invalid_line_ending_after(
                old(self).invalid_line_ending(),
                old(self).crlf_relaxed_spec(),
                fragment,
            ),
            res == fragment_progress(fragment),
            final(self).unparsed_input() == old(self).unparsed_input(),
            final(self).message_bytes() == old(self).message_bytes(),
            final(self).message_poisoned() == invalid_line_ending_after(
                old(self).message_poisoned(),
                old(self).crlf_relaxed_spec(),
                fragment,
            ),
            final(self).found_spec() == found_of(res),
            final(self).size_limit() == old(self).size_limit(),
            final(self).message_exceeded() == old(self).message_exceeded(),
            final(self).message_ended() == old(self).message_ended(),
    {
        let res = match fragment {
            Some(FragmentSummary::Line { announcement, ending }) => {
                // Check for line ending compatibility
                if !self.crlf_relaxed && ending == LineEnding::Lf {
                    poison_fragmentizer_message(&mut self.fragmentizer);
                    self.message_has_invalid_line_ending = true;
                }
                match announcement {
                    // The line announces a literal, allow the caller to handle it
                    Some(LiteralAnnouncement { mode, length }) => {
                        ReceiveProgress::LiteralAnnouncement { mode, length }
                    },
                    // The message is now complete and can be decoded
                    None => ReceiveProgress::MessageComplete,
                }
            },
            // We don't need to handle literal fragments
            Some(FragmentSummary::Literal) => ReceiveProgress::LiteralReceived,
            // Not enough bytes for decoding the message, request more bytes
            None => ReceiveProgress::NeedMoreInput,
        };
        self.found = match res {
            ReceiveProgress::LiteralAnnouncement { mode, length } => Some(
                Found::LiteralAnnouncement { mode, length },
            ),
            ReceiveProgress::MessageComplete => Some(Found::MessageComplete),
            _ => None,
        };
        res
    }

    /// Parses the next fragment of the received bytes and handles it, see
    /// [`Self::handle_fragment`]; which fragment comes next depends on the bytes received.
    pub fn next_fragment(&mut self) -> (res: ReceiveProgress)
        ensures
            final(self).crlf_relaxed_spec() == old(self).crlf_relaxed_spec(),
            res == fragment_progress(old(self).next_fragment_spec()),
            final(self).invalid_line_ending() == invalid_line_ending_after(
                old(self).invalid_line_ending(),
                old(self).crlf_relaxed_spec(),
                old(self).next_fragment_spec(),
            ),
            exists|parsed: int|
                0 <= parsed <= old(self).unparsed_input().len() && final(self).unparsed_input()
                    == old(self).unparsed_input().skip(parsed),
            final(self).found_spec() == found_of(res),
            exists|parsed: int|
                0 <= parsed <= old(self).unparsed_input().len() && final(self).unparsed_input()
                    == old(self).unparsed_input().skip(parsed) && message_grown(
                    old(self).fragmentizer_spec(),
                    final(self).fragmentizer_spec(),
                    old(self).unparsed_input().take(parsed),
                ),
            final(self).size_limit() == old(self).size_limit(),
            final(self).message_ended() == (res == ReceiveProgress::MessageComplete),
            final(self).message_poisoned() == ((!old(self).message_ended()
                && old(self).message_poisoned()) || (!old(self).crlf_relaxed_spec()
                && old(self).next_fragment_spec() matches Some(
                FragmentSummary::Line { ending: LineEnding::Lf, .. },
            ))),
            within_limit(final(self).fragmentizer_spec()),
    {
        let ghost before = self.unparsed_input();
        let fragment = progress_fragmentizer(&mut self.fragmentizer);
        let ghost parsed = choose|parsed: int|
            0 <= parsed <= before.len() && self.unparsed_input() == before.skip(parsed)
                && message_grown(old(self).fragmentizer_spec(), self.fragmentizer_spec(), before.take(parsed));
        let ghost progressed = self.fragmentizer_spec();
        let res = self.handle_fragment(fragment);
        assert(0 <= parsed <= before.len() && self.unparsed_input() == before.skip(parsed)
            && message_grown(old(self).fragmentizer_spec(), progressed, before.take(parsed)));
        res
    }

    /// Ends the complete message after the caller decoded it: a failure discards the message
    /// with its bytes, and is reported as the line ending that was not allowed where that
    /// poisoned the message. The next message starts afresh.
    pub fn finish_decoding(&mut self, outcome: DecodeOutcome) -> (res: Result<(), ReceiveError>)
        ensures
            final(self).crlf_relaxed_spec() == old(self).crlf_relaxed_spec(),
            !final(self).invalid_line_ending(),
            outcome == DecodeOutcome::Success <==> res is Ok,
            res is Err ==> is_decode_error(outcome, old(self).invalid_line_ending(), res->Err_0),
            res is Err ==> discarded_bytes_of(res->Err_0) == old(self).message_bytes(),
            final(self).fragmentizer_spec() == old(self).fragmentizer_spec(),
            final(self).found_spec() is None,
    {
        let result = match outcome {
            DecodeOutcome::Success => Ok(()),
            DecodeOutcome::DecodingFailure | DecodeOutcome::DecodingRemainder => {
                let discarded_bytes = fragmentizer_message_bytes(&self.fragmentizer);
                Err(ReceiveError::DecodingFailure { discarded_bytes })
            },
            DecodeOutcome::MessageTooLong => {
                let discarded_bytes = fragmentizer_message_bytes(&self.fragmentizer);
                Err(ReceiveError::MessageTooLong { discarded_bytes })
            },
            DecodeOutcome::MessagePoisoned => {
                let discarded_bytes = fragmentizer_message_bytes(&self.fragmentizer);
                if self.message_has_invalid_line_ending {
                    Err(ReceiveError::ExpectedCrlfGotLf { discarded_bytes })
                } else {
                    Err(ReceiveError::MessageIsPoisoned { discarded_bytes })
                }
            },
        };
        self.message_has_invalid_line_ending = false;
        self.found = None;
        result
    }

    /// Takes what waits for the flow.
    pub fn take_found(&mut self) -> (res: Option<Found>)
        ensures
            res == old(self).found_spec(),
            final(self).found_spec() is None,
            final(self).crlf_relaxed_spec() == old(self).crlf_relaxed_spec(),
            final(self).invalid_line_ending() == old(self).invalid_line_ending(),
            final(self).fragmentizer_spec() == old(self).fragmentizer_spec(),
    {
        let res = self.found;
        self.found = None;
        res
    }

    /// Ends the complete message with what decoding it gave: the message, or the error for
    /// the failure, with the bytes of the message.
    fn finish_decoded<M>(&mut self, decoded: Result<M, DecodeOutcome>) -> (res: Result<
        M,
        ReceiveError,
    >)
        requires
            decoded matches Err(o) ==> o != DecodeOutcome::Success,
        ensures
            decoded_as(
                *old(self),
                *final(self),
                match decoded {
                    Ok(_) => DecodeOutcome::Success,
                    Err(o) => o,
                },
                res,
            ),
            decoded matches Ok(m) ==> res == Ok::<M, ReceiveError>(m),
    {
        match decoded {
            Ok(message) => {
                let _ = self.finish_decoding(DecodeOutcome::Success);
                Ok(message)
            },
            Err(outcome) => match self.finish_decoding(outcome) {
                Err(error) => Err(error),
                Ok(()) => {
                    assert(false);
                    Err(ReceiveError::DecodingFailure { discarded_bytes: Vec::new() })
                },
            },
        }
    }

    /// Decodes the complete message as a command, and ends it.
    pub fn decode_command(&mut self) -> (res: Result<
        (Command<'static>, ReceivedCommandKind),
        ReceiveError,
    >)
        ensures
            decoded_as(
                *old(self),
                *final(self),
                command_decoding(old(self).fragmentizer_spec()),
                res,
            ),
            decoding_fits(
                old(self).fragmentizer_spec(),
                command_decoding(old(self).fragmentizer_spec()),
            ),
            res matches Ok(c) ==> c.1 == command_kind(old(self).fragmentizer_spec()),
    {
        let decoded = decode_command_message(&self.fragmentizer);
        self.finish_decoded(decoded)
    }

    /// Decodes the complete message as the data of an authentication, and ends it.
    pub fn decode_authenticate_data(&mut self) -> (res: Result<
        AuthenticateData<'static>,
        ReceiveError,
    >)
        ensures
            decoded_as(
                *old(self),
                *final(self),
                authenticate_data_decoding(old(self).fragmentizer_spec()),
                res,
            ),
            decoding_fits(
                old(self).fragmentizer_spec(),
                authenticate_data_decoding(old(self).fragmentizer_spec()),
            ),
    {
        let decoded = decode_authenticate_data_message(&self.fragmentizer);
        self.finish_decoded(decoded)
    }

    /// Decodes the complete message as the DONE of an IDLE, and ends it.
    pub fn decode_idle_done(&mut self) -> (res: Result<(), ReceiveError>)
        ensures
            decoded_as(
                *old(self),
                *final(self),
                idle_done_decoding(old(self).fragmentizer_spec()),
                res,
            ),
            decoding_fits(
                old(self).fragmentizer_spec(),
                idle_done_decoding(old(self).fragmentizer_spec()),
            ),
    {
        let decoded = decode_idle_done_message(&self.fragmentizer);
        self.finish_decoded(decoded)
    }

    /// Decodes the complete message as a greeting, and ends it.
    pub fn decode_greeting(&mut self) -> (res: Result<Greeting<'static>, ReceiveError>)
        ensures
            decoded_as(
                *old(self),
                *final(self),
                greeting_decoding(old(self).fragmentizer_spec()),
                res,
            ),
            decoding_fits(
                old(self).fragmentizer_spec(),
                greeting_decoding(old(self).fragmentizer_spec()),
            ),
    {
        let decoded = decode_greeting_message(&self.fragmentizer);
        self.finish_decoded(decoded)
    }

    /// Decodes the complete message as a response, and ends it: the response with what the
    /// client reads of it.
    pub fn decode_response(&mut self) -> (res: Result<
        (Response<'static>, ResponseShape),
        ReceiveError,
    >)
        ensures
            decoded_as(
                *old(self),
                *final(self),
                response_decoding(old(self).fragmentizer_spec()),
                res,
            ),
            decoding_fits(
                old(self).fragmentizer_spec(),
                response_decoding(old(self).fragmentizer_spec()),
            ),
            res matches Ok(r) ==> r.1 == response_shape(old(self).fragmentizer_spec()),
    {
        let shape = decoded_response_shape(&self.fragmentizer);
        let decoded = decode_response_message(&self.fragmentizer);
        let decoded = match (decoded, shape) {
            (Ok(response), Some(shape)) => Ok((response, shape)),
            (Err(outcome), _) => Err(outcome),
            (Ok(_), None) => {
                assert(false);
                Err(DecodeOutcome::DecodingFailure)
            },
        };
        self.finish_decoded(decoded)
    }
}

/// The parts, one after the other.
pub open spec fn concat_all(parts: Seq<Seq<u8>>) -> Seq<u8>
    decreases parts.len(),
{
    if parts.len() == 0 {
        Seq::empty()
    } else {
        concat_all(parts.drop_last()) + parts.last()
    }
}

/// The message bytes of everything parsed for a message, as the fragmentizer keeps them: cut
/// off at the size limit, if there is one.
pub open spec fn kept_bytes(all: Seq<u8>, limit: Option<u32>) -> Seq<u8> {
    match limit {
        Some(m) => if all.len() > m {
            all.take(m as int)
        } else {
            all
        },
        None => all,
    }
}

/// Everything parsed for a message went over the size limit.
pub open spec fn over_limit(all: Seq<u8>, limit: Option<u32>) -> bool {
    limit matches Some(m) && all.len() > m
}

/// A run of parsing steps within one message: the fragmentizer starts a message (the last
/// one ended, or nothing of this one is kept yet), every step appends its parsed bytes, and no
/// step before the last ends the message.
pub open spec fn message_run(frags: Seq<Fragmentizer>, parsed: Seq<Seq<u8>>) -> bool {
    &&& frags.len() == parsed.len() + 1
    &&& fragmentizer_message_ended(frags[0]) || (fragmentizer_message(frags[0]).len() == 0
        && !fragmentizer_exceeded(frags[0]))
    &&& forall|k: int|
        0 <= k < parsed.len() ==> message_grown(frags[k], #[trigger] frags[k + 1], parsed[k])
            && fragmentizer_limit(frags[k + 1]) == fragmentizer_limit(frags[k])
    &&& forall|k: int| 0 < k < parsed.len() ==> !fragmentizer_message_ended(#[trigger] frags[k])
}

/// Over the steps that receive one message, the fragmentizer keeps the bytes received for it,
/// up to the size limit, and marks the message as over the limit exactly where the bytes
/// received go over it; so an error for a message that is too long carries its first bytes,
/// up to the limit.
pub proof fn lemma_message_bytes_received(frags: Seq<Fragmentizer>, parsed: Seq<Seq<u8>>)
    requires
        message_run(frags, parsed),
        parsed.len() > 0,
    ensures
        fragmentizer_message(frags.last()) == kept_bytes(concat_all(parsed), fragmentizer_limit(frags[0])),
        fragmentizer_exceeded(frags.last()) == over_limit(concat_all(parsed), fragmentizer_limit(frags[0])),
    decreases parsed.len(),
{
    let n = parsed.len() - 1;
    let limit = fragmentizer_limit(frags[0]);
    assert(message_grown(frags[n], frags[n + 1], parsed[n]));
    assert(parsed.drop_last().len() == n);
    if n == 0 {
        assert(concat_all(parsed.drop_last()) == Seq::<u8>::empty());
        assert(concat_all(parsed) =~= parsed[0]);
        let base = if fragmentizer_message_ended(frags[0]) {
            Seq::<u8>::empty()
        } else {
            fragmentizer_message(frags[0])
        };
        assert(base =~= Seq::<u8>::empty());
        assert(base + parsed[0] =~= parsed[0]);
    } else {
        let earlier = frags.drop_last();
        let earlier_parsed = parsed.drop_last();
        assert forall|k: int| 0 <= k < earlier_parsed.len() implies message_grown(
            earlier[k],
            #[trigger] earlier[k + 1],
            earlier_parsed[k],
        ) && fragmentizer_limit(earlier[k + 1]) == fragmentizer_limit(earlier[k]) by {
            assert(message_grown(frags[k], frags[k + 1], parsed[k]));
        }
        assert forall|k: int| 0 < k < earlier_parsed.len() implies !fragmentizer_message_ended(
            #[trigger] earlier[k],
        ) by {
            assert(!fragmentizer_message_ended(frags[k]));
        }
        lemma_message_bytes_received(earlier, earlier_parsed);
        lemma_limit_along_run(frags, parsed, n);
        assert(!fragmentizer_message_ended(frags[n]));
        let before = concat_all(earlier_parsed);
        assert(concat_all(parsed) =~= before + parsed[n]);
        match limit {
            Some(m) => {
                if before.len() > m {
                    assert((before.take(m as int) + parsed[n]).take(m as int) =~= (before
                        + parsed[n]).take(m as int));
                }
            },
            None => {},
        }
    }
}

/// Along a run, the size limit stays the same.
proof fn lemma_limit_along_run(frags: Seq<Fragmentizer>, parsed: Seq<Seq<u8>>, i: int)
    requires
        message_run(frags, parsed),
        0 <= i <= parsed.len(),
    ensures
        fragmentizer_limit(frags[i]) == fragmentizer_limit(frags[0]),
    decreases i,
{
    if i > 0 {
        let k = i - 1;
        lemma_limit_along_run(frags, parsed, k);
        assert(message_grown(frags[k], frags[k + 1], parsed[k]) && fragmentizer_limit(frags[k + 1])
            == fragmentizer_limit(frags[k]));
    }
}

} // verus!
