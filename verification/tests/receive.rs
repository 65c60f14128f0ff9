use imap_next::message::{LineEnding, LiteralAnnouncement, LiteralMode};
use imap_next::receive::{DecodeOutcome, FragmentSummary, ReceiveError, ReceiveProgress, ReceiveState};

#[test]
fn receive_complete_line() {
    let mut state = ReceiveState::new(false, Some(1024));
    assert_eq!(state.next_fragment(), ReceiveProgress::NeedMoreInput);
    state.enqueue_input(b"A1 NOOP");
    assert_eq!(state.next_fragment(), ReceiveProgress::NeedMoreInput);
    state.enqueue_input(b"\r\n");
    assert_eq!(state.next_fragment(), ReceiveProgress::MessageComplete);
    assert_eq!(state.fragmentizer().message_bytes(), b"A1 NOOP\r\n");
    assert!(state.finish_decoding(DecodeOutcome::Success).is_ok());
}

#[test]
fn receive_literal_announcement() {
    let mut state = ReceiveState::new(false, None);
    state.enqueue_input(b"A1 LOGIN {5}\r\nABCDE {5+}\r\nFGHIJ\r\n");
    assert_eq!(
        state.next_fragment(),
        ReceiveProgress::LiteralAnnouncement { mode: LiteralMode::Sync, length: 5 }
    );
    assert_eq!(state.next_fragment(), ReceiveProgress::LiteralReceived);
    assert_eq!(
        state.next_fragment(),
        ReceiveProgress::LiteralAnnouncement { mode: LiteralMode::NonSync, length: 5 }
    );
    assert_eq!(state.next_fragment(), ReceiveProgress::LiteralReceived);
    assert_eq!(state.next_fragment(), ReceiveProgress::MessageComplete);
}

#[test]
fn receive_lf_poisons_message() {
    let mut state = ReceiveState::new(false, None);
    state.enqueue_input(b"A1 NOOP\n");
    assert_eq!(state.next_fragment(), ReceiveProgress::MessageComplete);
    assert!(state.fragmentizer().is_message_poisoned());
    match state.finish_decoding(DecodeOutcome::MessagePoisoned) {
        Err(ReceiveError::ExpectedCrlfGotLf { discarded_bytes }) => {
            assert_eq!(discarded_bytes, b"A1 NOOP\n".to_vec())
        }
        _ => panic!("expected ExpectedCrlfGotLf"),
    }
    // The next message starts afresh.
    state.enqueue_input(b"A2 NOOP\r\n");
    assert_eq!(state.next_fragment(), ReceiveProgress::MessageComplete);
    assert!(!state.fragmentizer().is_message_poisoned());
}

#[test]
fn receive_lf_relaxed() {
    let mut state = ReceiveState::new(true, None);
    state.enqueue_input(b"A1 NOOP\n");
    assert_eq!(state.next_fragment(), ReceiveProgress::MessageComplete);
    assert!(!state.fragmentizer().is_message_poisoned());
}

#[test]
fn receive_decoding_errors() {
    let mut state = ReceiveState::new(false, Some(8));
    state.enqueue_input(b"I like bananas\r\n");
    assert_eq!(state.next_fragment(), ReceiveProgress::MessageComplete);
    assert!(state.fragmentizer().is_max_message_size_exceeded());
    match state.finish_decoding(DecodeOutcome::MessageTooLong) {
        Err(ReceiveError::MessageTooLong { discarded_bytes }) => {
            assert_eq!(discarded_bytes, b"I like b".to_vec())
        }
        _ => panic!("expected MessageTooLong"),
    }
    assert!(matches!(
        state.finish_decoding(DecodeOutcome::DecodingFailure),
        Err(ReceiveError::DecodingFailure { .. })
    ));
    assert!(matches!(
        state.finish_decoding(DecodeOutcome::DecodingRemainder),
        Err(ReceiveError::DecodingFailure { .. })
    ));
    state.poison_message();
    assert!(matches!(
        state.finish_decoding(DecodeOutcome::MessagePoisoned),
        Err(ReceiveError::MessageIsPoisoned { .. })
    ));
}

#[test]
fn receive_discard_message() {
    let mut state = ReceiveState::new(false, None);
    state.enqueue_input(b"A1 LOGIN {5}\r\nA2 NOOP\r\n");
    assert!(matches!(state.next_fragment(), ReceiveProgress::LiteralAnnouncement { .. }));
    assert_eq!(state.discard_message(), b"A1 LOGIN {5}\r\n".to_vec());
    assert_eq!(state.next_fragment(), ReceiveProgress::MessageComplete);
    assert_eq!(state.fragmentizer().message_bytes(), b"A2 NOOP\r\n");
}

#[test]
fn receive_handle_fragment() {
    let mut state = ReceiveState::new(false, None);
    let announcement = LiteralAnnouncement { length: 3, mode: LiteralMode::Sync };
    assert_eq!(
        state.handle_fragment(Some(FragmentSummary::Line {
            announcement: Some(announcement),
            ending: LineEnding::CrLf
        })),
        ReceiveProgress::LiteralAnnouncement { mode: LiteralMode::Sync, length: 3 }
    );
    assert_eq!(
        state.handle_fragment(Some(FragmentSummary::Literal)),
        ReceiveProgress::LiteralReceived
    );
    assert_eq!(state.handle_fragment(None), ReceiveProgress::NeedMoreInput);
}
