use imap_next::message::{
    find_line_ending, parse_literal_announcement, Event, FindLineEndingResult, Line, LineEnding,
    Literal, LiteralAnnouncement, LiteralMode, Message, MessageParser,
};

#[test]
fn find_line_ending_examples() {
    assert_eq!(find_line_ending(b"", 0), None);

    assert_eq!(find_line_ending(b"foo", 0), None);

    assert_eq!(find_line_ending(b"\n", 1), None);

    assert_eq!(
        find_line_ending(b"\n", 0),
        Some(FindLineEndingResult {
            lf_position: 0,
            ending: LineEnding::Lf
        }),
    );

    assert_eq!(
        find_line_ending(b"\r\n", 0),
        Some(FindLineEndingResult {
            lf_position: 1,
            ending: LineEnding::CrLf
        }),
    );

    assert_eq!(
        find_line_ending(b"\r\n", 1),
        Some(FindLineEndingResult {
            lf_position: 1,
            ending: LineEnding::CrLf
        }),
    );

    assert_eq!(find_line_ending(b"\r\n", 2), None,);

    assert_eq!(
        find_line_ending(b"\r\nfoo\r\n", 2),
        Some(FindLineEndingResult {
            lf_position: 6,
            ending: LineEnding::CrLf
        }),
    );

    assert_eq!(
        find_line_ending(b"\r\nfoo\r\nbar", 6),
        Some(FindLineEndingResult {
            lf_position: 6,
            ending: LineEnding::CrLf
        }),
    );

    assert_eq!(find_line_ending(b"\r\nfoo\r\nbar", 7), None);
}

#[test]
fn parse_literal_announcement_examples() {
    assert_eq!(parse_literal_announcement(b"", LineEnding::CrLf), None,);

    assert_eq!(
        parse_literal_announcement(b"{1}\r\n", LineEnding::CrLf),
        Some(LiteralAnnouncement {
            length: 1,
            mode: LiteralMode::Sync
        })
    );

    assert_eq!(
        parse_literal_announcement(b"{1}\n", LineEnding::Lf),
        Some(LiteralAnnouncement {
            length: 1,
            mode: LiteralMode::Sync
        })
    );

    assert_eq!(
        parse_literal_announcement(b"foo {1}\r\n", LineEnding::CrLf),
        Some(LiteralAnnouncement {
            length: 1,
            mode: LiteralMode::Sync
        })
    );

    assert_eq!(
        parse_literal_announcement(b"foo {2} {1}\r\n", LineEnding::CrLf),
        Some(LiteralAnnouncement {
            length: 1,
            mode: LiteralMode::Sync
        })
    );

    assert_eq!(
        parse_literal_announcement(b"foo {1} \r\n", LineEnding::CrLf),
        None
    );

    assert_eq!(
        parse_literal_announcement(b"foo {1} foo\r\n", LineEnding::CrLf),
        None
    );

    assert_eq!(
        parse_literal_announcement(b"foo {1\r\n", LineEnding::CrLf),
        None
    );

    assert_eq!(
        parse_literal_announcement(b"foo 1}\r\n", LineEnding::CrLf),
        None
    );

    assert_eq!(
        parse_literal_announcement(b"foo { 1}\r\n", LineEnding::CrLf),
        None
    );

    assert_eq!(
        parse_literal_announcement(b"foo {{1}\r\n", LineEnding::CrLf),
        Some(LiteralAnnouncement {
            length: 1,
            mode: LiteralMode::Sync
        })
    );

    assert_eq!(
        parse_literal_announcement(b"foo {42}\r\n", LineEnding::CrLf),
        Some(LiteralAnnouncement {
            length: 42,
            mode: LiteralMode::Sync
        })
    );

    assert_eq!(
        parse_literal_announcement(b"foo {+42}\r\n", LineEnding::CrLf),
        Some(LiteralAnnouncement {
            length: 42,
            mode: LiteralMode::NonSync
        })
    );

    assert_eq!(
        parse_literal_announcement(b"foo {++42}\r\n", LineEnding::CrLf),
        None
    );

    assert_eq!(
        parse_literal_announcement(b"foo {-42}\r\n", LineEnding::CrLf),
        None
    );

    assert_eq!(
        parse_literal_announcement(b"foo {4294967295}\r\n", LineEnding::CrLf),
        Some(LiteralAnnouncement {
            length: 4294967295,
            mode: LiteralMode::Sync
        })
    );

    assert_eq!(
        parse_literal_announcement(b"foo {4294967296}\r\n", LineEnding::CrLf),
        None
    );
}

#[test]
fn single_message() {
    let bytes = b"* OK ...\r\n";

    let mut parser = MessageParser::new();

    assert_eq!(
        parser.next(bytes),
        Some(Event::Line(Line {
            bytes: b"* OK ...\r\n",
            announcement: None,
            ending: LineEnding::CrLf,
        }))
    );

    assert_eq!(
        parser.next(bytes),
        Some(Event::Message(Message {
            bytes: b"* OK ...\r\n",
        }))
    );

    assert_eq!(None, parser.next(bytes));
}

#[test]
fn multiple_messages() {
    let bytes = b"A1 OK ...\r\nA2 BAD ...\r\n";

    let mut parser = MessageParser::new();

    assert_eq!(
        parser.next(bytes),
        Some(Event::Line(Line {
            bytes: b"A1 OK ...\r\n",
            announcement: None,
            ending: LineEnding::CrLf,
        }))
    );

    assert_eq!(
        parser.next(bytes),
        Some(Event::Message(Message {
            bytes: b"A1 OK ...\r\n",
        }))
    );

    assert_eq!(
        parser.next(bytes),
        Some(Event::Line(Line {
            bytes: b"A2 BAD ...\r\n",
            announcement: None,
            ending: LineEnding::CrLf,
        }))
    );

    assert_eq!(
        parser.next(bytes),
        Some(Event::Message(Message {
            bytes: b"A2 BAD ...\r\n",
        }))
    );

    assert_eq!(None, parser.next(bytes));
}

#[test]
fn literal() {
    let bytes = b"A1 LOGIN {5}\r\nABCDE {5}\r\nFGHIJ\r\n";

    let mut parser = MessageParser::new();

    assert_eq!(
        parser.next(bytes),
        Some(Event::Line(Line {
            bytes: b"A1 LOGIN {5}\r\n",
            announcement: Some(LiteralAnnouncement {
                length: 5,
                mode: LiteralMode::Sync
            }),
            ending: LineEnding::CrLf,
        }))
    );

    assert_eq!(
        parser.next(bytes),
        Some(Event::Literal(Literal { bytes: b"ABCDE" }))
    );

    assert_eq!(
        parser.next(bytes),
        Some(Event::Line(Line {
            bytes: b" {5}\r\n",
            announcement: Some(LiteralAnnouncement {
                length: 5,
                mode: LiteralMode::Sync
            }),
            ending: LineEnding::CrLf,
        }))
    );

    assert_eq!(
        parser.next(bytes),
        Some(Event::Literal(Literal { bytes: b"FGHIJ" }))
    );

    assert_eq!(
        parser.next(bytes),
        Some(Event::Line(Line {
            bytes: b"\r\n",
            announcement: None,
            ending: LineEnding::CrLf,
        }))
    );

    assert_eq!(
        parser.next(bytes),
        Some(Event::Message(Message {
            bytes: b"A1 LOGIN {5}\r\nABCDE {5}\r\nFGHIJ\r\n",
        }))
    );

    assert_eq!(parser.next(bytes), None);
}

#[test]
fn skip_message_after_literal_announcement() {
    let bytes = b"A1 LOGIN {5}\r\nA2 OK ...\r\n";

    let mut parser = MessageParser::new();

    assert_eq!(
        parser.next(bytes),
        Some(Event::Line(Line {
            bytes: b"A1 LOGIN {5}\r\n",
            announcement: Some(LiteralAnnouncement {
                length: 5,
                mode: LiteralMode::Sync
            }),
            ending: LineEnding::CrLf,
        }))
    );

    parser.skip_message();

    assert_eq!(
        parser.next(bytes),
        Some(Event::Line(Line {
            bytes: b"A2 OK ...\r\n",
            announcement: None,
            ending: LineEnding::CrLf,
        }))
    );

    assert_eq!(
        parser.next(bytes),
        Some(Event::Message(Message {
            bytes: b"A2 OK ...\r\n",
        }))
    );

    assert_eq!(parser.next(bytes), None);
}

#[test]
fn reset_after_literal_announcement() {
    let bytes = b"A1 LOGIN {5}\r\nABCDE FGHIJ\r\n";

    let mut parser = MessageParser::new();

    assert_eq!(
        parser.next(bytes),
        Some(Event::Line(Line {
            bytes: b"A1 LOGIN {5}\r\n",
            announcement: Some(LiteralAnnouncement {
                length: 5,
                mode: LiteralMode::Sync
            }),
            ending: LineEnding::CrLf,
        }))
    );

    parser.reset();

    assert_eq!(
        parser.next(bytes),
        Some(Event::Line(Line {
            bytes: b"A1 LOGIN {5}\r\n",
            announcement: Some(LiteralAnnouncement {
                length: 5,
                mode: LiteralMode::Sync
            }),
            ending: LineEnding::CrLf,
        }))
    );

    assert_eq!(
        parser.next(bytes),
        Some(Event::Literal(Literal { bytes: b"ABCDE" }))
    );

    assert_eq!(
        parser.next(bytes),
        Some(Event::Line(Line {
            bytes: b" FGHIJ\r\n",
            announcement: None,
            ending: LineEnding::CrLf,
        }))
    );

    assert_eq!(
        parser.next(bytes),
        Some(Event::Message(Message {
            bytes: b"A1 LOGIN {5}\r\nABCDE FGHIJ\r\n",
        }))
    );

    assert_eq!(parser.next(bytes), None);
}

#[test]
fn byte_by_byte() {
    let mut input = b"A1 LOGIN {5}\r\nABCDE FGHIJ\r\n".to_vec();
    input.reverse();

    let mut bytes = Vec::new();

    let mut parser = MessageParser::new();

    for _ in 0..14 {
        assert_eq!(parser.next(&bytes), None);
        bytes.push(input.pop().unwrap());
    }

    assert_eq!(
        parser.next(&bytes),
        Some(Event::Line(Line {
            bytes: b"A1 LOGIN {5}\r\n",
            announcement: Some(LiteralAnnouncement {
                length: 5,
                mode: LiteralMode::Sync
            }),
            ending: LineEnding::CrLf,
        }))
    );

    for _ in 0..5 {
        assert_eq!(parser.next(&bytes), None);
        bytes.push(input.pop().unwrap());
    }

    assert_eq!(
        parser.next(&bytes),
        Some(Event::Literal(Literal { bytes: b"ABCDE" }))
    );

    for _ in 0..8 {
        assert_eq!(parser.next(&bytes), None);
        bytes.push(input.pop().unwrap());
    }

    assert_eq!(
        parser.next(&bytes),
        Some(Event::Line(Line {
            bytes: b" FGHIJ\r\n",
            announcement: None,
            ending: LineEnding::CrLf,
        }))
    );

    assert_eq!(
        parser.next(&bytes),
        Some(Event::Message(Message {
            bytes: b"A1 LOGIN {5}\r\nABCDE FGHIJ\r\n",
        }))
    );

    assert_eq!(parser.next(&bytes), None);
}

#[test]
fn change_bytes_unexpectedly() {
    let bytes1 = b"A1 OK";
    let bytes2 = b"A2 OK ...\r\n";
    let bytes3 = b"A3 OK ...\r\n";

    let mut parser = MessageParser::new();

    assert_eq!(None, parser.next(bytes1));

    assert_eq!(
        parser.next(bytes2),
        Some(Event::Line(Line {
            bytes: b"A2 OK ...\r\n",
            announcement: None,
            ending: LineEnding::CrLf,
        }))
    );

    assert_eq!(None, parser.next(bytes1));

    assert_eq!(
        parser.next(bytes3),
        Some(Event::Message(Message {
            bytes: b"A3 OK ...\r\n",
        }))
    );

    assert_eq!(None, parser.next(bytes1));
}
