//! Framing of IMAP messages into lines and literals.
//!
//! An IMAP message is a sequence of lines. A line that ends with a literal announcement
//! (`{<length>}` or `{+<length>}` right before the line ending) is followed by a literal of
//! exactly `<length>` bytes, after which the message continues with another line. A line
//! without a literal announcement completes the message.

use vstd::prelude::*;

verus! {

/// ASCII `\n`.
pub const LF: u8 = 10;
/// ASCII `\r`.
pub const CR: u8 = 13;

/// The character sequence used for ending a line.
#[derive(Clone, Copy, Debug, Eq, PartialEq, Structural)]
pub enum LineEnding {
    Lf,
    CrLf,
}

/// Whether the sender waits for a continuation request before sending a literal.
#[derive(Clone, Copy, Debug, Eq, PartialEq, Structural)]
pub enum LiteralMode {
    /// `{<length>}`: the receiver must accept the literal first.
    Sync,
    /// `{+<length>}`: the literal follows immediately.
    NonSync,
}

/// A literal announced at the end of a line.
#[derive(Clone, Copy, Debug, Eq, PartialEq)]
pub struct LiteralAnnouncement {
    pub length: u32,
    pub mode: LiteralMode,
}

/// Line ending found, see [`find_line_ending`].
#[derive(Clone, Copy, Debug, Eq, PartialEq)]
pub struct FindLineEndingResult {
    /// Position of the `\n` at the end of the found line.
    pub lf_position: usize,
    /// The character sequence at the end of the found line.
    pub ending: LineEnding,
}

/// `p` is the first `\n` in `s` at or after `start`.
pub open spec fn is_first_lf_from(s: Seq<u8>, start: int, p: int) -> bool {
    &&& start <= p < s.len()
    &&& s[p] == LF
    &&& forall|j: int| start <= j < p ==> s[j] != LF
}

/// There is no `\n` in `s` at or after `start`.
pub open spec fn no_lf_from(s: Seq<u8>, start: int) -> bool {
    forall|j: int| start <= j < s.len() ==> s[j] != LF
}

/// The line ending of a line whose `\n` is at `p`.
pub open spec fn ending_at(s: Seq<u8>, p: int) -> LineEnding {
    if p >= 1 && s[p - 1] == CR {
        LineEnding::CrLf
    } else {
        LineEnding::Lf
    }
}

/// Finds the line ending (`\n` or `\r\n`) of the current line.
///
/// `remaining_bytes` holds the current line starting at index 0; the search for `\n` starts at
/// `start` (a `\r` right before it may lie before `start`).
pub fn find_line_ending(remaining_bytes: &[u8], start: usize) -> (res: Option<FindLineEndingResult>)
    ensures
        match res {
            None => no_lf_from(remaining_bytes@, start as int),
            Some(r) => {
                &&& is_first_lf_from(remaining_bytes@, start as int, r.lf_position as int)
                &&& r.ending == ending_at(remaining_bytes@, r.lf_position as int)
            },
        },
{
    let len = remaining_bytes.len();
    let mut i = start;
    while i < len
        invariant
            len == remaining_bytes@.len(),
            start <= i,
            forall|j: int| start <= j < i ==> remaining_bytes@[j] != LF,
        decreases len - i,
    {
        if remaining_bytes[i] == LF {
            let ending = if i >= 1 && remaining_bytes[i - 1] == CR {
                LineEnding::CrLf
            } else {
                LineEnding::Lf
            };
            return Some(FindLineEndingResult { lf_position: i, ending });
        }
        i = i + 1;
    }
    None
}


/// ASCII `}`.
pub const CLOSE_BRACE: u8 = 125;
/// ASCII `{`.
pub const OPEN_BRACE: u8 = 123;
/// ASCII `+`.
pub const PLUS: u8 = 43;

pub open spec fn is_digit(b: u8) -> bool {
    48 <= b <= 57
}

pub open spec fn pow10(n: nat) -> nat
    decreases n,
{
    if n == 0 {
        1
    } else {
        10 * pow10((n - 1) as nat)
    }
}

/// Number of consecutive decimal digits in `s` that end right before index `end`.
pub open spec fn digit_run(s: Seq<u8>, end: int) -> nat
    decreases end,
{
    if 0 < end <= s.len() && is_digit(s[end - 1]) {
        1 + digit_run(s, end - 1)
    } else {
        0
    }
}

/// Value of the decimal digits `s[lo..hi]`.
pub open spec fn decimal_value(s: Seq<u8>, lo: int, hi: int) -> nat
    decreases hi - lo,
{
    if lo >= hi {
        0
    } else {
        ((s[lo] - 48) as nat) * pow10((hi - lo - 1) as nat) + decimal_value(s, lo + 1, hi)
    }
}

/// Length of a line ending.
pub open spec fn ending_len(ending: LineEnding) -> int {
    match ending {
        LineEnding::Lf => 1,
        LineEnding::CrLf => 2,
    }
}

/// The literal announced at the end of `line`, whose last `ending_len(ending)` bytes are the
/// line ending: `{<digits>}` (sync) or `{+<digits>}` (non-sync) right before the ending, with
/// one to ten digits whose value fits in a `u32`.
pub open spec fn literal_announcement_of(line: Seq<u8>, ending: LineEnding) -> Option<
    LiteralAnnouncement,
> {
    let k = line.len() - 1 - ending_len(ending);
    if k < 0 || line[k] != CLOSE_BRACE {
        None
    } else {
        let r = digit_run(line, k);
        if r == 0 || r > 10 || r >= k {
            None
        } else {
            let j = k - 1 - r;
            let v = decimal_value(line, j + 1, k);
            if v > u32::MAX {
                None
            } else if line[j] == PLUS {
                if j >= 1 && line[j - 1] == OPEN_BRACE {
                    Some(LiteralAnnouncement { length: v as u32, mode: LiteralMode::NonSync })
                } else {
                    None
                }
            } else if line[j] == OPEN_BRACE {
                Some(LiteralAnnouncement { length: v as u32, mode: LiteralMode::Sync })
            } else {
                None
            }
        }
    }
}

proof fn lemma_pow10_bound(n: nat)
    requires
        n <= 9,
    ensures
        pow10(n) <= 1_000_000_000,
{
    reveal_with_fuel(pow10, 10);
}

proof fn lemma_digit_run_at_least(s: Seq<u8>, end: int, d: nat)
    requires
        0 <= end - d,
        end <= s.len(),
        forall|t: int| end - d <= t < end ==> is_digit(#[trigger] s[t]),
    ensures
        digit_run(s, end) >= d,
    decreases d,
{
    if d > 0 {
        lemma_digit_run_at_least(s, end - 1, (d - 1) as nat);
    }
}

proof fn lemma_digit_run_exact(s: Seq<u8>, end: int, d: nat)
    requires
        0 <= end - d,
        end <= s.len(),
        forall|t: int| end - d <= t < end ==> is_digit(#[trigger] s[t]),
        end - d == 0 || !is_digit(s[end - d - 1]),
    ensures
        digit_run(s, end) == d,
    decreases d,
{
    if d > 0 {
        lemma_digit_run_exact(s, end - 1, (d - 1) as nat);
    }
}

proof fn lemma_digit_run_digits(s: Seq<u8>, end: int)
    requires
        end <= s.len(),
    ensures
        digit_run(s, end) <= if end >= 0 { end } else { 0 },
        forall|t: int| end - digit_run(s, end) <= t < end ==> is_digit(#[trigger] s[t]),
    decreases if end >= 0 { end } else { 0 },
{
    if 0 < end && is_digit(s[end - 1]) {
        lemma_digit_run_digits(s, end - 1);
    }
}

proof fn lemma_decimal_value_monotone(s: Seq<u8>, lo1: int, lo2: int, hi: int)
    requires
        lo1 <= lo2,
        forall|t: int| lo1 <= t < hi ==> is_digit(#[trigger] s[t]),
    ensures
        decimal_value(s, lo1, hi) >= decimal_value(s, lo2, hi),
    decreases lo2 - lo1,
{
    if lo1 < lo2 {
        lemma_decimal_value_monotone(s, lo1 + 1, lo2, hi);
        if lo1 < hi {
            assert(is_digit(s[lo1]));
        }
    }
}

/// Parses the literal announcement at the end of a line, see [`literal_announcement_of`].
pub fn parse_literal_announcement(line_bytes: &[u8], line_ending: LineEnding) -> (res: Option<
    LiteralAnnouncement,
>)
    ensures
        res == literal_announcement_of(line_bytes@, line_ending),
{
    let len = line_bytes.len();
    let ghost line = line_bytes@;
    // We parse from the end
    if len == 0 {
        return None;
    }
    let mut i = len - 1;
    // Skip the line ending
    match line_ending {
        LineEnding::Lf => {
            if i < 1 {
                return None;
            }
            i = i - 1;
        },
        LineEnding::CrLf => {
            if i < 2 {
                return None;
            }
            i = i - 2;
        },
    }
    let ghost k = i as int;
    // Parse the mandatory closing bracket
    if line_bytes[i] != CLOSE_BRACE {
        return None;
    }
    if i == 0 {
        proof {
            lemma_digit_run_exact(line, k, 0);
        }
        return None;
    }
    i = i - 1;
    // Parse the mandatory length
    let mut digits: u32 = 0;
    let mut length: u32 = 0;
    let mut power: u32 = 1;
    loop
        invariant
            len == line.len(),
            line == line_bytes@,
            0 <= k < len,
            line[k] == CLOSE_BRACE,
            k == line.len() - 1 - ending_len(line_ending),
            i as int == k - 1 - digits,
            0 <= i,
            digits <= 10,
            digits < 10 ==> power as nat == pow10(digits as nat),
            forall|t: int| k - digits <= t < k ==> is_digit(#[trigger] line[t]),
            length as nat == decimal_value(line, k - digits, k),
            power <= 1_000_000_000,
        ensures
            i as int == k - 1 - digits,
            0 <= i,
            digits <= 10,
            digit_run(line, k) == digits,
            length as nat == decimal_value(line, k - digits, k),
        decreases i,
    {
        let c = line_bytes[i];
        if 48 <= c && c <= 57 {
            proof {
                lemma_digit_run_at_least(line, k, (digits + 1) as nat);
            }
            if digits >= 10 {
                return None;
            }
            let digit = (c - 48) as u32;
            let ghost p = i as int;
            assert(decimal_value(line, p, k) == (digit as nat) * pow10(digits as nat)
                + decimal_value(line, p + 1, k));
            assert((digit as u64) * (power as u64) <= 9_000_000_000) by (nonlinear_arith)
                requires
                    digit <= 9,
                    power <= 1_000_000_000,
            {}
            let addend64 = (digit as u64) * (power as u64);
            if addend64 > 0xffff_ffff || (length as u64) + addend64 > 0xffff_ffff {
                proof {
                    assert((digit as nat) * pow10(digits as nat) == addend64 as nat);
                    assert(decimal_value(line, p, k) > u32::MAX);
                    let r = digit_run(line, k);
                    if r <= 10 && r < k {
                        lemma_digit_run_digits(line, k);
                        lemma_decimal_value_monotone(line, k - r, p, k);
                    }
                }
                return None;
            }
            length = (length as u64 + addend64) as u32;
            digits = digits + 1;
            if digits < 10 {
                proof {
                    lemma_pow10_bound(digits as nat);
                }
                power = power * 10;
            }
            if i == 0 {
                proof {
                    lemma_digit_run_exact(line, k, digits as nat);
                }
                return None;
            }
            i = i - 1;
        } else {
            proof {
                lemma_digit_run_exact(line, k, digits as nat);
            }
            break;
        }
    }
    // The length must have at least one digit
    if digits == 0 {
        return None;
    }
    // Parse the optional sign indicating non-sync mode
    let mode = if line_bytes[i] == PLUS {
        if i == 0 {
            return None;
        }
        i = i - 1;
        LiteralMode::NonSync
    } else {
        LiteralMode::Sync
    };
    // Parse the mandatory opening bracket
    if line_bytes[i] != OPEN_BRACE {
        return None;
    }
    Some(LiteralAnnouncement { length, mode })
}


/// A line of a message, including its line ending.
#[derive(Clone, Copy, Debug, Eq, PartialEq)]
pub struct Line<'a> {
    pub bytes: &'a [u8],
    pub announcement: Option<LiteralAnnouncement>,
    pub ending: LineEnding,
}

impl<'a> Line<'a> {
    pub fn len(&self) -> (res: usize)
        ensures
            res == self.bytes@.len(),
    {
        self.bytes.len()
    }
}

/// A literal of a message.
#[derive(Clone, Copy, Debug, Eq, PartialEq)]
pub struct Literal<'a> {
    pub bytes: &'a [u8],
}

impl<'a> Literal<'a> {
    pub fn len(&self) -> (res: usize)
        ensures
            res == self.bytes@.len(),
    {
        self.bytes.len()
    }
}

/// A complete message: all its lines and literals.
#[derive(Clone, Copy, Debug, Eq, PartialEq)]
pub struct Message<'a> {
    pub bytes: &'a [u8],
}

impl<'a> Message<'a> {
    pub fn len(&self) -> (res: usize)
        ensures
            res == self.bytes@.len(),
    {
        self.bytes.len()
    }
}

/// What [`MessageParser::next`] found.
#[derive(Clone, Copy, Debug, Eq, PartialEq)]
pub enum Event<'a> {
    Line(Line<'a>),
    Literal(Literal<'a>),
    Message(Message<'a>),
}

/// Next event that will be emitted...
#[derive(Clone, Copy, Debug, Eq, PartialEq)]
pub enum NextEvent {
    /// ... is a line.
    Line {
        /// How many bytes of the current line were already searched for its end.
        seen_bytes_in_line: usize,
    },
    /// ... is a literal with the given length.
    Literal { length: u32 },
    /// ... is the complete message.
    Message { message_end: usize },
}

impl NextEvent {
    pub fn start_new_line() -> (res: Self)
        ensures
            res == (NextEvent::Line { seen_bytes_in_line: 0 }),
    {
        NextEvent::Line { seen_bytes_in_line: 0 }
    }
}

/// Splits the bytes received so far into lines, literals, and messages.
///
/// The parser does not own the bytes: each call of [`MessageParser::next`] gets the buffer,
/// which is expected to grow by appending only, and reports positions relative to its start.
#[derive(Clone, Debug)]
pub struct MessageParser {
    message_start: usize,
    fragment_start: usize,
    next_event: NextEvent,
}

/// The bytes from the start of the current message to the end of the last fragment.
pub open spec fn pending_bytes(p: MessageParser, bytes: Seq<u8>) -> Seq<u8> {
    bytes.subrange(p.message_start_spec() as int, p.fragment_start_spec() as int)
}

/// The parser did not change and found nothing.
pub open spec fn no_progress(old_p: MessageParser, new_p: MessageParser, res: Option<Event>) -> bool {
    &&& new_p == old_p
    &&& res is None
}

/// Contract of a step that expects a line.
pub open spec fn line_step(
    old_p: MessageParser,
    new_p: MessageParser,
    bytes: Seq<u8>,
    seen: usize,
    res: Option<Event>,
) -> bool {
    let fs = old_p.fragment_start_spec() as int;
    let rem = bytes.subrange(fs, bytes.len() as int);
    if fs > bytes.len() || no_lf_from(rem, seen as int) {
        no_progress(old_p, new_p, res)
    } else {
        match res {
            Some(Event::Line(line)) => {
                let n = line.bytes@.len() as int;
                &&& n > 0
                &&& is_first_lf_from(rem, seen as int, n - 1)
                &&& line.bytes@ == rem.take(n)
                &&& line.ending == ending_at(rem, n - 1)
                &&& line.announcement == literal_announcement_of(line.bytes@, line.ending)
                &&& new_p.message_start_spec() == old_p.message_start_spec()
                &&& new_p.fragment_start_spec() == fs + n
                &&& new_p.next_event_spec() == match line.announcement {
                    Some(a) => NextEvent::Literal { length: a.length },
                    None => NextEvent::Message { message_end: (fs + n) as usize },
                }
            },
            _ => false,
        }
    }
}

/// Contract of a step that expects a literal of `length` bytes.
pub open spec fn literal_step(
    old_p: MessageParser,
    new_p: MessageParser,
    bytes: Seq<u8>,
    length: u32,
    res: Option<Event>,
) -> bool {
    let fs = old_p.fragment_start_spec() as int;
    if fs > bytes.len() || bytes.len() - fs < length {
        no_progress(old_p, new_p, res)
    } else {
        match res {
            Some(Event::Literal(literal)) => {
                &&& literal.bytes@ == bytes.subrange(fs, fs + length)
                &&& new_p.message_start_spec() == old_p.message_start_spec()
                &&& new_p.fragment_start_spec() == fs + length
                &&& new_p.next_event_spec() == NextEvent::start_new_line_spec()
            },
            _ => false,
        }
    }
}

/// Contract of a step that expects the message that ends at `message_end`.
pub open spec fn message_step(
    old_p: MessageParser,
    new_p: MessageParser,
    bytes: Seq<u8>,
    message_end: usize,
    res: Option<Event>,
) -> bool {
    let ms = old_p.message_start_spec() as int;
    if ms > message_end || message_end > bytes.len() {
        no_progress(old_p, new_p, res)
    } else {
        match res {
            Some(Event::Message(message)) => {
                &&& message.bytes@ == bytes.subrange(ms, message_end as int)
                &&& new_p.message_start_spec() == message_end
                &&& new_p.fragment_start_spec() == message_end
                &&& new_p.next_event_spec() == NextEvent::start_new_line_spec()
            },
            _ => false,
        }
    }
}

/// Contract of [`MessageParser::next`]: the step that the expected event calls for.
pub open spec fn next_step(
    old_p: MessageParser,
    new_p: MessageParser,
    bytes: Seq<u8>,
    res: Option<Event>,
) -> bool {
    match old_p.next_event_spec() {
        NextEvent::Line { seen_bytes_in_line } => line_step(
            old_p,
            new_p,
            bytes,
            seen_bytes_in_line,
            res,
        ),
        NextEvent::Literal { length } => literal_step(old_p, new_p, bytes, length, res),
        NextEvent::Message { message_end } => message_step(
            old_p,
            new_p,
            bytes,
            message_end,
            res,
        ),
    }
}

/// A message is the concatenation of its fragments: on a well-formed parser, each line or
/// literal found extends the pending bytes of the current message by exactly its own bytes,
/// and the message found is exactly the pending bytes, after which nothing is pending.
pub proof fn lemma_fragments_compose_message(
    old_p: MessageParser,
    new_p: MessageParser,
    bytes: Seq<u8>,
    res: Option<Event>,
)
    requires
        old_p.wf(),
        next_step(old_p, new_p, bytes, res),
    ensures
        new_p.wf(),
        match res {
            None => new_p == old_p,
            Some(Event::Line(line)) => pending_bytes(new_p, bytes) == pending_bytes(old_p, bytes)
                + line.bytes@,
            Some(Event::Literal(literal)) => pending_bytes(new_p, bytes) == pending_bytes(
                old_p,
                bytes,
            ) + literal.bytes@,
            Some(Event::Message(message)) => {
                &&& message.bytes@ == pending_bytes(old_p, bytes)
                &&& pending_bytes(new_p, bytes).len() == 0
            },
        },
{
    let ms = old_p.message_start_spec() as int;
    let fs = old_p.fragment_start_spec() as int;
    match res {
        Some(Event::Line(line)) => {
            let rem = bytes.subrange(fs, bytes.len() as int);
            assert(bytes.subrange(ms, fs + line.bytes@.len()) =~= bytes.subrange(ms, fs)
                + line.bytes@);
        },
        Some(Event::Literal(literal)) => {
            assert(bytes.subrange(ms, fs + literal.bytes@.len()) =~= bytes.subrange(ms, fs)
                + literal.bytes@);
        },
        _ => {},
    }
}

impl NextEvent {
    pub open spec fn start_new_line_spec() -> NextEvent {
        NextEvent::Line { seen_bytes_in_line: 0 }
    }
}

impl MessageParser {
    pub closed spec fn message_start_spec(self) -> usize {
        self.message_start
    }

    pub closed spec fn fragment_start_spec(self) -> usize {
        self.fragment_start
    }

    pub closed spec fn next_event_spec(self) -> NextEvent {
        self.next_event
    }

    /// The current message starts before its next fragment, and a message that is ready
    /// ends where the next fragment starts.
    pub open spec fn wf(self) -> bool {
        &&& self.message_start_spec() <= self.fragment_start_spec()
        &&& (self.next_event_spec() matches NextEvent::Message { message_end } ==> message_end
            == self.fragment_start_spec())
    }

    /// The parser state at the start of the buffer.
    pub open spec fn is_initial(self) -> bool {
        &&& self.message_start_spec() == 0
        &&& self.fragment_start_spec() == 0
        &&& self.next_event_spec() == NextEvent::start_new_line_spec()
    }

    pub fn new() -> (res: Self)
        ensures
            res.is_initial(),
            res.wf(),
    {
        Self { message_start: 0, fragment_start: 0, next_event: NextEvent::start_new_line() }
    }

    /// Starts over at the start of the buffer.
    pub fn reset(&mut self)
        ensures
            final(self).is_initial(),
            final(self).wf(),
    {
        self.message_start = 0;
        self.fragment_start = 0;
        self.next_event = NextEvent::start_new_line();
    }

    /// Drops the current message: the next message starts where the next fragment would have.
    pub fn skip_message(&mut self)
        ensures
            final(self).message_start_spec() == old(self).fragment_start_spec(),
            final(self).fragment_start_spec() == old(self).fragment_start_spec(),
            final(self).next_event_spec() == NextEvent::start_new_line_spec(),
            final(self).wf(),
    {
        self.message_start = self.fragment_start;
        self.next_event = NextEvent::start_new_line();
    }

    /// Finds the next line, literal, or complete message in `bytes`.
    pub fn next<'a>(&mut self, bytes: &'a [u8]) -> (res: Option<Event<'a>>)
        ensures
            next_step(*old(self), *final(self), bytes@, res),
            old(self).wf() ==> final(self).wf(),
    {
        match self.next_event {
            NextEvent::Line { seen_bytes_in_line } => self.next_line(bytes, seen_bytes_in_line),
            NextEvent::Literal { length } => self.next_literal(bytes, length),
            NextEvent::Message { message_end } => self.next_message(bytes, message_end),
        }
    }

    fn next_line<'a>(&mut self, bytes: &'a [u8], seen_bytes_in_line: usize) -> (res: Option<
        Event<'a>,
    >)
        ensures
            line_step(*old(self), *final(self), bytes@, seen_bytes_in_line, res),
            old(self).wf() ==> final(self).wf(),
    {
        if self.fragment_start > bytes.len() {
            return None;
        }
        let remaining_bytes = &bytes[self.fragment_start..bytes.len()];
        let line_ending_result = match find_line_ending(remaining_bytes, seen_bytes_in_line) {
            Some(r) => r,
            None => {
                // There is no full line in the remaining bytes.
                return None;
            },
        };
        // We found a full line.
        let line_length = line_ending_result.lf_position + 1;
        let fragment_end = self.fragment_start + line_length;
        let line_bytes = &remaining_bytes[0..line_length];
        let announcement = parse_literal_announcement(line_bytes, line_ending_result.ending);
        match announcement {
            Some(a) => {
                // We expect a literal because it was announced at the end of the line.
                self.fragment_start = fragment_end;
                self.next_event = NextEvent::Literal { length: a.length };
            },
            None => {
                // The message is complete.
                self.fragment_start = fragment_end;
                self.next_event = NextEvent::Message { message_end: fragment_end };
            },
        }
        Some(Event::Line(Line { bytes: line_bytes, announcement, ending: line_ending_result.ending }))
    }

    fn next_literal<'a>(&mut self, bytes: &'a [u8], literal_length: u32) -> (res: Option<
        Event<'a>,
    >)
        ensures
            literal_step(*old(self), *final(self), bytes@, literal_length, res),
            old(self).wf() ==> final(self).wf(),
    {
        if self.fragment_start > bytes.len() {
            return None;
        }
        let remaining_len = bytes.len() - self.fragment_start;
        if (remaining_len as u64) < (literal_length as u64) {
            // We haven't enough bytes for the literal.
            return None;
        }
        let length = literal_length as usize;
        let fragment_end = self.fragment_start + length;
        let literal_bytes = &bytes[self.fragment_start..fragment_end];
        // We expect a line after a literal.
        self.fragment_start = fragment_end;
        self.next_event = NextEvent::start_new_line();
        Some(Event::Literal(Literal { bytes: literal_bytes }))
    }

    fn next_message<'a>(&mut self, bytes: &'a [u8], message_end: usize) -> (res: Option<
        Event<'a>,
    >)
        ensures
            message_step(*old(self), *final(self), bytes@, message_end, res),
            old(self).wf() ==> final(self).wf(),
    {
        if self.message_start > message_end || message_end > bytes.len() {
            return None;
        }
        let message_bytes = &bytes[self.message_start..message_end];
        self.message_start = message_end;
        self.fragment_start = message_end;
        self.next_event = NextEvent::start_new_line();
        Some(Event::Message(Message { bytes: message_bytes }))
    }
}

/// The bytes of the lines and literals found since the last message, in order.
pub open spec fn fragments_since_message<'a>(events: Seq<Option<Event<'a>>>) -> Seq<u8>
    decreases events.len(),
{
    if events.len() == 0 {
        Seq::empty()
    } else {
        let earlier = fragments_since_message(events.drop_last());
        match events.last() {
            Some(Event::Line(line)) => earlier + line.bytes@,
            Some(Event::Literal(literal)) => earlier + literal.bytes@,
            Some(Event::Message(_)) => Seq::empty(),
            None => earlier,
        }
    }
}

/// A run of parsing steps: from the start of the buffer, each step on a buffer that extends
/// the one before.
pub open spec fn parse_run<'a>(
    parsers: Seq<MessageParser>,
    buffers: Seq<Seq<u8>>,
    events: Seq<Option<Event<'a>>>,
) -> bool {
    &&& parsers.len() == events.len() + 1
    &&& buffers.len() == events.len()
    &&& parsers[0].is_initial()
    &&& forall|k: int| 0 <= k < events.len() ==> next_step(parsers[k], #[trigger] parsers[k + 1], buffers[k], events[k])
    &&& forall|k: int|
        0 <= k < buffers.len() - 1 ==> buffers[k].len() <= buffers[k + 1].len() && (
        #[trigger] buffers[k + 1]).take(buffers[k].len() as int) == buffers[k]
}

/// After `i` steps of a run, the pending bytes are those of the fragments found since the last
/// message, and they lie within the buffer of the last step.
proof fn lemma_parse_run_at<'a>(
    parsers: Seq<MessageParser>,
    buffers: Seq<Seq<u8>>,
    events: Seq<Option<Event<'a>>>,
    i: int,
)
    requires
        parse_run(parsers, buffers, events),
        0 < i <= events.len(),
    ensures
        parsers[i].wf(),
        parsers[i].fragment_start_spec() <= buffers[i - 1].len(),
        pending_bytes(parsers[i], buffers[i - 1]) == fragments_since_message(events.take(i)),
    decreases i, 0int,
{
    let k = i - 1;
    let p = parsers[k];
    let bytes = buffers[k];
    assert(next_step(parsers[k], parsers[k + 1], buffers[k], events[k]));
    lemma_pending_before_step(parsers, buffers, events, k);
    lemma_fragments_compose_message(p, parsers[i], bytes, events[k]);
    let taken = events.take(i);
    assert(taken.drop_last() =~= events.take(k));
    assert(taken.last() == events[k]);
    let prev = fragments_since_message(events.take(k));
    assert(pending_bytes(p, bytes) == prev);
    match events[k] {
        Some(Event::Line(line)) => {
            let fs = p.fragment_start_spec() as int;
            let rem = bytes.subrange(fs, bytes.len() as int);
            assert(line.bytes@.len() <= rem.len());
            assert(fragments_since_message(taken) == prev + line.bytes@);
        },
        Some(Event::Literal(literal)) => {
            assert(fragments_since_message(taken) == prev + literal.bytes@);
        },
        Some(Event::Message(_)) => {
            assert(fragments_since_message(taken) == Seq::<u8>::empty());
            assert(pending_bytes(parsers[i], bytes) =~= Seq::<u8>::empty());
        },
        None => {
            assert(fragments_since_message(taken) == prev);
        },
    }
}

/// Before step `k` of a run, the pending bytes are those of the fragments found since the last
/// message, in the buffer of that step, and the parser is well formed.
proof fn lemma_pending_before_step<'a>(
    parsers: Seq<MessageParser>,
    buffers: Seq<Seq<u8>>,
    events: Seq<Option<Event<'a>>>,
    k: int,
)
    requires
        parse_run(parsers, buffers, events),
        0 <= k < events.len(),
    ensures
        parsers[k].wf(),
        parsers[k].fragment_start_spec() <= buffers[k].len(),
        pending_bytes(parsers[k], buffers[k]) == fragments_since_message(events.take(k)),
    decreases k, 1int,
{
    let p = parsers[k];
    let bytes = buffers[k];
    if k == 0 {
        assert(pending_bytes(p, bytes) =~= Seq::<u8>::empty());
        assert(events.take(0) =~= Seq::<Option<Event<'a>>>::empty());
    } else {
        lemma_parse_run_at(parsers, buffers, events, k);
        let earlier = buffers[k - 1];
        assert(buffers[(k - 1) + 1].take(earlier.len() as int) == earlier);
        assert(pending_bytes(p, bytes) =~= pending_bytes(p, earlier));
    }
}

/// Over a run of parsing steps from the start of the buffer, on buffers that only grow, each
/// message found is the concatenation of the lines and literals found since the previous
/// message.
pub proof fn lemma_messages_concatenate_fragments<'a>(
    parsers: Seq<MessageParser>,
    buffers: Seq<Seq<u8>>,
    events: Seq<Option<Event<'a>>>,
)
    requires
        parse_run(parsers, buffers, events),
    ensures
        forall|i: int|
            0 <= i < events.len() ==> (#[trigger] events[i] matches Some(Event::Message(message))
                ==> message.bytes@ == fragments_since_message(events.take(i))),
{
    assert forall|i: int| 0 <= i < events.len() implies (#[trigger] events[i] matches Some(
        Event::Message(message),
    ) ==> message.bytes@ == fragments_since_message(events.take(i))) by {
        let p = parsers[i];
        let bytes = buffers[i];
        assert(next_step(parsers[i], parsers[i + 1], buffers[i], events[i]));
        lemma_pending_before_step(parsers, buffers, events, i);
        lemma_fragments_compose_message(p, parsers[i + 1], bytes, events[i]);
    }
}

} // verus!
