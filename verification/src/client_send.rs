//! Sending side of the client flow: a FIFO queue of commands and the state of the command
//! that is currently being sent.
//!
//! Commands are handed over already encoded (see [`OutgoingCommand`]); `P` is the caller's own
//! value of the command, which is carried along and given back in the events.

use std::collections::VecDeque;

use imap_codec::encode::Encoder;
use std::convert::Infallible;

use crate::client::CommandHandle;
use crate::message::LiteralMode;
use crate::types::{bytes_eq, flatten, fragment_views, Fragment, FragmentView, StatusInfo, StatusKind};
use crate::{Interrupt, Io};
use vstd::prelude::*;

verus! {

/// Which flow a command follows while it is being sent.
#[derive(Clone, Copy, Debug, Eq, PartialEq, Structural)]
pub enum CommandKind {
    /// Any command but AUTHENTICATE and IDLE; its sync literals wait for the server's consent.
    Regular,
    /// AUTHENTICATE: continues with authentication data requested by the server.
    Authenticate,
    /// IDLE: continues with DONE once the server accepted it.
    Idle,
}

/// An encoded command: the caller's value of it, its tag, and its fragments.
pub struct OutgoingCommand<P> {
    pub command: P,
    pub tag: Vec<u8>,
    pub kind: CommandKind,
    pub fragments: Vec<Fragment>,
}

pub struct OutgoingCommandView<P> {
    pub command: P,
    pub tag: Seq<u8>,
    pub kind: CommandKind,
    pub fragments: Seq<FragmentView>,
}

impl<P> View for OutgoingCommand<P> {
    type V = OutgoingCommandView<P>;

    open spec fn view(&self) -> OutgoingCommandView<P> {
        OutgoingCommandView {
            command: self.command,
            tag: self.tag@,
            kind: self.kind,
            fragments: fragment_views(self.fragments@),
        }
    }
}

impl<P> OutgoingCommandView<P> {
    /// AUTHENTICATE and IDLE are a single line by definition.
    pub open spec fn well_formed(self) -> bool {
        self.kind != CommandKind::Regular ==> (self.fragments.len() == 1
            && self.fragments[0] is Line)
    }
}

impl<P> OutgoingCommand<P> {
    /// AUTHENTICATE and IDLE are a single line by definition.
    pub fn is_well_formed(&self) -> (res: bool)
        ensures
            res == self@.well_formed(),
    {
        match self.kind {
            CommandKind::Regular => true,
            _ => self.fragments.len() == 1 && match &self.fragments[0] {
                Fragment::Line { .. } => true,
                Fragment::Literal { .. } => false,
            },
        }
    }
}

/// Queued (and not sent yet) command.
pub struct QueuedMessage<P> {
    pub handle: CommandHandle,
    pub command: OutgoingCommand<P>,
}

pub struct QueuedMessageView<P> {
    pub handle: CommandHandle,
    pub command: OutgoingCommandView<P>,
}

impl<P> View for QueuedMessage<P> {
    type V = QueuedMessageView<P>;

    open spec fn view(&self) -> QueuedMessageView<P> {
        QueuedMessageView { handle: self.handle, command: self.command@ }
    }
}

pub enum CommandActivity {
    /// Pushing fragments to the write buffer.
    PushingFragments {
        /// Literal that was accepted by the server and needs to be sent before the fragments.
        accepted_literal: Option<Vec<u8>>,
    },
    /// Waiting until the pushed fragments are sent.
    WaitingForFragmentsSent {
        /// Literal that needs to be accepted by the server after the pushed fragments are sent.
        limbo_literal: Option<Vec<u8>>,
    },
    /// Waiting until the server accepts the literal via continuation request or rejects it
    /// via status.
    WaitingForLiteralAccepted {
        /// Literal that needs to be accepted by the server.
        limbo_literal: Vec<u8>,
    },
}

pub enum CommandActivityView {
    PushingFragments { accepted_literal: Option<Seq<u8>> },
    WaitingForFragmentsSent { limbo_literal: Option<Seq<u8>> },
    WaitingForLiteralAccepted { limbo_literal: Seq<u8> },
}

pub open spec fn opt_bytes(o: Option<Vec<u8>>) -> Option<Seq<u8>> {
    match o {
        Some(v) => Some(v@),
        None => None,
    }
}

impl View for CommandActivity {
    type V = CommandActivityView;

    open spec fn view(&self) -> CommandActivityView {
        match self {
            CommandActivity::PushingFragments { accepted_literal } => {
                CommandActivityView::PushingFragments {
                    accepted_literal: opt_bytes(*accepted_literal),
                }
            },
            CommandActivity::WaitingForFragmentsSent { limbo_literal } => {
                CommandActivityView::WaitingForFragmentsSent {
                    limbo_literal: opt_bytes(*limbo_literal),
                }
            },
            CommandActivity::WaitingForLiteralAccepted { limbo_literal } => {
                CommandActivityView::WaitingForLiteralAccepted { limbo_literal: limbo_literal@ }
            },
        }
    }
}

pub enum AuthenticateActivity {
    /// Pushing the authenticate command to the write buffer.
    PushingAuthenticate { authenticate: Vec<u8> },
    /// Waiting until the pushed authenticate command is sent.
    WaitingForAuthenticateSent,
    /// Waiting until the server requests more authenticate data via continuation request or
    /// accepts/rejects the authenticate command via status.
    WaitingForAuthenticateResponse,
    /// Waiting until the client flow user provides the authenticate data.
    WaitingForAuthenticateDataSet,
    /// Pushing the authenticate data to the write buffer.
    PushingAuthenticateData { authenticate_data: Vec<u8> },
    /// Waiting until the pushed authenticate data is sent.
    WaitingForAuthenticateDataSent,
}

pub enum AuthenticateActivityView {
    PushingAuthenticate { authenticate: Seq<u8> },
    WaitingForAuthenticateSent,
    WaitingForAuthenticateResponse,
    WaitingForAuthenticateDataSet,
    PushingAuthenticateData { authenticate_data: Seq<u8> },
    WaitingForAuthenticateDataSent,
}

impl View for AuthenticateActivity {
    type V = AuthenticateActivityView;

    open spec fn view(&self) -> AuthenticateActivityView {
        match self {
            AuthenticateActivity::PushingAuthenticate { authenticate } => {
                AuthenticateActivityView::PushingAuthenticate { authenticate: authenticate@ }
            },
            AuthenticateActivity::WaitingForAuthenticateSent => {
                AuthenticateActivityView::WaitingForAuthenticateSent
            },
            AuthenticateActivity::WaitingForAuthenticateResponse => {
                AuthenticateActivityView::WaitingForAuthenticateResponse
            },
            AuthenticateActivity::WaitingForAuthenticateDataSet => {
                AuthenticateActivityView::WaitingForAuthenticateDataSet
            },
            AuthenticateActivity::PushingAuthenticateData { authenticate_data } => {
                AuthenticateActivityView::PushingAuthenticateData {
                    authenticate_data: authenticate_data@,
                }
            },
            AuthenticateActivity::WaitingForAuthenticateDataSent => {
                AuthenticateActivityView::WaitingForAuthenticateDataSent
            },
        }
    }
}

pub enum IdleActivity {
    /// Pushing the idle command to the write buffer.
    PushingIdle { idle: Vec<u8> },
    /// Waiting until the pushed idle command is sent.
    WaitingForIdleSent,
    /// Waiting until the server accepts the idle command via continuation request or rejects it
    /// via status.
    WaitingForIdleResponse,
    /// Waiting until the client flow user triggers idle done.
    WaitingForIdleDoneSet,
    /// Pushing the idle done to the write buffer.
    PushingIdleDone { idle_done: Vec<u8> },
    /// Waiting until the pushed idle done is sent.
    WaitingForIdleDoneSent,
}

pub enum IdleActivityView {
    PushingIdle { idle: Seq<u8> },
    WaitingForIdleSent,
    WaitingForIdleResponse,
    WaitingForIdleDoneSet,
    PushingIdleDone { idle_done: Seq<u8> },
    WaitingForIdleDoneSent,
}

impl View for IdleActivity {
    type V = IdleActivityView;

    open spec fn view(&self) -> IdleActivityView {
        match self {
            IdleActivity::PushingIdle { idle } => IdleActivityView::PushingIdle { idle: idle@ },
            IdleActivity::WaitingForIdleSent => IdleActivityView::WaitingForIdleSent,
            IdleActivity::WaitingForIdleResponse => IdleActivityView::WaitingForIdleResponse,
            IdleActivity::WaitingForIdleDoneSet => IdleActivityView::WaitingForIdleDoneSet,
            IdleActivity::PushingIdleDone { idle_done } => {
                IdleActivityView::PushingIdleDone { idle_done: idle_done@ }
            },
            IdleActivity::WaitingForIdleDoneSent => IdleActivityView::WaitingForIdleDoneSent,
        }
    }
}

/// Sending state of a regular command.
pub struct CommandState<P> {
    pub handle: CommandHandle,
    pub command: P,
    pub tag: Vec<u8>,
    /// Outstanding command fragments that need to be sent.
    pub fragments: VecDeque<Fragment>,
    pub activity: CommandActivity,
}

/// Sending state of an authenticate command.
pub struct AuthenticateState<P> {
    pub handle: CommandHandle,
    pub command_authenticate: P,
    pub tag: Vec<u8>,
    pub activity: AuthenticateActivity,
}

/// Sending state of an idle command.
pub struct IdleState {
    pub handle: CommandHandle,
    pub tag: Vec<u8>,
    pub activity: IdleActivity,
}

/// Command that is currently being sent.
pub enum CurrentMessage<P> {
    Command(CommandState<P>),
    Authenticate(AuthenticateState<P>),
    Idle(IdleState),
}

pub enum CurrentMessageView<P> {
    Command {
        handle: CommandHandle,
        command: P,
        tag: Seq<u8>,
        fragments: Seq<FragmentView>,
        activity: CommandActivityView,
    },
    Authenticate {
        handle: CommandHandle,
        command_authenticate: P,
        tag: Seq<u8>,
        activity: AuthenticateActivityView,
    },
    Idle { handle: CommandHandle, tag: Seq<u8>, activity: IdleActivityView },
}

impl<P> View for CurrentMessage<P> {
    type V = CurrentMessageView<P>;

    open spec fn view(&self) -> CurrentMessageView<P> {
        match self {
            CurrentMessage::Command(s) => CurrentMessageView::Command {
                handle: s.handle,
                command: s.command,
                tag: s.tag@,
                fragments: fragment_views(s.fragments@),
                activity: s.activity@,
            },
            CurrentMessage::Authenticate(s) => CurrentMessageView::Authenticate {
                handle: s.handle,
                command_authenticate: s.command_authenticate,
                tag: s.tag@,
                activity: s.activity@,
            },
            CurrentMessage::Idle(s) => CurrentMessageView::Idle {
                handle: s.handle,
                tag: s.tag@,
                activity: s.activity@,
            },
        }
    }
}

/// Command sent (or a step of it).
pub enum ClientSendEvent<P> {
    /// A regular command was sent completely.
    Command { handle: CommandHandle, command: P },
    /// AUTHENTICATE was sent.
    Authenticate { handle: CommandHandle },
    /// IDLE was sent.
    Idle { handle: CommandHandle },
    /// DONE was sent: the idle command is complete.
    IdleDone { handle: CommandHandle },
}

/// Command ended via [`ClientSendState::maybe_terminate`].
pub enum ClientSendTermination<P> {
    /// Command was terminated because its literal was rejected by the server.
    LiteralRejected { handle: CommandHandle, command: P },
    /// Authenticate command was accepted.
    AuthenticateAccepted { handle: CommandHandle, command_authenticate: P },
    /// Authenticate command was rejected.
    AuthenticateRejected { handle: CommandHandle, command_authenticate: P },
    /// Idle command was rejected.
    IdleRejected { handle: CommandHandle },
}

/// Updated message state after sending all bytes.
pub enum FinishView<P> {
    /// Message not finished yet.
    Uncompleted { state: CurrentMessageView<P>, event: Option<ClientSendEvent<P>> },
    /// Message sent completely.
    Completed { event: ClientSendEvent<P> },
}

/// The line DONE ends an idle command.
pub open spec fn idle_done_line() -> Seq<u8> {
    seq![68u8, 79u8, 78u8, 69u8, 13u8, 10u8]
}

/// Pushing fragments stops at the first sync literal, which needs the server's consent:
/// the bytes pushed, the literal held back, and the fragments left.
pub open spec fn split_at_sync_literal(frags: Seq<FragmentView>) -> (Seq<u8>, Option<Seq<u8>>, Seq<
    FragmentView,
>)
    decreases frags.len(),
{
    if frags.len() == 0 {
        (Seq::empty(), None, Seq::empty())
    } else {
        match frags[0] {
            FragmentView::Literal { data, mode: LiteralMode::Sync } => (
                Seq::empty(),
                Some(data),
                frags.drop_first(),
            ),
            f => {
                let rest = split_at_sync_literal(frags.drop_first());
                (f.data() + rest.0, rest.1, rest.2)
            },
        }
    }
}

/// The current message that sending a queued command starts with.
pub open spec fn spec_start<P>(q: QueuedMessageView<P>) -> CurrentMessageView<P> {
    match q.command.kind {
        CommandKind::Authenticate => CurrentMessageView::Authenticate {
            handle: q.handle,
            command_authenticate: q.command.command,
            tag: q.command.tag,
            activity: AuthenticateActivityView::PushingAuthenticate {
                authenticate: q.command.fragments[0].data(),
            },
        },
        CommandKind::Idle => CurrentMessageView::Idle {
            handle: q.handle,
            tag: q.command.tag,
            activity: IdleActivityView::PushingIdle { idle: q.command.fragments[0].data() },
        },
        CommandKind::Regular => CurrentMessageView::Command {
            handle: q.handle,
            command: q.command.command,
            tag: q.command.tag,
            fragments: q.command.fragments,
            activity: CommandActivityView::PushingFragments { accepted_literal: None },
        },
    }
}

/// Pushes as many bytes as possible: the updated message and the bytes pushed.
pub open spec fn spec_push<P>(c: CurrentMessageView<P>) -> (CurrentMessageView<P>, Seq<u8>) {
    match c {
        CurrentMessageView::Command { handle, command, tag, fragments, activity } => {
            match activity {
                CommandActivityView::PushingFragments { accepted_literal } => {
                    let accepted = match accepted_literal {
                        Some(l) => l,
                        None => Seq::empty(),
                    };
                    let split = split_at_sync_literal(fragments);
                    (
                        CurrentMessageView::Command {
                            handle,
                            command,
                            tag,
                            fragments: split.2,
                            activity: CommandActivityView::WaitingForFragmentsSent {
                                limbo_literal: split.1,
                            },
                        },
                        accepted + split.0,
                    )
                },
                _ => (c, Seq::empty()),
            }
        },
        CurrentMessageView::Authenticate { handle, command_authenticate, tag, activity } => {
            match activity {
                AuthenticateActivityView::PushingAuthenticate { authenticate } => (
                    CurrentMessageView::Authenticate {
                        handle,
                        command_authenticate,
                        tag,
                        activity: AuthenticateActivityView::WaitingForAuthenticateSent,
                    },
                    authenticate,
                ),
                AuthenticateActivityView::PushingAuthenticateData { authenticate_data } => (
                    CurrentMessageView::Authenticate {
                        handle,
                        command_authenticate,
                        tag,
                        activity: AuthenticateActivityView::WaitingForAuthenticateDataSent,
                    },
                    authenticate_data,
                ),
                _ => (c, Seq::empty()),
            }
        },
        CurrentMessageView::Idle { handle, tag, activity } => {
            match activity {
                IdleActivityView::PushingIdle { idle } => (
                    CurrentMessageView::Idle {
                        handle,
                        tag,
                        activity: IdleActivityView::WaitingForIdleSent,
                    },
                    idle,
                ),
                IdleActivityView::PushingIdleDone { idle_done } => (
                    CurrentMessageView::Idle {
                        handle,
                        tag,
                        activity: IdleActivityView::WaitingForIdleDoneSent,
                    },
                    idle_done,
                ),
                _ => (c, Seq::empty()),
            }
        },
    }
}

/// Updates the message after all pushed bytes were sent.
pub open spec fn spec_finish<P>(c: CurrentMessageView<P>) -> FinishView<P> {
    match c {
        CurrentMessageView::Command { handle, command, tag, fragments, activity } => {
            match activity {
                CommandActivityView::WaitingForFragmentsSent { limbo_literal: Some(l) } => {
                    FinishView::Uncompleted {
                        state: CurrentMessageView::Command {
                            handle,
                            command,
                            tag,
                            fragments,
                            activity: CommandActivityView::WaitingForLiteralAccepted {
                                limbo_literal: l,
                            },
                        },
                        event: None,
                    }
                },
                CommandActivityView::WaitingForFragmentsSent { limbo_literal: None } => {
                    FinishView::Completed { event: ClientSendEvent::Command { handle, command } }
                },
                _ => FinishView::Uncompleted { state: c, event: None },
            }
        },
        CurrentMessageView::Authenticate { handle, command_authenticate, tag, activity } => {
            match activity {
                AuthenticateActivityView::WaitingForAuthenticateSent => FinishView::Uncompleted {
                    state: CurrentMessageView::Authenticate {
                        handle,
                        command_authenticate,
                        tag,
                        activity: AuthenticateActivityView::WaitingForAuthenticateResponse,
                    },
                    event: Some(ClientSendEvent::Authenticate { handle }),
                },
                AuthenticateActivityView::WaitingForAuthenticateDataSent => {
                    FinishView::Uncompleted {
                        state: CurrentMessageView::Authenticate {
                            handle,
                            command_authenticate,
                            tag,
                            activity: AuthenticateActivityView::WaitingForAuthenticateResponse,
                        },
                        event: None,
                    }
                },
                _ => FinishView::Uncompleted { state: c, event: None },
            }
        },
        CurrentMessageView::Idle { handle, tag, activity } => {
            match activity {
                IdleActivityView::WaitingForIdleSent => FinishView::Uncompleted {
                    state: CurrentMessageView::Idle {
                        handle,
                        tag,
                        activity: IdleActivityView::WaitingForIdleResponse,
                    },
                    event: Some(ClientSendEvent::Idle { handle }),
                },
                IdleActivityView::WaitingForIdleDoneSent => FinishView::Completed {
                    event: ClientSendEvent::IdleDone { handle },
                },
                _ => FinishView::Uncompleted { state: c, event: None },
            }
        },
    }
}


pub struct ClientSendStateView<P> {
    pub queue: Seq<QueuedMessageView<P>>,
    pub current: Option<CurrentMessageView<P>>,
}

pub open spec fn opt_current_view<P>(c: Option<CurrentMessage<P>>) -> Option<CurrentMessageView<P>> {
    match c {
        Some(m) => Some(m@),
        None => None,
    }
}

/// FIFO queue of commands that should be sent next, and the command currently being sent.
pub struct ClientSendState<P> {
    queued_messages: VecDeque<QueuedMessage<P>>,
    current_message: Option<CurrentMessage<P>>,
}

impl<P> View for ClientSendState<P> {
    type V = ClientSendStateView<P>;

    closed spec fn view(&self) -> ClientSendStateView<P> {
        ClientSendStateView {
            queue: self.queued_messages@.map_values(|q: QueuedMessage<P>| q@),
            current: opt_current_view(self.current_message),
        }
    }
}

impl<P> ClientSendStateView<P> {
    /// Every queued command is well formed.
    pub open spec fn wf(self) -> bool {
        forall|i: int| 0 <= i < self.queue.len() ==> (#[trigger] self.queue[i]).command.well_formed()
    }

    /// The message that `progress` continues with, and the queue after taking it.
    pub open spec fn next_message(self) -> (Option<CurrentMessageView<P>>, Seq<QueuedMessageView<P>>) {
        match self.current {
            Some(c) => (Some(c), self.queue),
            None => if self.queue.len() == 0 {
                (None, self.queue)
            } else {
                (Some(spec_start(self.queue[0])), self.queue.drop_first())
            },
        }
    }

    /// Contract of `progress`.
    pub open spec fn progress_step(
        self,
        new: ClientSendStateView<P>,
        res: Result<Option<ClientSendEvent<P>>, Interrupt<Infallible>>,
    ) -> bool {
        let (cur, queue) = self.next_message();
        match cur {
            None => res == Ok::<Option<ClientSendEvent<P>>, Interrupt<Infallible>>(None) && new
                == self,
            Some(c) => {
                let (pushed, out) = spec_push(c);
                if out.len() == 0 {
                    match spec_finish(pushed) {
                        FinishView::Uncompleted { state, event } => {
                            &&& res == Ok::<Option<ClientSendEvent<P>>, Interrupt<Infallible>>(event)
                            &&& new == ClientSendStateView { queue, current: Some(state) }
                        },
                        FinishView::Completed { event } => {
                            &&& res == Ok::<Option<ClientSendEvent<P>>, Interrupt<Infallible>>(
                                Some(event),
                            )
                            &&& new == ClientSendStateView { queue, current: None }
                        },
                    }
                } else {
                    &&& res matches Err(Interrupt::Io(Io::Output(bytes))) && bytes@ == out
                    &&& new == ClientSendStateView { queue, current: Some(pushed) }
                }
            },
        }
    }
}

/// The handle of a message that is being sent.
pub open spec fn current_handle<P>(c: CurrentMessageView<P>) -> CommandHandle {
    match c {
        CurrentMessageView::Command { handle, .. } => handle,
        CurrentMessageView::Authenticate { handle, .. } => handle,
        CurrentMessageView::Idle { handle, .. } => handle,
    }
}

/// The handle that an event reports.
pub open spec fn event_handle<P>(e: ClientSendEvent<P>) -> CommandHandle {
    match e {
        ClientSendEvent::Command { handle, .. } => handle,
        ClientSendEvent::Authenticate { handle } => handle,
        ClientSendEvent::Idle { handle } => handle,
        ClientSendEvent::IdleDone { handle } => handle,
    }
}

/// Commands are sent in the order they were enqueued: while a command is being sent the
/// queue is untouched, and only when none is, `progress` takes the command at the front of the
/// queue, and whatever it reports or keeps concerns that command.
pub proof fn lemma_commands_sent_in_enqueue_order<P>(
    old_s: ClientSendStateView<P>,
    new_s: ClientSendStateView<P>,
    res: Result<Option<ClientSendEvent<P>>, Interrupt<Infallible>>,
)
    requires
        old_s.wf(),
        old_s.progress_step(new_s, res),
    ensures
        old_s.current is Some ==> new_s.queue == old_s.queue,
        old_s.current is None && old_s.queue.len() > 0 ==> {
            &&& new_s.queue == old_s.queue.drop_first()
            &&& new_s.current matches Some(c) ==> current_handle(c) == old_s.queue[0].handle
            &&& res matches Ok(Some(e)) ==> event_handle(e) == old_s.queue[0].handle
        },
        old_s.current matches Some(c) ==> {
            &&& new_s.current matches Some(d) ==> current_handle(d) == current_handle(c)
            &&& res matches Ok(Some(e)) ==> event_handle(e) == current_handle(c)
        },
{
}

/// `state` is a state of a run of sending steps that started with the queue `queue` and
/// nothing in flight: its queue is what is left of `queue` after the commands taken so far,
/// and the message in flight, if any, is the command taken last.
pub open spec fn taken_in_order<P>(queue: Seq<QueuedMessageView<P>>, state: ClientSendStateView<P>) -> bool {
    let taken = queue.len() - state.queue.len();
    &&& state.wf()
    &&& 0 <= taken
    &&& state.queue == queue.skip(taken)
    &&& state.current matches Some(c) ==> taken >= 1 && current_handle(c) == queue[taken - 1].handle
}

/// Along a run of sending steps, every state takes the commands in order.
proof fn lemma_progress_run_at<P>(
    states: Seq<ClientSendStateView<P>>,
    results: Seq<Result<Option<ClientSendEvent<P>>, Interrupt<Infallible>>>,
    i: int,
)
    requires
        states.len() == results.len() + 1,
        states[0].wf(),
        states[0].current is None,
        forall|k: int| 0 <= k < results.len() ==> #[trigger] states[k].progress_step(states[k + 1], results[k]),
        0 <= i < states.len(),
    ensures
        taken_in_order(states[0].queue, states[i]),
        i > 0 ==> states[i].queue.len() <= states[i - 1].queue.len(),
        i > 0 ==> (results[i - 1] matches Ok(Some(e)) ==> {
            let taken = states[0].queue.len() - states[i].queue.len();
            taken >= 1 && event_handle(e) == states[0].queue[taken - 1].handle
        }),
    decreases i,
{
    let queue = states[0].queue;
    if i == 0 {
        assert(queue.skip(0) =~= queue);
    } else {
        let k = i - 1;
        lemma_progress_run_at(states, results, k);
        let before = states[k];
        let after = states[k + 1];
        assert(before.progress_step(after, results[k]));
        lemma_commands_sent_in_enqueue_order(before, after, results[k]);
        let t = queue.len() - before.queue.len();
        if before.current is None && before.queue.len() > 0 {
            assert(after.queue =~= queue.skip(t + 1));
            assert(before.queue[0] == queue[t]);
        }
        if before.current is None && before.queue.len() == 0 {
            assert(after == before);
        }
        assert forall|j: int| 0 <= j < after.queue.len() implies (#[trigger] after.queue[j]).command.well_formed() by {
            if after.queue == before.queue {
                assert(before.queue[j].command.well_formed());
            } else {
                assert(after.queue[j] == before.queue[j + 1]);
                assert(before.queue[j + 1].command.well_formed());
            }
        }
    }
}

/// Over any run of sending steps from a state with no message in flight, commands are sent in
/// the order they were enqueued: each state's queue is what is left after the commands taken
/// so far, the queue only shrinks, and every event reported is for the command taken last, so
/// that events come in the order of the queue.
pub proof fn lemma_progress_run<P>(
    states: Seq<ClientSendStateView<P>>,
    results: Seq<Result<Option<ClientSendEvent<P>>, Interrupt<Infallible>>>,
)
    requires
        states.len() == results.len() + 1,
        states[0].wf(),
        states[0].current is None,
        forall|k: int| 0 <= k < results.len() ==> #[trigger] states[k].progress_step(states[k + 1], results[k]),
    ensures
        forall|i: int| 0 <= i < states.len() ==> taken_in_order(states[0].queue, #[trigger] states[i]),
        forall|i: int, j: int|
            0 <= i <= j < states.len() ==> #[trigger] states[j].queue.len() <= #[trigger] states[i].queue.len(),
        forall|i: int|
            0 <= i < results.len() ==> (#[trigger] results[i] matches Ok(Some(e)) ==> {
                let taken = states[0].queue.len() - states[i + 1].queue.len();
                taken >= 1 && event_handle(e) == states[0].queue[taken - 1].handle
            }),
{
    assert forall|i: int| 0 <= i < states.len() implies taken_in_order(states[0].queue, #[trigger] states[i]) by {
        lemma_progress_run_at(states, results, i);
    }
    assert forall|i: int| 0 <= i < results.len() implies (#[trigger] results[i] matches Ok(Some(e)) ==> {
        let taken = states[0].queue.len() - states[i + 1].queue.len();
        taken >= 1 && event_handle(e) == states[0].queue[taken - 1].handle
    }) by {
        lemma_progress_run_at(states, results, i + 1);
    }
    assert forall|i: int, j: int|
        0 <= i <= j < states.len() implies #[trigger] states[j].queue.len() <= #[trigger] states[i].queue.len() by {
        lemma_run_queue_shrinks(states, results, i, j);
    }
}

/// Along a run of sending steps, the queue only shrinks.
proof fn lemma_run_queue_shrinks<P>(
    states: Seq<ClientSendStateView<P>>,
    results: Seq<Result<Option<ClientSendEvent<P>>, Interrupt<Infallible>>>,
    i: int,
    j: int,
)
    requires
        states.len() == results.len() + 1,
        states[0].wf(),
        states[0].current is None,
        forall|k: int| 0 <= k < results.len() ==> #[trigger] states[k].progress_step(states[k + 1], results[k]),
        0 <= i <= j < states.len(),
    ensures
        states[j].queue.len() <= states[i].queue.len(),
    decreases j - i,
{
    if i < j {
        lemma_run_queue_shrinks(states, results, i, j - 1);
        lemma_progress_run_at(states, results, j);
    }
}

/// The fragment is a literal that needs the server's consent.
pub open spec fn is_sync_literal(fragment: FragmentView) -> bool {
    fragment matches FragmentView::Literal { mode: LiteralMode::Sync, .. }
}

/// The first `k` fragments hold no literal that needs the server's consent, and the one at
/// `k`, if any, is such a literal.
pub open spec fn first_sync_literal_at(fragments: Seq<FragmentView>, k: int) -> bool {
    &&& 0 <= k <= fragments.len()
    &&& forall|i: int| 0 <= i < k ==> !is_sync_literal(#[trigger] fragments[i])
    &&& k < fragments.len() ==> is_sync_literal(fragments[k])
}

/// Pushing fragments goes on through lines and non-sync literals and stops at the first sync
/// literal: what is pushed is the data of the fragments before it.
proof fn lemma_split_before_sync_literal(fragments: Seq<FragmentView>, k: int)
    requires
        first_sync_literal_at(fragments, k),
    ensures
        split_at_sync_literal(fragments).0 == flatten(fragments.take(k)),
        k < fragments.len() ==> split_at_sync_literal(fragments).1 == Some(fragments[k].data())
            && split_at_sync_literal(fragments).2 == fragments.skip(k + 1),
        k == fragments.len() ==> split_at_sync_literal(fragments).1 is None,
    decreases fragments.len(),
{
    if fragments.len() > 0 {
        if k == 0 {
            assert(fragments.take(0) =~= Seq::<FragmentView>::empty());
            assert(fragments.skip(1) =~= fragments.drop_first());
        } else {
            let rest = fragments.drop_first();
            assert forall|i: int| 0 <= i < k - 1 implies !is_sync_literal(#[trigger] rest[i]) by {
                assert(rest[i] == fragments[i + 1]);
            }
            assert(!is_sync_literal(fragments[0]));
            lemma_split_before_sync_literal(rest, k - 1);
            assert(fragments.take(k).drop_first() =~= rest.take(k - 1));
            assert(fragments.take(k)[0] == fragments[0]);
            if k < fragments.len() {
                assert(rest.skip(k) =~= fragments.skip(k + 1));
            }
        }
    }
}

/// A regular command is pushed up to its first sync literal: the first step of sending it
/// outputs the data of all fragments before that literal, non-sync literals included. Where
/// it has no sync literal, that is the whole command, and the next step reports it sent;
/// otherwise the next step reports nothing and the command waits for the server's consent to
/// the literal.
pub proof fn lemma_command_pushed_up_to_sync_literal<P>(
    s0: ClientSendStateView<P>,
    s1: ClientSendStateView<P>,
    s2: ClientSendStateView<P>,
    r1: Result<Option<ClientSendEvent<P>>, Interrupt<Infallible>>,
    r2: Result<Option<ClientSendEvent<P>>, Interrupt<Infallible>>,
    k: int,
)
    requires
        s0.current is None,
        s0.queue.len() > 0,
        s0.queue[0].command.kind == CommandKind::Regular,
        first_sync_literal_at(s0.queue[0].command.fragments, k),
        flatten(s0.queue[0].command.fragments.take(k)).len() > 0,
        s0.progress_step(s1, r1),
        s1.progress_step(s2, r2),
    ensures
        r1 matches Err(Interrupt::Io(Io::Output(bytes))) && bytes@ == flatten(
            s0.queue[0].command.fragments.take(k),
        ),
        k == s0.queue[0].command.fragments.len() ==> {
            &&& r2 == Ok::<Option<ClientSendEvent<P>>, Interrupt<Infallible>>(
                Some(
                    ClientSendEvent::Command {
                        handle: s0.queue[0].handle,
                        command: s0.queue[0].command.command,
                    },
                ),
            )
            &&& s2.current is None
            &&& s2.queue == s0.queue.drop_first()
        },
        k < s0.queue[0].command.fragments.len() ==> {
            &&& r2 == Ok::<Option<ClientSendEvent<P>>, Interrupt<Infallible>>(None)
            &&& s2.current matches Some(
                CurrentMessageView::Command {
                    activity: CommandActivityView::WaitingForLiteralAccepted { limbo_literal },
                    ..
                },
            ) && limbo_literal == s0.queue[0].command.fragments[k].data()
        },
{
    let fragments = s0.queue[0].command.fragments;
    lemma_split_before_sync_literal(fragments, k);
    assert(Seq::<u8>::empty() + split_at_sync_literal(fragments).0 =~= split_at_sync_literal(
        fragments,
    ).0);
}

impl<P> CommandState<P> {
    fn push_to_buffer(self, write_buffer: &mut Vec<u8>) -> (res: Self)
        ensures
            spec_push(CurrentMessage::Command(self)@) == (
                CurrentMessage::Command(res)@,
                final(write_buffer)@.subrange(old(write_buffer)@.len() as int, final(write_buffer)@.len() as int),
            ),
            final(write_buffer)@.len() >= old(write_buffer)@.len(),
            final(write_buffer)@.subrange(0, old(write_buffer)@.len() as int) == old(write_buffer)@,
    {
        let ghost buf0 = write_buffer@;
        let CommandState { handle, command, tag, fragments, activity } = self;
        let mut fragments = fragments;
        match activity {
            CommandActivity::PushingFragments { accepted_literal } => {
                // First push the accepted literal if available
                match accepted_literal {
                    Some(data) => {
                        let mut data = data;
                        write_buffer.append(&mut data);
                    },
                    None => {},
                }
                let ghost buf1 = write_buffer@;
                let ghost f0 = fragment_views(fragments@);
                // Push as many fragments as possible
                let mut limbo_literal: Option<Vec<u8>> = None;
                loop
                    invariant_except_break
                        limbo_literal is None,
                        split_at_sync_literal(f0).1 == split_at_sync_literal(
                            fragment_views(fragments@),
                        ).1,
                        split_at_sync_literal(f0).2 == split_at_sync_literal(
                            fragment_views(fragments@),
                        ).2,
                        write_buffer@ + split_at_sync_literal(fragment_views(fragments@)).0 == buf1
                            + split_at_sync_literal(f0).0,
                    invariant
                        write_buffer@.len() >= buf1.len(),
                        write_buffer@.subrange(0, buf1.len() as int) == buf1,
                    ensures
                        opt_bytes(limbo_literal) == split_at_sync_literal(f0).1,
                        fragment_views(fragments@) == split_at_sync_literal(f0).2,
                        write_buffer@ == buf1 + split_at_sync_literal(f0).0,
                    decreases fragments@.len(),
                {
                    let ghost fv = fragment_views(fragments@);
                    let front = fragments.pop_front();
                    proof {
                        if fv.len() > 0 {
                            assert(fragment_views(fragments@) =~= fv.drop_first());
                        }
                    }
                    match front {
                        Some(Fragment::Line { data }) => {
                            let mut data = data;
                            write_buffer.append(&mut data);
                            proof {
                                assert(write_buffer@.subrange(0, buf1.len() as int) =~= buf1);
                            }
                        },
                        Some(Fragment::Literal { data, mode }) => {
                            match mode {
                                LiteralMode::NonSync => {
                                    let mut data = data;
                                    write_buffer.append(&mut data);
                                    proof {
                                        assert(write_buffer@.subrange(0, buf1.len() as int)
                                            =~= buf1);
                                    }
                                },
                                LiteralMode::Sync => {
                                    // Stop pushing fragments because a literal needs to be
                                    // accepted by the server
                                    limbo_literal = Some(data);
                                    proof {
                                        assert(split_at_sync_literal(f0).0 =~= Seq::<u8>::empty()
                                            + split_at_sync_literal(f0).0);
                                        assert(buf1 + split_at_sync_literal(f0).0 =~= write_buffer@
                                            + Seq::<u8>::empty());
                                    }
                                    break;
                                },
                            }
                        },
                        None => {
                            proof {
                                assert(fv.len() == 0);
                                assert(write_buffer@ =~= buf1 + split_at_sync_literal(f0).0);
                            }
                            break;
                        },
                    }
                }
                proof {
                    assert(write_buffer@.subrange(buf0.len() as int, write_buffer@.len() as int)
                        =~= (buf1 + split_at_sync_literal(f0).0).subrange(
                        buf0.len() as int,
                        write_buffer@.len() as int,
                    ));
                    assert(buf1.subrange(buf0.len() as int, buf1.len() as int) =~= match opt_bytes(
                        accepted_literal,
                    ) {
                        Some(l) => l,
                        None => Seq::empty(),
                    });
                    assert(write_buffer@.subrange(buf0.len() as int, write_buffer@.len() as int)
                        =~= buf1.subrange(buf0.len() as int, buf1.len() as int)
                        + split_at_sync_literal(f0).0);
                    assert(write_buffer@.subrange(0, buf0.len() as int) =~= buf0);
                }
                CommandState {
                    handle,
                    command,
                    tag,
                    fragments,
                    activity: CommandActivity::WaitingForFragmentsSent { limbo_literal },
                }
            },
            activity => {
                proof {
                    assert(write_buffer@.subrange(buf0.len() as int, write_buffer@.len() as int)
                        =~= Seq::<u8>::empty());
                    assert(write_buffer@.subrange(0, buf0.len() as int) =~= buf0);
                }
                CommandState { handle, command, tag, fragments, activity }
            },
        }
    }
}


/// Updated message state after sending all bytes, see `finish_sending`.
pub enum FinishSendingResult<P> {
    /// Message not finished yet.
    Uncompleted {
        /// Updated message state.
        state: CurrentMessage<P>,
        /// Event that needs to be returned by `progress`.
        event: Option<ClientSendEvent<P>>,
    },
    /// Message sent completely.
    Completed {
        /// Event that needs to be returned by `progress`.
        event: ClientSendEvent<P>,
    },
}


impl<P> View for FinishSendingResult<P> {
    type V = FinishView<P>;

    open spec fn view(&self) -> FinishView<P> {
        match self {
            FinishSendingResult::Uncompleted { state, event } => FinishView::Uncompleted {
                state: state@,
                event: *event,
            },
            FinishSendingResult::Completed { event } => FinishView::Completed { event: *event },
        }
    }
}

/// The bytes appended to a buffer.
pub open spec fn appended(old_buf: Seq<u8>, new_buf: Seq<u8>) -> Seq<u8> {
    new_buf.subrange(old_buf.len() as int, new_buf.len() as int)
}

/// A buffer that only grew at its end.
pub open spec fn extends(old_buf: Seq<u8>, new_buf: Seq<u8>) -> bool {
    &&& new_buf.len() >= old_buf.len()
    &&& new_buf.subrange(0, old_buf.len() as int) == old_buf
}

fn append_bytes(write_buffer: &mut Vec<u8>, data: Vec<u8>)
    ensures
        final(write_buffer)@ == old(write_buffer)@ + data@,
        extends(old(write_buffer)@, final(write_buffer)@),
        appended(old(write_buffer)@, final(write_buffer)@) == data@,
{
    let mut data = data;
    let ghost d = data@;
    write_buffer.append(&mut data);
    assert(final(write_buffer)@.subrange(0, old(write_buffer)@.len() as int) =~= old(write_buffer)@);
    assert(appended(old(write_buffer)@, write_buffer@) =~= d);
}

impl<P> AuthenticateState<P> {
    fn push_to_buffer(self, write_buffer: &mut Vec<u8>) -> (res: Self)
        ensures
            spec_push(CurrentMessage::Authenticate(self)@) == (
                CurrentMessage::Authenticate(res)@,
                appended(old(write_buffer)@, final(write_buffer)@),
            ),
            extends(old(write_buffer)@, final(write_buffer)@),
    {
        let AuthenticateState { handle, command_authenticate, tag, activity } = self;
        let activity = match activity {
            AuthenticateActivity::PushingAuthenticate { authenticate } => {
                append_bytes(write_buffer, authenticate);
                AuthenticateActivity::WaitingForAuthenticateSent
            },
            AuthenticateActivity::PushingAuthenticateData { authenticate_data } => {
                append_bytes(write_buffer, authenticate_data);
                AuthenticateActivity::WaitingForAuthenticateDataSent
            },
            activity => {
                assert(appended(old(write_buffer)@, write_buffer@) =~= Seq::<u8>::empty());
                assert(write_buffer@.subrange(0, write_buffer@.len() as int) =~= write_buffer@);
                activity
            },
        };
        AuthenticateState { handle, command_authenticate, tag, activity }
    }

    fn finish_sending(self) -> (res: FinishSendingResult<P>)
        ensures
            res@ == spec_finish(CurrentMessage::Authenticate(self)@),
    {
        let AuthenticateState { handle, command_authenticate, tag, activity } = self;
        match activity {
            AuthenticateActivity::WaitingForAuthenticateSent => FinishSendingResult::Uncompleted {
                state: CurrentMessage::Authenticate(
                    AuthenticateState {
                        handle,
                        command_authenticate,
                        tag,
                        activity: AuthenticateActivity::WaitingForAuthenticateResponse,
                    },
                ),
                event: Some(ClientSendEvent::Authenticate { handle }),
            },
            AuthenticateActivity::WaitingForAuthenticateDataSent => {
                FinishSendingResult::Uncompleted {
                    state: CurrentMessage::Authenticate(
                        AuthenticateState {
                            handle,
                            command_authenticate,
                            tag,
                            activity: AuthenticateActivity::WaitingForAuthenticateResponse,
                        },
                    ),
                    event: None,
                }
            },
            activity => FinishSendingResult::Uncompleted {
                state: CurrentMessage::Authenticate(
                    AuthenticateState { handle, command_authenticate, tag, activity },
                ),
                event: None,
            },
        }
    }
}

impl IdleState {
    fn push_to_buffer<P>(self, write_buffer: &mut Vec<u8>) -> (res: Self)
        ensures
            spec_push(CurrentMessage::<P>::Idle(self)@) == (
                CurrentMessage::<P>::Idle(res)@,
                appended(old(write_buffer)@, final(write_buffer)@),
            ),
            extends(old(write_buffer)@, final(write_buffer)@),
    {
        let IdleState { handle, tag, activity } = self;
        let activity = match activity {
            IdleActivity::PushingIdle { idle } => {
                append_bytes(write_buffer, idle);
                IdleActivity::WaitingForIdleSent
            },
            IdleActivity::PushingIdleDone { idle_done } => {
                append_bytes(write_buffer, idle_done);
                IdleActivity::WaitingForIdleDoneSent
            },
            activity => {
                assert(appended(old(write_buffer)@, write_buffer@) =~= Seq::<u8>::empty());
                assert(write_buffer@.subrange(0, write_buffer@.len() as int) =~= write_buffer@);
                activity
            },
        };
        IdleState { handle, tag, activity }
    }

    fn finish_sending<P>(self) -> (res: FinishSendingResult<P>)
        ensures
            res@ == spec_finish(CurrentMessage::<P>::Idle(self)@),
    {
        let IdleState { handle, tag, activity } = self;
        match activity {
            IdleActivity::WaitingForIdleSent => FinishSendingResult::Uncompleted {
                state: CurrentMessage::Idle(
                    IdleState { handle, tag, activity: IdleActivity::WaitingForIdleResponse },
                ),
                event: Some(ClientSendEvent::Idle { handle }),
            },
            IdleActivity::WaitingForIdleDoneSent => FinishSendingResult::Completed {
                event: ClientSendEvent::IdleDone { handle },
            },
            activity => FinishSendingResult::Uncompleted {
                state: CurrentMessage::Idle(IdleState { handle, tag, activity }),
                event: None,
            },
        }
    }
}

impl<P> CommandState<P> {
    fn finish_sending(self) -> (res: FinishSendingResult<P>)
        ensures
            res@ == spec_finish(CurrentMessage::Command(self)@),
    {
        let CommandState { handle, command, tag, fragments, activity } = self;
        match activity {
            CommandActivity::WaitingForFragmentsSent { limbo_literal } => match limbo_literal {
                Some(limbo_literal) => FinishSendingResult::Uncompleted {
                    state: CurrentMessage::Command(
                        CommandState {
                            handle,
                            command,
                            tag,
                            fragments,
                            activity: CommandActivity::WaitingForLiteralAccepted { limbo_literal },
                        },
                    ),
                    event: None,
                },
                None => FinishSendingResult::Completed {
                    event: ClientSendEvent::Command { handle, command },
                },
            },
            activity => FinishSendingResult::Uncompleted {
                state: CurrentMessage::Command(
                    CommandState { handle, command, tag, fragments, activity },
                ),
                event: None,
            },
        }
    }
}

impl<P> CurrentMessage<P> {
    /// Pushes as many bytes as possible from the message to the buffer.
    fn push_to_buffer(self, write_buffer: &mut Vec<u8>) -> (res: Self)
        ensures
            spec_push(self@) == (res@, appended(old(write_buffer)@, final(write_buffer)@)),
            extends(old(write_buffer)@, final(write_buffer)@),
    {
        match self {
            CurrentMessage::Command(state) => CurrentMessage::Command(
                state.push_to_buffer(write_buffer),
            ),
            CurrentMessage::Authenticate(state) => CurrentMessage::Authenticate(
                state.push_to_buffer(write_buffer),
            ),
            CurrentMessage::Idle(state) => CurrentMessage::Idle(
                state.push_to_buffer::<P>(write_buffer),
            ),
        }
    }

    /// Updates the state after all bytes were sent.
    fn finish_sending(self) -> (res: FinishSendingResult<P>)
        ensures
            res@ == spec_finish(self@),
    {
        match self {
            CurrentMessage::Command(state) => state.finish_sending(),
            CurrentMessage::Authenticate(state) => state.finish_sending(),
            CurrentMessage::Idle(state) => state.finish_sending::<P>(),
        }
    }
}

fn vec_to_deque(v: Vec<Fragment>) -> (res: VecDeque<Fragment>)
    ensures
        res@ == v@,
{
    let mut v = v;
    let mut res: VecDeque<Fragment> = VecDeque::new();
    let ghost v0 = v@;
    while v.len() > 0
        invariant
            res@ + v@ == v0,
        decreases v@.len(),
    {
        let f = v.remove(0);
        res.push_back(f);
        assert(res@ + v@ =~= v0);
    }
    assert(res@ =~= v0);
    res
}


pub struct StatusInfoView {
    pub tag: Option<Seq<u8>>,
    pub kind: StatusKind,
}

pub open spec fn status_view(s: StatusInfo) -> StatusInfoView {
    StatusInfoView { tag: opt_bytes(s.tag), kind: s.kind }
}

/// How a status response ends the current message, if it does: a tagged BAD for the current
/// regular command rejects its literal; a tagged status for the current AUTHENTICATE accepts
/// (OK) or rejects (NO, BAD) it; a tagged status for the current IDLE rejects it.
pub open spec fn spec_terminate<P>(c: CurrentMessageView<P>, s: StatusInfoView) -> (Option<
    CurrentMessageView<P>,
>, Option<ClientSendTermination<P>>) {
    match c {
        CurrentMessageView::Command { handle, command, tag, .. } => {
            if s.kind == StatusKind::Bad && s.tag == Some(tag) {
                (None, Some(ClientSendTermination::LiteralRejected { handle, command }))
            } else {
                (Some(c), None)
            }
        },
        CurrentMessageView::Authenticate { handle, command_authenticate, tag, .. } => {
            if s.tag == Some(tag) {
                if s.kind == StatusKind::Okay {
                    (
                        None,
                        Some(
                            ClientSendTermination::AuthenticateAccepted {
                                handle,
                                command_authenticate,
                            },
                        ),
                    )
                } else {
                    (
                        None,
                        Some(
                            ClientSendTermination::AuthenticateRejected {
                                handle,
                                command_authenticate,
                            },
                        ),
                    )
                }
            } else {
                (Some(c), None)
            }
        },
        CurrentMessageView::Idle { handle, tag, .. } => {
            if s.tag == Some(tag) {
                (None, Some(ClientSendTermination::IdleRejected { handle }))
            } else {
                (Some(c), None)
            }
        },
    }
}

fn opt_bytes_eq(a: &Option<Vec<u8>>, b: &Vec<u8>) -> (res: bool)
    ensures
        res == (opt_bytes(*a) == Some(b@)),
{
    match a {
        Some(a) => bytes_eq(a.as_slice(), b.as_slice()),
        None => false,
    }
}

/// Encodes the DONE line that ends an idle command.
#[verifier::external_body]
fn encode_idle_done() -> (res: Vec<u8>)
    ensures
        res@ == idle_done_line(),
{
    imap_codec::IdleDoneCodec::default().encode(&imap_codec::imap_types::extensions::idle::IdleDone).dump()
}

impl<P> QueuedMessage<P> {
    /// Start the sending process for this message.
    fn start(self) -> (res: CurrentMessage<P>)
        requires
            self@.command.well_formed(),
        ensures
            res@ == spec_start(self@),
    {
        let QueuedMessage { handle, command } = self;
        let OutgoingCommand { command, tag, kind, fragments } = command;
        let ghost fv = fragment_views(fragments@);
        match kind {
            CommandKind::Authenticate => {
                // The authenticate command is a single line by definition
                let mut fragments = fragments;
                let first = fragments.remove(0);
                assert(first@ == fv[0]);
                let authenticate = match first {
                    Fragment::Line { data } => data,
                    Fragment::Literal { data, .. } => data,
                };
                CurrentMessage::Authenticate(
                    AuthenticateState {
                        handle,
                        command_authenticate: command,
                        tag,
                        activity: AuthenticateActivity::PushingAuthenticate { authenticate },
                    },
                )
            },
            CommandKind::Idle => {
                // The idle command is a single line by definition
                let mut fragments = fragments;
                let first = fragments.remove(0);
                assert(first@ == fv[0]);
                let idle = match first {
                    Fragment::Line { data } => data,
                    Fragment::Literal { data, .. } => data,
                };
                CurrentMessage::Idle(
                    IdleState { handle, tag, activity: IdleActivity::PushingIdle { idle } },
                )
            },
            CommandKind::Regular => CurrentMessage::Command(
                CommandState {
                    handle,
                    command,
                    tag,
                    fragments: vec_to_deque(fragments),
                    activity: CommandActivity::PushingFragments { accepted_literal: None },
                },
            ),
        }
    }
}

/// Once the accepted IDLE is set done, the next step of sending outputs `DONE\r\n`, and the
/// step after it reports that DONE was sent for the IDLE's handle, which ends the IDLE.
pub proof fn lemma_idle_done_sent_next<P>(
    s0: ClientSendStateView<P>,
    s1: ClientSendStateView<P>,
    s2: ClientSendStateView<P>,
    r1: Result<Option<ClientSendEvent<P>>, Interrupt<Infallible>>,
    r2: Result<Option<ClientSendEvent<P>>, Interrupt<Infallible>>,
)
    requires
        s0.current matches Some(
            CurrentMessageView::Idle { activity: IdleActivityView::PushingIdleDone { idle_done }, .. },
        ) && idle_done == idle_done_line(),
        s0.progress_step(s1, r1),
        s1.progress_step(s2, r2),
    ensures
        r1 matches Err(Interrupt::Io(Io::Output(bytes))) && bytes@ == idle_done_line(),
        s0.current matches Some(CurrentMessageView::Idle { handle, .. }) && r2 == Ok::<
            Option<ClientSendEvent<P>>,
            Interrupt<Infallible>,
        >(Some(ClientSendEvent::IdleDone { handle })),
        s2.current is None,
        s2.queue == s0.queue,
{
}

/// Once the authenticate data is set, the next step of sending outputs its line (where it
/// is not empty), and the step after it reports nothing: the authentication waits for the
/// server's next continuation request or status.
pub proof fn lemma_authenticate_data_sent_next<P>(
    s0: ClientSendStateView<P>,
    s1: ClientSendStateView<P>,
    s2: ClientSendStateView<P>,
    r1: Result<Option<ClientSendEvent<P>>, Interrupt<Infallible>>,
    r2: Result<Option<ClientSendEvent<P>>, Interrupt<Infallible>>,
)
    requires
        s0.current matches Some(
            CurrentMessageView::Authenticate {
                activity: AuthenticateActivityView::PushingAuthenticateData { authenticate_data },
                ..
            },
        ) && authenticate_data.len() > 0,
        s0.progress_step(s1, r1),
        s1.progress_step(s2, r2),
    ensures
        s0.current matches Some(
            CurrentMessageView::Authenticate {
                activity: AuthenticateActivityView::PushingAuthenticateData { authenticate_data },
                ..
            },
        ) && (r1 matches Err(Interrupt::Io(Io::Output(bytes))) && bytes@ == authenticate_data),
        r2 == Ok::<Option<ClientSendEvent<P>>, Interrupt<Infallible>>(None),
        s2.current matches Some(
            CurrentMessageView::Authenticate {
                activity: AuthenticateActivityView::WaitingForAuthenticateResponse,
                ..
            },
        ),
        s2.queue == s0.queue,
{
}

/// What handling a continuation request for a literal does: where a literal of the command
/// being sent waits for it, the literal is released to be pushed next, and `res`; otherwise
/// nothing changes.
pub open spec fn literal_released<P>(
    before: ClientSendStateView<P>,
    after: ClientSendStateView<P>,
    res: bool,
) -> bool {
    &&& after.queue == before.queue
    &&& match before.current {
        Some(
            CurrentMessageView::Command {
                handle,
                command,
                tag,
                fragments,
                activity: CommandActivityView::WaitingForLiteralAccepted { limbo_literal },
            },
        ) => res && after.current == Some(
            CurrentMessageView::Command {
                handle,
                command,
                tag,
                fragments,
                activity: CommandActivityView::PushingFragments {
                    accepted_literal: Some(limbo_literal),
                },
            },
        ),
        _ => !res && after.current == before.current,
    }
}

/// After a continuation request released the literal that waited for it, the next step of
/// sending outputs the literal's bytes followed by the fragments after it, up to the next
/// sync literal (where those bytes are not all empty).
pub proof fn lemma_released_literal_sent_next<P>(
    before: ClientSendStateView<P>,
    released: ClientSendStateView<P>,
    after: ClientSendStateView<P>,
    res: Result<Option<ClientSendEvent<P>>, Interrupt<Infallible>>,
)
    requires
        literal_released(before, released, true),
        released.progress_step(after, res),
    ensures
        before.current matches Some(
            CurrentMessageView::Command {
                fragments,
                activity: CommandActivityView::WaitingForLiteralAccepted { limbo_literal },
                ..
            },
        ) && ((limbo_literal + split_at_sync_literal(fragments).0).len() > 0 ==> (res matches Err(
            Interrupt::Io(Io::Output(bytes)),
        ) && bytes@ == limbo_literal + split_at_sync_literal(fragments).0)),
{
}

impl<P> ClientSendState<P> {
    pub fn new() -> (res: Self)
        ensures
            res@.queue.len() == 0,
            res@.current is None,
            res@.wf(),
    {
        let res = Self { queued_messages: VecDeque::new(), current_message: None };
        assert(res@.queue =~= Seq::<QueuedMessageView<P>>::empty());
        res
    }

    /// Enqueues a command at the end of the queue.
    pub fn enqueue_command(&mut self, handle: CommandHandle, command: OutgoingCommand<P>)
        requires
            command@.well_formed(),
        ensures
            final(self)@.queue == old(self)@.queue.push(
                QueuedMessageView { handle, command: command@ },
            ),
            final(self)@.current == old(self)@.current,
            old(self)@.wf() ==> final(self)@.wf(),
    {
        let ghost q0 = self.queued_messages@;
        self.queued_messages.push_back(QueuedMessage { handle, command });
        assert(self.queued_messages@.map_values(|q: QueuedMessage<P>| q@) =~= q0.map_values(
            |q: QueuedMessage<P>| q@,
        ).push(QueuedMessageView { handle, command: command@ }));
    }

    /// Terminates the current message depending on the received status, see
    /// [`spec_terminate`].
    pub fn maybe_terminate(&mut self, status: &StatusInfo) -> (res: Option<ClientSendTermination<P>>)
        ensures
            final(self)@.queue == old(self)@.queue,
            match old(self)@.current {
                None => res is None && final(self)@.current is None,
                Some(c) => spec_terminate(c, status_view(*status)) == (final(self)@.current, res),
            },
    {
        let current_message = match self.current_message.take() {
            Some(c) => c,
            None => return None,
        };
        match current_message {
            CurrentMessage::Command(state) => {
                // Check if status matches the current command
                if status.kind == StatusKind::Bad && opt_bytes_eq(&status.tag, &state.tag) {
                    // Terminate command because literal was rejected
                    return Some(
                        ClientSendTermination::LiteralRejected {
                            handle: state.handle,
                            command: state.command,
                        },
                    );
                }
                self.current_message = Some(CurrentMessage::Command(state));
                None
            },
            CurrentMessage::Authenticate(state) => {
                // Check if status matches the current authenticate command
                if opt_bytes_eq(&status.tag, &state.tag) {
                    match status.kind {
                        StatusKind::Okay => {
                            // Terminate authenticate command because it was accepted
                            return Some(
                                ClientSendTermination::AuthenticateAccepted {
                                    handle: state.handle,
                                    command_authenticate: state.command_authenticate,
                                },
                            );
                        },
                        StatusKind::No | StatusKind::Bad => {
                            // Terminate authenticate command because it was rejected
                            return Some(
                                ClientSendTermination::AuthenticateRejected {
                                    handle: state.handle,
                                    command_authenticate: state.command_authenticate,
                                },
                            );
                        },
                    }
                }
                self.current_message = Some(CurrentMessage::Authenticate(state));
                None
            },
            CurrentMessage::Idle(state) => {
                // Check if status matches the current idle command
                if opt_bytes_eq(&status.tag, &state.tag) {
                    // Terminate idle command because it was rejected
                    return Some(ClientSendTermination::IdleRejected { handle: state.handle });
                }
                self.current_message = Some(CurrentMessage::Idle(state));
                None
            },
        }
    }

    /// Handles the received continuation request for a literal: a literal that waits for
    /// the server's consent is released.
    pub fn literal_continue(&mut self) -> (res: bool)
        ensures
            literal_released(old(self)@, final(self)@, res),
    {
        let current_message = match self.current_message.take() {
            Some(c) => c,
            None => return false,
        };
        match current_message {
            CurrentMessage::Command(state) => {
                let CommandState { handle, command, tag, fragments, activity } = state;
                match activity {
                    CommandActivity::WaitingForLiteralAccepted { limbo_literal } => {
                        self.current_message = Some(
                            CurrentMessage::Command(
                                CommandState {
                                    handle,
                                    command,
                                    tag,
                                    fragments,
                                    activity: CommandActivity::PushingFragments {
                                        accepted_literal: Some(limbo_literal),
                                    },
                                },
                            ),
                        );
                        true
                    },
                    activity => {
                        self.current_message = Some(
                            CurrentMessage::Command(
                                CommandState { handle, command, tag, fragments, activity },
                            ),
                        );
                        false
                    },
                }
            },
            other => {
                self.current_message = Some(other);
                false
            },
        }
    }

    /// Handles the received continuation request for authenticate data.
    pub fn authenticate_continue(&mut self) -> (res: Option<CommandHandle>)
        ensures
            final(self)@.queue == old(self)@.queue,
            match old(self)@.current {
                Some(
                    CurrentMessageView::Authenticate {
                        handle,
                        command_authenticate,
                        tag,
                        activity: AuthenticateActivityView::WaitingForAuthenticateResponse,
                    },
                ) => res == Some(handle) && final(self)@.current == Some(
                    CurrentMessageView::Authenticate {
                        handle,
                        command_authenticate,
                        tag,
                        activity: AuthenticateActivityView::WaitingForAuthenticateDataSet,
                    },
                ),
                _ => res is None && final(self)@.current == old(self)@.current,
            },
    {
        let current_message = match self.current_message.take() {
            Some(c) => c,
            None => return None,
        };
        match current_message {
            CurrentMessage::Authenticate(state) => {
                let AuthenticateState { handle, command_authenticate, tag, activity } = state;
                match activity {
                    AuthenticateActivity::WaitingForAuthenticateResponse => {
                        self.current_message = Some(
                            CurrentMessage::Authenticate(
                                AuthenticateState {
                                    handle,
                                    command_authenticate,
                                    tag,
                                    activity: AuthenticateActivity::WaitingForAuthenticateDataSet,
                                },
                            ),
                        );
                        Some(handle)
                    },
                    activity => {
                        self.current_message = Some(
                            CurrentMessage::Authenticate(
                                AuthenticateState { handle, command_authenticate, tag, activity },
                            ),
                        );
                        None
                    },
                }
            },
            other => {
                self.current_message = Some(other);
                None
            },
        }
    }

    /// Takes the requested authenticate data (an encoded line) for sending it to the server.
    pub fn set_authenticate_data(&mut self, authenticate_data: Vec<u8>) -> (res: Result<
        CommandHandle,
        Vec<u8>,
    >)
        ensures
            final(self)@.queue == old(self)@.queue,
            match old(self)@.current {
                Some(
                    CurrentMessageView::Authenticate {
                        handle,
                        command_authenticate,
                        tag,
                        activity: AuthenticateActivityView::WaitingForAuthenticateDataSet,
                    },
                ) => res == Ok::<CommandHandle, Vec<u8>>(handle) && final(self)@.current == Some(
                    CurrentMessageView::Authenticate {
                        handle,
                        command_authenticate,
                        tag,
                        activity: AuthenticateActivityView::PushingAuthenticateData {
                            authenticate_data: authenticate_data@,
                        },
                    },
                ),
                _ => res == Err::<CommandHandle, Vec<u8>>(authenticate_data) && final(self)@.current
                    == old(self)@.current,
            },
    {
        let current_message = match self.current_message.take() {
            Some(c) => c,
            None => return Err(authenticate_data),
        };
        match current_message {
            CurrentMessage::Authenticate(state) => {
                let AuthenticateState { handle, command_authenticate, tag, activity } = state;
                match activity {
                    AuthenticateActivity::WaitingForAuthenticateDataSet => {
                        self.current_message = Some(
                            CurrentMessage::Authenticate(
                                AuthenticateState {
                                    handle,
                                    command_authenticate,
                                    tag,
                                    activity: AuthenticateActivity::PushingAuthenticateData {
                                        authenticate_data,
                                    },
                                },
                            ),
                        );
                        Ok(handle)
                    },
                    activity => {
                        self.current_message = Some(
                            CurrentMessage::Authenticate(
                                AuthenticateState { handle, command_authenticate, tag, activity },
                            ),
                        );
                        Err(authenticate_data)
                    },
                }
            },
            other => {
                self.current_message = Some(other);
                Err(authenticate_data)
            },
        }
    }

    /// Handles the received continuation request that accepts the idle command.
    pub fn idle_continue(&mut self) -> (res: Option<CommandHandle>)
        ensures
            final(self)@.queue == old(self)@.queue,
            match old(self)@.current {
                Some(
                    CurrentMessageView::Idle {
                        handle,
                        tag,
                        activity: IdleActivityView::WaitingForIdleResponse,
                    },
                ) => res == Some(handle) && final(self)@.current == Some(
                    CurrentMessageView::<P>::Idle {
                        handle,
                        tag,
                        activity: IdleActivityView::WaitingForIdleDoneSet,
                    },
                ),
                _ => res is None && final(self)@.current == old(self)@.current,
            },
    {
        let current_message = match self.current_message.take() {
            Some(c) => c,
            None => return None,
        };
        match current_message {
            CurrentMessage::Idle(state) => {
                let IdleState { handle, tag, activity } = state;
                match activity {
                    IdleActivity::WaitingForIdleResponse => {
                        self.current_message = Some(
                            CurrentMessage::Idle(
                                IdleState {
                                    handle,
                                    tag,
                                    activity: IdleActivity::WaitingForIdleDoneSet,
                                },
                            ),
                        );
                        Some(handle)
                    },
                    activity => {
                        self.current_message = Some(
                            CurrentMessage::Idle(IdleState { handle, tag, activity }),
                        );
                        None
                    },
                }
            },
            other => {
                self.current_message = Some(other);
                None
            },
        }
    }

    /// Ends the idle command: DONE will be sent to the server.
    pub fn set_idle_done(&mut self) -> (res: Option<CommandHandle>)
        ensures
            final(self)@.queue == old(self)@.queue,
            match old(self)@.current {
                Some(
                    CurrentMessageView::Idle {
                        handle,
                        tag,
                        activity: IdleActivityView::WaitingForIdleDoneSet,
                    },
                ) => res == Some(handle) && final(self)@.current == Some(
                    CurrentMessageView::<P>::Idle {
                        handle,
                        tag,
                        activity: IdleActivityView::PushingIdleDone { idle_done: idle_done_line() },
                    },
                ),
                _ => res is None && final(self)@.current == old(self)@.current,
            },
    {
        let current_message = match self.current_message.take() {
            Some(c) => c,
            None => return None,
        };
        match current_message {
            CurrentMessage::Idle(state) => {
                let IdleState { handle, tag, activity } = state;
                match activity {
                    IdleActivity::WaitingForIdleDoneSet => {
                        let idle_done = encode_idle_done();
                        self.current_message = Some(
                            CurrentMessage::Idle(
                                IdleState {
                                    handle,
                                    tag,
                                    activity: IdleActivity::PushingIdleDone { idle_done },
                                },
                            ),
                        );
                        Some(handle)
                    },
                    activity => {
                        self.current_message = Some(
                            CurrentMessage::Idle(IdleState { handle, tag, activity }),
                        );
                        None
                    },
                }
            },
            other => {
                self.current_message = Some(other);
                None
            },
        }
    }

    /// Progresses the sending: continues the current message, or starts the next queued one.
    /// Bytes to send interrupt the progress; once they are sent, the next call reports what
    /// was sent.
    pub fn progress(&mut self) -> (res: Result<Option<ClientSendEvent<P>>, Interrupt<Infallible>>)
        requires
            old(self)@.wf(),
        ensures
            old(self)@.progress_step(final(self)@, res),
            final(self)@.wf(),
    {
        let ghost q0 = self.queued_messages@;
        let current_message = match self.current_message.take() {
            Some(current_message) => {
                // The sending process was interrupted before; continue it.
                current_message
            },
            None => {
                let queued_message = match self.queued_messages.pop_front() {
                    Some(q) => q,
                    None => {
                        // There is currently no message that needs to be sent
                        return Ok(None);
                    },
                };
                proof {
                    assert(self.queued_messages@.map_values(|q: QueuedMessage<P>| q@) =~= q0.map_values(
                        |q: QueuedMessage<P>| q@,
                    ).drop_first());
                    assert(q0.map_values(|q: QueuedMessage<P>| q@)[0] == queued_message@);
                }
                queued_message.start()
            },
        };
        // Creates a buffer for writing the current message
        let mut write_buffer: Vec<u8> = Vec::new();
        // Push as many bytes of the message as possible to the buffer
        let current_message = current_message.push_to_buffer(&mut write_buffer);
        proof {
            assert(appended(Seq::<u8>::empty(), write_buffer@) =~= write_buffer@);
        }
        if write_buffer.len() == 0 {
            // Inform the state of the current message that all bytes are sent
            match current_message.finish_sending() {
                FinishSendingResult::Uncompleted { state, event } => {
                    // Message is not finished yet
                    self.current_message = Some(state);
                    Ok(event)
                },
                FinishSendingResult::Completed { event } => {
                    // Message was sent completely
                    Ok(Some(event))
                },
            }
        } else {
            // Store the current message, we'll continue later
            self.current_message = Some(current_message);
            // Interrupt the flow for sending all bytes of current message
            Err(Interrupt::Io(Io::Output(write_buffer)))
        }
    }
}

} // verus!
