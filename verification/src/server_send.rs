//! Sending side of the server flow: a FIFO queue of encoded greetings and responses.
//!
//! `G` and `R` are the caller's own values of the greeting and of the responses; they are
//! carried along and given back once their bytes were handed out for sending.

use std::collections::VecDeque;
use std::convert::Infallible;

use crate::server::ResponseHandle;
use crate::types::{flatten, fragment_views, Fragment, FragmentView};
use crate::{Interrupt, Io};
use vstd::prelude::*;

verus! {

/// Message was sent (or is being sent).
pub enum ServerSendEvent<G, R> {
    Greeting { greeting: G },
    /// A response; responses that the server flow makes by itself carry no handle.
    Response { handle: Option<ResponseHandle>, response: R },
}

/// Message that is queued but not sent yet, with its encoded fragments.
pub struct QueuedMessage<G, R> {
    pub message: ServerSendEvent<G, R>,
    pub fragments: Vec<Fragment>,
}

pub struct QueuedMessageView<G, R> {
    pub message: ServerSendEvent<G, R>,
    pub fragments: Seq<FragmentView>,
}

impl<G, R> View for QueuedMessage<G, R> {
    type V = QueuedMessageView<G, R>;

    open spec fn view(&self) -> QueuedMessageView<G, R> {
        QueuedMessageView { message: self.message, fragments: fragment_views(self.fragments@) }
    }
}

pub struct ServerSendStateView<G, R> {
    pub queue: Seq<QueuedMessageView<G, R>>,
    pub current: Option<ServerSendEvent<G, R>>,
}

/// FIFO queue for messages that should be sent next, and the message being sent.
pub struct ServerSendState<G, R> {
    queued_messages: VecDeque<QueuedMessage<G, R>>,
    current_message: Option<ServerSendEvent<G, R>>,
}

impl<G, R> View for ServerSendState<G, R> {
    type V = ServerSendStateView<G, R>;

    closed spec fn view(&self) -> ServerSendStateView<G, R> {
        ServerSendStateView {
            queue: self.queued_messages@.map_values(|q: QueuedMessage<G, R>| q@),
            current: self.current_message,
        }
    }
}

/// Appends all bytes of the fragments, in order; literals need no consent on the server side.
pub fn push_encoded_to_buffer(write_buffer: &mut Vec<u8>, fragments: Vec<Fragment>)
    ensures
        final(write_buffer)@ == old(write_buffer)@ + flatten(fragment_views(fragments@)),
{
    let mut fragments = fragments;
    let ghost f0 = fragment_views(fragments@);
    let ghost b0 = write_buffer@;
    while fragments.len() > 0
        invariant
            write_buffer@ + flatten(fragment_views(fragments@)) == b0 + flatten(f0),
        decreases fragments@.len(),
    {
        let ghost fv = fragment_views(fragments@);
        let fragment = fragments.remove(0);
        assert(fragment_views(fragments@) =~= fv.drop_first());
        assert(fragment@ == fv[0]);
        let mut data = match fragment {
            Fragment::Line { data } => data,
            Fragment::Literal { data, .. } => data,
        };
        write_buffer.append(&mut data);
        assert(write_buffer@ + flatten(fragment_views(fragments@)) =~= b0 + flatten(f0));
    }
    assert(fragment_views(fragments@) =~= Seq::<FragmentView>::empty());
    assert(write_buffer@ =~= b0 + flatten(f0));
}

impl<G, R> ServerSendState<G, R> {
    pub fn new() -> (res: Self)
        ensures
            res@.queue.len() == 0,
            res@.current is None,
    {
        let res = Self { queued_messages: VecDeque::new(), current_message: None };
        assert(res@.queue =~= Seq::<QueuedMessageView<G, R>>::empty());
        res
    }

    pub fn enqueue_greeting(&mut self, greeting: G, fragments: Vec<Fragment>)
        ensures
            final(self)@.queue == old(self)@.queue.push(
                QueuedMessageView {
                    message: ServerSendEvent::Greeting { greeting },
                    fragments: fragment_views(fragments@),
                },
            ),
            final(self)@.current == old(self)@.current,
    {
        let ghost q0 = self.queued_messages@;
        let ghost fv = fragment_views(fragments@);
        self.queued_messages.push_back(
            QueuedMessage { message: ServerSendEvent::Greeting { greeting }, fragments },
        );
        assert(self.queued_messages@.map_values(|q: QueuedMessage<G, R>| q@) =~= q0.map_values(
            |q: QueuedMessage<G, R>| q@,
        ).push(
            QueuedMessageView { message: ServerSendEvent::Greeting { greeting }, fragments: fv },
        ));
    }

    pub fn enqueue_response(
        &mut self,
        handle: Option<ResponseHandle>,
        response: R,
        fragments: Vec<Fragment>,
    )
        ensures
            final(self)@.queue == old(self)@.queue.push(
                QueuedMessageView {
                    message: ServerSendEvent::Response { handle, response },
                    fragments: fragment_views(fragments@),
                },
            ),
            final(self)@.current == old(self)@.current,
    {
        let ghost q0 = self.queued_messages@;
        let ghost fv = fragment_views(fragments@);
        self.queued_messages.push_back(
            QueuedMessage { message: ServerSendEvent::Response { handle, response }, fragments },
        );
        assert(self.queued_messages@.map_values(|q: QueuedMessage<G, R>| q@) =~= q0.map_values(
            |q: QueuedMessage<G, R>| q@,
        ).push(
            QueuedMessageView {
                message: ServerSendEvent::Response { handle, response },
                fragments: fv,
            },
        ));
    }

    /// Reports the message whose bytes were handed out by the previous call, or hands out
    /// the bytes of the next queued message.
    pub fn next(&mut self) -> (res: Result<Option<ServerSendEvent<G, R>>, Interrupt<Infallible>>)
        ensures
            send_step(old(self)@, final(self)@, res),
    {
        match self.current_message.take() {
            Some(current_message) => {
                // Continue the message that was interrupted.
                Ok(Some(current_message))
            },
            None => {
                let ghost q0 = self.queued_messages@;
                let queued_message = match self.queued_messages.pop_front() {
                    Some(q) => q,
                    None => {
                        // There is currently no message that needs to be sent
                        return Ok(None);
                    },
                };
                proof {
                    assert(self.queued_messages@.map_values(|q: QueuedMessage<G, R>| q@)
                        =~= q0.map_values(|q: QueuedMessage<G, R>| q@).drop_first());
                    assert(q0.map_values(|q: QueuedMessage<G, R>| q@)[0] == queued_message@);
                }
                let QueuedMessage { message, fragments } = queued_message;
                // Push the bytes of the message to a fresh buffer
                let mut write_buffer: Vec<u8> = Vec::new();
                push_encoded_to_buffer(&mut write_buffer, fragments);
                assert(write_buffer@ =~= flatten(old(self)@.queue[0].fragments));
                self.current_message = Some(message);
                // Interrupt the state for sending all bytes of current message
                Err(Interrupt::Io(Io::Output(write_buffer)))
            },
        }
    }
}

/// Messages are sent in the order they were enqueued, each in one piece: the bytes handed
/// out are those of the message at the front of the queue, and the next call reports that
/// same message.
pub proof fn lemma_responses_sent_in_enqueue_order<G, R>(
    s0: ServerSendStateView<G, R>,
    s1: ServerSendStateView<G, R>,
    s2: ServerSendStateView<G, R>,
    r1: Result<Option<ServerSendEvent<G, R>>, Interrupt<Infallible>>,
    r2: Result<Option<ServerSendEvent<G, R>>, Interrupt<Infallible>>,
)
    requires
        s0.current is None,
        s0.queue.len() > 0,
        s1.current == Some(s0.queue[0].message),
        s1.queue == s0.queue.drop_first(),
        r1 matches Err(Interrupt::Io(Io::Output(bytes))) && bytes@ == flatten(s0.queue[0].fragments),
        r2 == Ok::<Option<ServerSendEvent<G, R>>, Interrupt<Infallible>>(Some(s1.current->0)),
        s2.current is None,
        s2.queue == s1.queue,
    ensures
        r2 == Ok::<Option<ServerSendEvent<G, R>>, Interrupt<Infallible>>(Some(s0.queue[0].message)),
        s2.queue == s0.queue.drop_first(),
{
}

/// What a step of sending does: reports the message whose bytes were handed out, or hands out
/// the bytes of the message at the front of the queue, or finds nothing to send.
pub open spec fn send_step<G, R>(
    before: ServerSendStateView<G, R>,
    after: ServerSendStateView<G, R>,
    res: Result<Option<ServerSendEvent<G, R>>, Interrupt<Infallible>>,
) -> bool {
    match before.current {
        Some(m) => {
            &&& res == Ok::<Option<ServerSendEvent<G, R>>, Interrupt<Infallible>>(Some(m))
            &&& after.current is None
            &&& after.queue == before.queue
        },
        None => if before.queue.len() == 0 {
            &&& res == Ok::<Option<ServerSendEvent<G, R>>, Interrupt<Infallible>>(None)
            &&& after == before
        } else {
            &&& res matches Err(Interrupt::Io(Io::Output(bytes))) && bytes@ == flatten(
                before.queue[0].fragments,
            )
            &&& after.current == Some(before.queue[0].message)
            &&& after.queue == before.queue.drop_first()
        },
    }
}

/// The messages reported by a run of sending steps, in order.
pub open spec fn reported_messages<G, R>(
    results: Seq<Result<Option<ServerSendEvent<G, R>>, Interrupt<Infallible>>>,
) -> Seq<ServerSendEvent<G, R>>
    decreases results.len(),
{
    if results.len() == 0 {
        Seq::empty()
    } else {
        let earlier = reported_messages(results.drop_last());
        match results.last() {
            Ok(Some(m)) => earlier.push(m),
            _ => earlier,
        }
    }
}

/// The bytes handed out by a run of sending steps, in order.
pub open spec fn written_bytes<G, R>(
    results: Seq<Result<Option<ServerSendEvent<G, R>>, Interrupt<Infallible>>>,
) -> Seq<u8>
    decreases results.len(),
{
    if results.len() == 0 {
        Seq::empty()
    } else {
        let earlier = written_bytes(results.drop_last());
        match results.last() {
            Err(Interrupt::Io(Io::Output(bytes))) => earlier + bytes@,
            _ => earlier,
        }
    }
}

/// The bytes of queued messages, one after the other.
pub open spec fn queue_bytes<G, R>(queue: Seq<QueuedMessageView<G, R>>) -> Seq<u8>
    decreases queue.len(),
{
    if queue.len() == 0 {
        Seq::empty()
    } else {
        queue_bytes(queue.drop_last()) + flatten(queue.last().fragments)
    }
}

/// The messages of queued messages.
pub open spec fn queue_messages<G, R>(queue: Seq<QueuedMessageView<G, R>>) -> Seq<ServerSendEvent<G, R>> {
    queue.map_values(|q: QueuedMessageView<G, R>| q.message)
}

/// Over any run of sending steps from a state with no message in flight, messages go out in
/// the order they were enqueued, each exactly once and in one piece: the messages reported
/// are the first ones of the queue, in queue order; the bytes handed out are theirs, in the
/// same order, followed by those of the message in flight, if any; and the rest of the queue
/// waits.
pub proof fn lemma_send_run<G, R>(
    states: Seq<ServerSendStateView<G, R>>,
    results: Seq<Result<Option<ServerSendEvent<G, R>>, Interrupt<Infallible>>>,
)
    requires
        states.len() == results.len() + 1,
        states[0].current is None,
        forall|i: int| 0 <= i < results.len() ==> send_step(states[i], #[trigger] states[i + 1], results[i]),
    ensures
        ({
            let queue = states[0].queue;
            let k = reported_messages(results).len() as int;
            let sent = if states.last().current is Some { k + 1 } else { k };
            &&& sent <= queue.len()
            &&& reported_messages(results) == queue_messages(queue.take(k))
            &&& written_bytes(results) == queue_bytes(queue.take(sent))
            &&& states.last().queue == queue.skip(sent)
            &&& states.last().current matches Some(m) ==> m == queue[k].message
        }),
    decreases results.len(),
{
    let queue = states[0].queue;
    if results.len() == 0 {
        assert(queue.take(0) =~= Seq::<QueuedMessageView<G, R>>::empty());
        assert(queue.skip(0) =~= queue);
        assert(queue_messages(queue.take(0)) =~= Seq::<ServerSendEvent<G, R>>::empty());
    } else {
        let n = results.len() - 1;
        let earlier_states = states.drop_last();
        let earlier_results = results.drop_last();
        assert forall|i: int| 0 <= i < earlier_results.len() implies send_step(
            earlier_states[i],
            #[trigger] earlier_states[i + 1],
            earlier_results[i],
        ) by {
            assert(send_step(states[i], states[i + 1], results[i]));
        }
        lemma_send_run(earlier_states, earlier_results);
        let k = reported_messages(earlier_results).len() as int;
        let s = states[n];
        let sent = if s.current is Some { k + 1 } else { k };
        assert(send_step(states[n], states[n + 1], results[n]));
        assert(earlier_results =~= results.drop_last());
        match s.current {
            Some(m) => {
                assert(queue.take(k + 1).drop_last() =~= queue.take(k));
                assert(queue_messages(queue.take(k + 1)) =~= queue_messages(queue.take(k)).push(m));
            },
            None => {
                if s.queue.len() > 0 {
                    assert(s.queue[0] == queue[k]);
                    assert(queue.take(k + 1).drop_last() =~= queue.take(k));
                    assert(queue.skip(k + 1) =~= queue.skip(k).drop_first());
                }
            },
        }
    }
}

} // verus!
