//! One connection's conversation: which reply each inbound event gets.
//!
//! A session owns a private queue of the payloads that were configured. Every
//! text or binary message from the peer is a trigger: its content is ignored,
//! and the next payload in the queue is the reply. When the queue is empty the
//! reply is a fixed text, and the connection stays open.

use crate::json::{json_text, to_text};
use serde_json::Value;
use vstd::prelude::*;

verus! {

/// What arrives on an open connection.
#[derive(Debug, PartialEq, Eq)]
pub enum Event {
    /// A text message. Its content is never looked at.
    Text(String),
    /// A binary message. Its content is never looked at.
    Binary(Vec<u8>),
    /// A ping control frame with its payload.
    Ping(Vec<u8>),
    /// A pong control frame with its payload.
    Pong(Vec<u8>),
    /// The peer's close frame.
    Close,
    /// The transport failed, the stream ended, or the peer broke the protocol.
    TransportError,
}

/// An [`Event`] as a mathematical value.
pub enum EventView {
    Text(Seq<char>),
    Binary(Seq<u8>),
    Ping(Seq<u8>),
    Pong(Seq<u8>),
    Close,
    TransportError,
}

impl View for Event {
    type V = EventView;

    open spec fn view(&self) -> EventView {
        match *self {
            Event::Text(text) => EventView::Text(text@),
            Event::Binary(bytes) => EventView::Binary(bytes@),
            Event::Ping(payload) => EventView::Ping(payload@),
            Event::Pong(payload) => EventView::Pong(payload@),
            Event::Close => EventView::Close,
            Event::TransportError => EventView::TransportError,
        }
    }
}

/// What the endpoint sends back for one event.
#[derive(Debug, PartialEq, Eq)]
pub enum Reply {
    /// One text message.
    Text(String),
    /// One pong control frame with this payload.
    Pong(Vec<u8>),
    /// No frame at all.
    Nothing,
}

/// A [`Reply`] as a mathematical value.
pub enum ReplyView {
    Text(Seq<char>),
    Pong(Seq<u8>),
    Nothing,
}

impl View for Reply {
    type V = ReplyView;

    open spec fn view(&self) -> ReplyView {
        match *self {
            Reply::Text(text) => ReplyView::Text(text@),
            Reply::Pong(payload) => ReplyView::Pong(payload@),
            Reply::Nothing => ReplyView::Nothing,
        }
    }
}

/// A session as a mathematical value: the payloads not yet sent, the next one
/// first, and whether the conversation is over.
pub struct SessionView {
    pub pending: Seq<Value>,
    pub closed: bool,
}

/// The text sent for a trigger once every payload has been sent.
pub open spec fn exhausted_text() -> Seq<char> {
    "No more response"@
}

/// A session that has sent nothing yet.
pub open spec fn fresh(responses: Seq<Value>) -> SessionView {
    SessionView { pending: responses, closed: false }
}

/// Text and binary messages trigger a scripted reply; nothing else does.
pub open spec fn is_trigger(event: EventView) -> bool {
    event is Text || event is Binary
}

/// One step of a conversation: the session after `event`, and the reply.
///
/// A closed session ignores everything. An open one answers a trigger with the
/// next payload and drops it from the queue, answers a ping with a pong of the
/// same payload, ignores a pong, and closes on a close frame or a transport
/// error without sending anything.
pub open spec fn step(session: SessionView, event: EventView) -> (SessionView, ReplyView) {
    if session.closed {
        (session, ReplyView::Nothing)
    } else if is_trigger(event) {
        if session.pending.len() > 0 {
            (
                SessionView { pending: session.pending.drop_first(), closed: false },
                ReplyView::Text(json_text(session.pending.first())),
            )
        } else {
            (session, ReplyView::Text(exhausted_text()))
        }
    } else {
        match event {
            EventView::Ping(payload) => (session, ReplyView::Pong(payload)),
            EventView::Close | EventView::TransportError => (
                SessionView { pending: session.pending, closed: true },
                ReplyView::Nothing,
            ),
            _ => (session, ReplyView::Nothing),
        }
    }
}

/// The session after a whole sequence of events, in order.
pub open spec fn state_after(session: SessionView, events: Seq<EventView>) -> SessionView
    decreases events.len(),
{
    if events.len() == 0 {
        session
    } else {
        state_after(step(session, events.first()).0, events.drop_first())
    }
}

/// The replies to a whole sequence of events, one per event, in order.
pub open spec fn replies(session: SessionView, events: Seq<EventView>) -> Seq<ReplyView>
    decreases events.len(),
{
    if events.len() == 0 {
        Seq::empty()
    } else {
        let (next, reply) = step(session, events.first());
        seq![reply] + replies(next, events.drop_first())
    }
}

/// The events of a batch as mathematical values, in order.
pub open spec fn event_views(events: Seq<Event>) -> Seq<EventView> {
    events.map_values(|event: Event| event@)
}

/// The replies of a batch as mathematical values, in order.
pub open spec fn reply_views(sent: Seq<Reply>) -> Seq<ReplyView> {
    sent.map_values(|reply: Reply| reply@)
}

impl Reply {
    /// The reply to a trigger, given the text of the next payload if one is
    /// left.
    pub fn scripted(next: Option<String>) -> (reply: Reply)
        ensures
            next matches Some(text) ==> reply@ == ReplyView::Text(text@),
            next is None ==> reply@ == ReplyView::Text(exhausted_text()),
    {
        match next {
            Some(text) => Reply::Text(text),
            None => Reply::Text("No more response".to_owned()),
        }
    }
}

/// The state of one accepted connection: a private copy of the configured
/// payloads and a cursor into it.
pub struct Session {
    queue: Vec<Value>,
    next: usize,
    closed: bool,
}

impl View for Session {
    type V = SessionView;

    closed spec fn view(&self) -> SessionView {
        SessionView { pending: self.queue@.skip(self.next as int), closed: self.closed }
    }
}

impl Session {
    #[verifier::type_invariant]
    spec fn cursor_in_queue(self) -> bool {
        self.next <= self.queue.len()
    }

    /// A session that will send `responses` in order, starting with the first.
    pub fn new(responses: Vec<Value>) -> (session: Session)
        ensures
            session@ == fresh(responses@),
    {
        let session = Session { queue: responses, next: 0, closed: false };
        assert(session@.pending =~= responses@);
        session
    }

    /// Whether the conversation is over: no event gets a reply any more.
    pub fn is_closed(&self) -> (closed: bool)
        ensures
            closed == self@.closed,
    {
        self.closed
    }

    /// How many payloads are still to be sent.
    pub fn remaining(&self) -> (count: usize)
        ensures
            count == self@.pending.len(),
    {
        proof {
            use_type_invariant(self);
        }
        self.queue.len() - self.next
    }

    /// Takes one event from the peer and says what to send back.
    pub fn on_event(&mut self, event: Event) -> (reply: Reply)
        ensures
            (final(self)@, reply@) == step(old(self)@, event@),
    {
        proof {
            use_type_invariant(&*self);
        }
        if self.closed {
            return Reply::Nothing;
        }
        match event {
            Event::Text(_) | Event::Binary(_) => {
                let next = if self.next < self.queue.len() {
                    let text = to_text(&self.queue[self.next]);
                    self.next = self.next + 1;
                    assert(self@.pending =~= old(self)@.pending.drop_first());
                    Some(text)
                } else {
                    assert(old(self)@.pending.len() == 0);
                    None
                };
                Reply::scripted(next)
            },
            Event::Ping(payload) => Reply::Pong(payload),
            Event::Pong(_) => Reply::Nothing,
            Event::Close | Event::TransportError => {
                self.closed = true;
                Reply::Nothing
            },
        }
    }

    /// Takes a batch of events in their order of arrival and says what to
    /// send back for each: one reply per event, in the same order.
    pub fn on_events(&mut self, events: Vec<Event>) -> (sent: Vec<Reply>)
        ensures
            reply_views(sent@) == replies(old(self)@, event_views(events@)),
            final(self)@ == state_after(old(self)@, event_views(events@)),
    {
        let ghost arrived = event_views(events@);
        let mut sent: Vec<Reply> = Vec::new();
        assert(arrived.skip(0) =~= arrived);
        assert(reply_views(sent@) =~= Seq::<ReplyView>::empty());
        for event in iter: events
            invariant
                arrived == event_views(iter.seq()),
                reply_views(sent@) + replies(self@, arrived.skip(iter.index() as int)) == replies(
                    old(self)@,
                    arrived,
                ),
                state_after(self@, arrived.skip(iter.index() as int)) == state_after(
                    old(self)@,
                    arrived,
                ),
        {
            let ghost before = self@;
            let ghost sent_before = reply_views(sent@);
            let ghost rest = arrived.skip(iter.index() as int);
            assert(rest.first() == event@);
            assert(rest.drop_first() =~= arrived.skip(iter.index() + 1));
            let reply = self.on_event(event);
            sent.push(reply);
            assert(reply_views(sent@) =~= sent_before + seq![reply@]);
            assert(replies(before, rest) == seq![reply@] + replies(self@, rest.drop_first()));
            assert(sent_before + (seq![reply@] + replies(self@, rest.drop_first()))
                =~= (sent_before + seq![reply@]) + replies(self@, rest.drop_first()));
        }
        assert(arrived.skip(arrived.len() as int) =~= Seq::<EventView>::empty());
        assert(reply_views(sent@) + Seq::<ReplyView>::empty() =~= reply_views(sent@));
        sent
    }
}

} // verus!
