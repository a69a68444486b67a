//! What holds of every conversation, proved from the step function.
//!
//! The statements are about [`step`], which is what
//! [`Session::on_event`](crate::session::Session::on_event) computes, and
//! about [`replies`] and [`state_after`], which are what
//! [`Session::on_events`](crate::session::Session::on_events) computes.

use crate::json::json_text;
use crate::session::{
    exhausted_text, fresh, is_trigger, replies, state_after, step, EventView, ReplyView,
    SessionView,
};
use serde_json::Value;
use vstd::prelude::*;

verus! {

/// Every event of the sequence is a text or binary message.
pub open spec fn all_triggers(events: Seq<EventView>) -> bool {
    forall|i: int| 0 <= i < events.len() ==> is_trigger(#[trigger] events[i])
}

/// The reply to the trigger at position `index` of a run of triggers, on a
/// session that starts with `pending` in its queue.
pub open spec fn reply_at(pending: Seq<Value>, index: int) -> ReplyView {
    if index < pending.len() {
        ReplyView::Text(json_text(pending[index]))
    } else {
        ReplyView::Text(exhausted_text())
    }
}

/// The arrivals that belong to one connection, in their order of arrival.
pub open spec fn events_on(arrivals: Seq<(nat, EventView)>, connection: nat) -> Seq<EventView>
    decreases arrivals.len(),
{
    if arrivals.len() == 0 {
        Seq::empty()
    } else {
        let rest = events_on(arrivals.drop_first(), connection);
        if arrivals.first().0 == connection {
            seq![arrivals.first().1] + rest
        } else {
            rest
        }
    }
}

/// The replies sent on one connection while events arrive on many: each
/// arrival is handed to the session of its own connection and to no other.
pub open spec fn replies_on(
    sessions: Map<nat, SessionView>,
    arrivals: Seq<(nat, EventView)>,
    connection: nat,
) -> Seq<ReplyView>
    decreases arrivals.len(),
{
    if arrivals.len() == 0 {
        Seq::empty()
    } else {
        let (target, event) = arrivals.first();
        let (next, reply) = step(sessions[target], event);
        let rest = replies_on(sessions.insert(target, next), arrivals.drop_first(), connection);
        if target == connection {
            seq![reply] + rest
        } else {
            rest
        }
    }
}

/// There is one reply for each event.
pub proof fn lemma_one_reply_per_event(session: SessionView, events: Seq<EventView>)
    ensures
        replies(session, events).len() == events.len(),
    decreases events.len(),
{
    if events.len() > 0 {
        lemma_one_reply_per_event(step(session, events.first()).0, events.drop_first());
    }
}

/// On an open session, a run of triggers is answered position by position:
/// with the payload at that position while there is one, and with the fixed
/// text after that.
pub proof fn law_triggers_are_answered_in_turn(
    pending: Seq<Value>,
    events: Seq<EventView>,
    index: int,
)
    requires
        all_triggers(events),
        0 <= index < events.len(),
    ensures
        replies(SessionView { pending, closed: false }, events)[index] == reply_at(pending, index),
    decreases events.len(),
{
    let session = SessionView { pending, closed: false };
    let next = step(session, events.first()).0;
    let rest = events.drop_first();
    assert(is_trigger(events[0]));
    lemma_one_reply_per_event(next, rest);
    if index > 0 {
        assert(all_triggers(rest)) by {
            assert forall|i: int| 0 <= i < rest.len() implies is_trigger(#[trigger] rest[i]) by {
                assert(rest[i] == events[i + 1]);
            }
        }
        law_triggers_are_answered_in_turn(next.pending, rest, index - 1);
        if index < pending.len() {
            assert(next.pending[index - 1] == pending[index]);
        }
    }
}

/// As many triggers as there are payloads, sent on one new connection, are
/// answered with exactly the payloads, each serialised, in the order in which
/// they were configured. After that the queue is empty.
pub proof fn law_replies_in_configured_order(responses: Seq<Value>, events: Seq<EventView>)
    requires
        all_triggers(events),
        events.len() == responses.len(),
    ensures
        replies(fresh(responses), events) == responses.map_values(
            |payload: Value| ReplyView::Text(json_text(payload)),
        ),
        state_after(fresh(responses), events) == fresh(Seq::empty()),
{
    let sent = replies(fresh(responses), events);
    let expected = responses.map_values(|payload: Value| ReplyView::Text(json_text(payload)));
    lemma_one_reply_per_event(fresh(responses), events);
    assert forall|i: int| 0 <= i < sent.len() implies sent[i] == expected[i] by {
        law_triggers_are_answered_in_turn(responses, events, i);
    }
    assert(sent =~= expected);
    law_unsent_payloads_stay_queued(responses, events);
    assert(responses.skip(events.len() as int) =~= Seq::<Value>::empty());
}

/// A run of triggers on an open session leaves it open. The payloads that
/// were not sent stay in the queue, in their order, for later triggers on the
/// same session; when there were more triggers than payloads, none is left.
pub proof fn law_unsent_payloads_stay_queued(pending: Seq<Value>, events: Seq<EventView>)
    requires
        all_triggers(events),
    ensures
        state_after(SessionView { pending, closed: false }, events) == (SessionView {
            pending: if events.len() <= pending.len() {
                pending.skip(events.len() as int)
            } else {
                Seq::empty()
            },
            closed: false,
        }),
    decreases events.len(),
{
    let session = SessionView { pending, closed: false };
    if events.len() == 0 {
        assert(pending.skip(0) =~= pending);
    } else {
        let next = step(session, events.first()).0;
        let rest = events.drop_first();
        assert(is_trigger(events[0]));
        assert(all_triggers(rest)) by {
            assert forall|i: int| 0 <= i < rest.len() implies is_trigger(#[trigger] rest[i]) by {
                assert(rest[i] == events[i + 1]);
            }
        }
        law_unsent_payloads_stay_queued(next.pending, rest);
        if pending.len() > 0 {
            if events.len() <= pending.len() {
                assert(next.pending.skip(rest.len() as int) =~= pending.skip(events.len() as int));
            }
        } else {
            assert(next.pending =~= Seq::<Value>::empty());
        }
    }
}

/// When more triggers are sent than payloads were configured, every trigger
/// beyond the last payload is answered with the fixed text
/// `No more response`.
pub proof fn law_excess_triggers_get_fixed_text(
    responses: Seq<Value>,
    events: Seq<EventView>,
    index: int,
)
    requires
        all_triggers(events),
        responses.len() <= index < events.len(),
    ensures
        replies(fresh(responses), events)[index] == ReplyView::Text("No more response"@),
{
    law_triggers_are_answered_in_turn(responses, events, index);
}

/// An open session answers a ping with a pong that carries the same payload,
/// and its queue is as it was before: a ping uses up no payload.
pub proof fn law_ping_is_answered_in_kind(session: SessionView, payload: Seq<u8>)
    requires
        !session.closed,
    ensures
        step(session, EventView::Ping(payload)) == (session, ReplyView::Pong(payload)),
{
}

/// The endpoint never speaks first: a frame is sent only in answer to a
/// trigger or to a ping, and only while the session is open.
pub proof fn law_replies_answer_triggers_and_pings(session: SessionView, event: EventView)
    requires
        step(session, event).1 != ReplyView::Nothing,
    ensures
        !session.closed,
        is_trigger(event) || event is Ping,
{
}

/// A trigger's content does not matter: any two text or binary messages
/// have the same effect and get the same reply.
pub proof fn law_trigger_content_is_ignored(
    session: SessionView,
    first: EventView,
    second: EventView,
)
    requires
        is_trigger(first),
        is_trigger(second),
    ensures
        step(session, first) == step(session, second),
{
}

/// As many times "nothing" as there are events.
pub open spec fn silence(count: nat) -> Seq<ReplyView> {
    Seq::new(count, |i: int| ReplyView::Nothing)
}

/// Once a session is closed, it stays closed and nothing is sent, whatever
/// arrives.
pub proof fn law_closed_sessions_are_silent(session: SessionView, events: Seq<EventView>)
    requires
        session.closed,
    ensures
        replies(session, events) == silence(events.len()),
        state_after(session, events) == session,
    decreases events.len(),
{
    if events.len() > 0 {
        let rest = events.drop_first();
        law_closed_sessions_are_silent(session, rest);
        assert(seq![ReplyView::Nothing] + silence(rest.len()) =~= silence(events.len()));
    } else {
        assert(replies(session, events) =~= silence(0));
    }
}

/// After the peer's close frame nothing is sent on the connection any more,
/// not even for further triggers, and the session stays closed.
pub proof fn law_close_is_terminal(session: SessionView, later: Seq<EventView>)
    ensures
        step(session, EventView::Close).1 == ReplyView::Nothing,
        replies(step(session, EventView::Close).0, later) == silence(later.len()),
        state_after(step(session, EventView::Close).0, later).closed,
{
    law_closed_sessions_are_silent(step(session, EventView::Close).0, later);
}

/// While events arrive on many connections in any interleaving, the replies
/// on one connection are those that its own events would get alone. What
/// arrives on the other connections changes nothing.
pub proof fn law_connections_are_isolated(
    sessions: Map<nat, SessionView>,
    arrivals: Seq<(nat, EventView)>,
    connection: nat,
)
    ensures
        replies_on(sessions, arrivals, connection) == replies(
            sessions[connection],
            events_on(arrivals, connection),
        ),
    decreases arrivals.len(),
{
    if arrivals.len() > 0 {
        let (target, event) = arrivals.first();
        let next = step(sessions[target], event).0;
        let rest = arrivals.drop_first();
        law_connections_are_isolated(sessions.insert(target, next), rest, connection);
        if target == connection {
            let own = events_on(arrivals, connection);
            assert(own.first() == event);
            assert(own.drop_first() =~= events_on(rest, connection));
        }
    }
}

/// A client that connects to a server and sends as many triggers as there
/// are payloads receives the whole configured sequence, from its first entry
/// on, however its triggers are interleaved with the events of other
/// connections. This holds of each of two clients connected at once.
pub proof fn law_each_client_gets_the_full_sequence(
    responses: Seq<Value>,
    sessions: Map<nat, SessionView>,
    arrivals: Seq<(nat, EventView)>,
    connection: nat,
)
    requires
        sessions[connection] == fresh(responses),
        all_triggers(events_on(arrivals, connection)),
        events_on(arrivals, connection).len() == responses.len(),
    ensures
        replies_on(sessions, arrivals, connection) == responses.map_values(
            |payload: Value| ReplyView::Text(json_text(payload)),
        ),
{
    law_connections_are_isolated(sessions, arrivals, connection);
    law_replies_in_configured_order(responses, events_on(arrivals, connection));
}

} // verus!
