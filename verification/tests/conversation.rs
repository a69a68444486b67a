use serde_json::{Number, Value};
use surimi::{Event, MockServer, Reply, Session};

fn hello(place: &str) -> Value {
    let mut fields = serde_json::Map::new();
    fields.insert("hello".to_string(), Value::String(place.to_string()));
    Value::Object(fields)
}

fn trigger() -> Event {
    Event::Text(String::from("Trigger mocked server reply"))
}

fn text(reply: Reply) -> String {
    match reply {
        Reply::Text(text) => text,
        other => panic!("expected a text reply, got {:?}", other),
    }
}

#[test]
fn connect() {
    let server = MockServer::default();
    let (host, port) = server.resolved_address(49152);

    assert_eq!(host, "localhost");
    assert_ne!(port, 0);

    let mut session = server.session();
    assert!(!session.is_closed());
    assert_eq!(session.on_event(Event::Close), Reply::Nothing);
    assert!(session.is_closed());
}

#[test]
fn should_answer_pong() {
    let mut session = MockServer::default().session();

    let response = session.on_event(Event::Ping("Some request".into()));
    assert_eq!(
        response,
        Reply::Pong("Some request".into()),
        "should answer with pong"
    );

    assert_eq!(session.on_event(Event::Close), Reply::Nothing);
}

#[test]
fn should_wait_for_close_message() {
    let mut session = MockServer::default().session();

    for _ in 0..10 {
        let response = session.on_event(Event::Text("Some request".into()));
        assert_eq!(response, Reply::Text("No more response".into()),);
        assert!(!session.is_closed());
    }

    assert_eq!(session.on_event(Event::Close), Reply::Nothing);
    assert!(session.is_closed());
}

#[test]
fn connect_and_answer() {
    let mocked_responses = vec![hello("world"), hello("france"), hello("montpellier")];

    let server = MockServer::default().responses(mocked_responses.clone());
    let (host, port) = server.resolved_address(50000);

    assert_eq!(host, "localhost");
    assert_ne!(port, 0);

    let mut session = server.session();

    for m_response in mocked_responses {
        let reply = text(session.on_event(trigger()));
        let response: Value = serde_json::from_str(&reply).unwrap();

        assert_eq!(response, m_response);
        assert_eq!(response["hello"], m_response["hello"]);
    }

    assert_eq!(session.on_event(Event::Close), Reply::Nothing);
}

#[test]
fn two_payloads_then_the_fixed_text() {
    let server = MockServer::default().responses(vec![hello("world"), hello("france")]);
    let mut session = server.session();

    assert_eq!(
        session.on_event(Event::Text("one".into())),
        Reply::Text("{\"hello\":\"world\"}".into())
    );
    assert_eq!(
        session.on_event(Event::Text("two".into())),
        Reply::Text("{\"hello\":\"france\"}".into())
    );
    assert_eq!(
        session.on_event(Event::Text("three".into())),
        Reply::Text("No more response".into())
    );
}

#[test]
fn payloads_are_sent_in_configured_order() {
    let mut fields = serde_json::Map::new();
    fields.insert("b".to_string(), Value::Bool(true));
    fields.insert("a".to_string(), Value::Null);
    let payloads = vec![
        Value::Number(Number::from(3)),
        Value::Array(vec![Value::Number(Number::from(1)), Value::String("two".into())]),
        Value::Object(fields),
        Value::String("last \"one\"".into()),
        Value::Number(Number::from(-7)),
    ];
    let mut session = MockServer::default().responses(payloads).session();

    let expected = ["3", "[1,\"two\"]", "{\"a\":null,\"b\":true}", "\"last \\\"one\\\"\"", "-7"];
    for want in expected {
        assert_eq!(session.on_event(trigger()), Reply::Text(want.to_string()));
    }
    assert_eq!(session.remaining(), 0);
}

#[test]
fn every_excess_trigger_gets_the_fixed_text() {
    let mut session = MockServer::default().responses(vec![hello("world")]).session();

    assert_eq!(text(session.on_event(trigger())), "{\"hello\":\"world\"}");
    for _ in 0..25 {
        assert_eq!(session.on_event(trigger()), Reply::Text("No more response".into()));
        assert_eq!(session.remaining(), 0);
        assert!(!session.is_closed());
    }
}

#[test]
fn fewer_triggers_than_payloads_leave_the_rest() {
    let payloads = vec![hello("a"), hello("b"), hello("c"), hello("d")];
    let mut session = MockServer::default().responses(payloads).session();
    assert_eq!(session.remaining(), 4);

    assert_eq!(text(session.on_event(trigger())), "{\"hello\":\"a\"}");
    assert_eq!(text(session.on_event(trigger())), "{\"hello\":\"b\"}");
    assert_eq!(session.remaining(), 2);

    assert_eq!(text(session.on_event(trigger())), "{\"hello\":\"c\"}");
    assert_eq!(session.remaining(), 1);
}

#[test]
fn binary_messages_are_triggers_too() {
    let mut session = MockServer::default()
        .responses(vec![hello("world"), hello("france")])
        .session();

    assert_eq!(
        session.on_event(Event::Binary(vec![0, 159, 146, 150])),
        Reply::Text("{\"hello\":\"world\"}".into())
    );
    assert_eq!(
        session.on_event(Event::Binary(Vec::new())),
        Reply::Text("{\"hello\":\"france\"}".into())
    );
    assert_eq!(
        session.on_event(Event::Binary(vec![1])),
        Reply::Text("No more response".into())
    );
}

#[test]
fn a_trigger_is_answered_whatever_it_says() {
    let server = MockServer::default().responses(vec![hello("world")]);
    let contents = ["", "hello", "{\"hello\":\"france\"}", "No more response"];
    for content in contents {
        let mut session = server.session();
        assert_eq!(
            session.on_event(Event::Text(content.to_string())),
            Reply::Text("{\"hello\":\"world\"}".into())
        );
    }
}

#[test]
fn a_ping_does_not_use_up_a_payload() {
    let mut session = MockServer::default()
        .responses(vec![hello("world"), hello("france")])
        .session();

    assert_eq!(session.on_event(Event::Ping(b"X".to_vec())), Reply::Pong(b"X".to_vec()));
    assert_eq!(session.remaining(), 2);
    assert_eq!(text(session.on_event(trigger())), "{\"hello\":\"world\"}");

    assert_eq!(session.on_event(Event::Ping(Vec::new())), Reply::Pong(Vec::new()));
    assert_eq!(session.on_event(Event::Ping(vec![0, 255, 7])), Reply::Pong(vec![0, 255, 7]));
    assert_eq!(session.remaining(), 1);
    assert_eq!(text(session.on_event(trigger())), "{\"hello\":\"france\"}");
}

#[test]
fn a_pong_is_ignored() {
    let mut session = MockServer::default().responses(vec![hello("world")]).session();

    assert_eq!(session.on_event(Event::Pong(b"late".to_vec())), Reply::Nothing);
    assert_eq!(session.remaining(), 1);
    assert!(!session.is_closed());
    assert_eq!(text(session.on_event(trigger())), "{\"hello\":\"world\"}");
}

#[test]
fn nothing_is_sent_after_close() {
    let mut session = MockServer::default()
        .responses(vec![hello("world"), hello("france")])
        .session();

    assert_eq!(text(session.on_event(trigger())), "{\"hello\":\"world\"}");
    assert_eq!(session.on_event(Event::Close), Reply::Nothing);
    assert!(session.is_closed());

    assert_eq!(session.on_event(trigger()), Reply::Nothing);
    assert_eq!(session.on_event(Event::Binary(vec![1, 2])), Reply::Nothing);
    assert_eq!(session.on_event(Event::Ping(b"X".to_vec())), Reply::Nothing);
    assert_eq!(session.on_event(Event::Pong(b"X".to_vec())), Reply::Nothing);
    assert_eq!(session.on_event(Event::Close), Reply::Nothing);
    assert_eq!(session.on_event(Event::TransportError), Reply::Nothing);
    assert!(session.is_closed());
    assert_eq!(session.remaining(), 1);
}

#[test]
fn a_transport_error_ends_the_session() {
    let mut session = MockServer::default().responses(vec![hello("world")]).session();

    assert_eq!(session.on_event(Event::TransportError), Reply::Nothing);
    assert!(session.is_closed());
    assert_eq!(session.on_event(trigger()), Reply::Nothing);
}

#[test]
fn two_clients_each_get_the_full_sequence() {
    let server = MockServer::default().responses(vec![hello("world"), hello("france")]);
    let mut first = server.session();
    let mut second = server.session();

    assert_eq!(text(first.on_event(trigger())), "{\"hello\":\"world\"}");
    assert_eq!(text(second.on_event(trigger())), "{\"hello\":\"world\"}");
    assert_eq!(text(second.on_event(trigger())), "{\"hello\":\"france\"}");
    assert_eq!(text(second.on_event(trigger())), "No more response");
    assert_eq!(text(first.on_event(trigger())), "{\"hello\":\"france\"}");
    assert_eq!(text(first.on_event(trigger())), "No more response");

    let mut third = server.session();
    assert_eq!(third.remaining(), 2);
    assert_eq!(text(third.on_event(trigger())), "{\"hello\":\"world\"}");
}

#[test]
fn closing_one_client_leaves_the_other_open() {
    let server = MockServer::default().responses(vec![hello("world")]);
    let mut first = server.session();
    let mut second = server.session();

    assert_eq!(first.on_event(Event::Close), Reply::Nothing);
    assert!(first.is_closed());
    assert!(!second.is_closed());
    assert_eq!(text(second.on_event(trigger())), "{\"hello\":\"world\"}");
}

#[test]
fn a_batch_is_answered_event_by_event() {
    let server = MockServer::default().responses(vec![hello("world"), hello("france")]);

    let mut session = server.session();
    let sent = session.on_events(vec![
        Event::Ping(b"X".to_vec()),
        Event::Text("one".into()),
        Event::Pong(Vec::new()),
        Event::Binary(vec![2]),
        Event::Text("three".into()),
        Event::Close,
        Event::Text("four".into()),
    ]);

    assert_eq!(
        sent,
        vec![
            Reply::Pong(b"X".to_vec()),
            Reply::Text("{\"hello\":\"world\"}".into()),
            Reply::Nothing,
            Reply::Text("{\"hello\":\"france\"}".into()),
            Reply::Text("No more response".into()),
            Reply::Nothing,
            Reply::Nothing,
        ]
    );
    assert!(session.is_closed());

    let mut idle = server.session();
    assert_eq!(idle.on_events(Vec::new()), Vec::new());
    assert_eq!(idle.remaining(), 2);
    assert!(!idle.is_closed());
}

#[test]
fn a_session_can_be_made_from_payloads_alone() {
    let mut session = Session::new(vec![Value::Bool(false)]);
    assert_eq!(session.remaining(), 1);
    assert!(!session.is_closed());
    assert_eq!(text(session.on_event(trigger())), "false");
    assert_eq!(text(session.on_event(trigger())), "No more response");
}

#[test]
fn the_reply_to_a_trigger_is_the_next_text_or_the_fixed_one() {
    assert_eq!(Reply::scripted(Some("{}".to_string())), Reply::Text("{}".to_string()));
    assert_eq!(Reply::scripted(Some(String::new())), Reply::Text(String::new()));
    assert_eq!(Reply::scripted(None), Reply::Text("No more response".to_string()));
}
