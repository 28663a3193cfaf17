use memthol::from_client::{CloseData, FromClient, SessionError};
use memthol::socket::{close_text, Action, Event, Handler, Incoming, Phase, Step, FRAME_SPAN_MS};

fn bye() -> CloseData {
    CloseData { status_code: 1000, reason: String::from("bye") }
}

fn streaming(now: u64) -> Handler<String> {
    let mut handler: Handler<String> = Handler::new(now);
    assert_eq!(handler.run(now, Event::Started), Action::Render { is_init: true });
    assert_eq!(handler.run(now, Event::Sent), Action::Receive);
    handler
}

fn message(text: &str) -> Event<String> {
    Event::Incoming(Incoming::Message(String::from(text)))
}

#[test]
fn session_starts_with_a_full_snapshot() {
    let mut handler: Handler<String> = Handler::new(5);
    assert_eq!(handler.phase(), Phase::Init);
    assert_eq!(handler.step(), Step::Idle);
    assert_eq!(handler.frame_span(), 1000);
    assert_eq!(FRAME_SPAN_MS, 1000);
    assert_eq!(handler.last_frame(), 5);
    assert_eq!(handler.init(7), Action::Render { is_init: true });
    assert_eq!(handler.phase(), Phase::Init);
    assert_eq!(handler.step(), Step::Opening);
    assert_eq!(handler.run(9, Event::Sent), Action::Receive);
    assert_eq!(handler.phase(), Phase::Streaming);
    assert_eq!(handler.last_frame(), 9);
}

#[test]
fn failed_first_send_ends_the_session() {
    let mut handler: Handler<String> = Handler::new(0);
    handler.init(0);
    assert_eq!(handler.run(1, Event::SendFailed), Action::Fail(SessionError::SendFailed));
    assert_eq!(handler.phase(), Phase::Closed);
    assert_eq!(handler.run(2, Event::Sent), Action::Fail(SessionError::Closed));
}

#[test]
fn failed_render_ends_the_session() {
    let mut handler: Handler<String> = Handler::new(0);
    handler.init(0);
    assert_eq!(handler.run(1, Event::RenderFailed), Action::Fail(SessionError::RenderFailed));
    assert_eq!(handler.step(), Step::Closed);
}

#[test]
fn close_frame_ends_the_session_without_an_error() {
    let mut handler = streaming(0);
    assert_eq!(handler.run(10, message("filter")), Action::Receive);
    let action = handler.run(20, Event::Incoming(Incoming::Close(Some(bye()))));
    assert_eq!(action, Action::Close(Some(bye())));
    assert_eq!(handler.phase(), Phase::Closed);
    assert!(handler.from_client().is_closed());
    assert_eq!(handler.from_client().close_data(), Some(&bye()));
    assert_eq!(handler.close_reason(), "status code `1000`: bye");
    assert_eq!(handler.run(30, Event::Woke), Action::Fail(SessionError::Closed));
    assert_eq!(handler.run(30, Event::Started), Action::Fail(SessionError::Closed));
    assert_eq!(handler.from_client().close_data(), Some(&bye()));
}

#[test]
fn close_frame_without_data() {
    let mut handler = streaming(0);
    assert_eq!(handler.receive_messages(3, Incoming::Close(None)), Action::Close(None));
    assert_eq!(handler.phase(), Phase::Closed);
    assert!(handler.from_client().is_closed());
    assert_eq!(handler.from_client().close_data(), None);
    assert_eq!(handler.close_reason(), "no information");
}

#[test]
fn close_text_formats() {
    assert_eq!(close_text(Some(&bye())), "status code `1000`: bye");
    assert_eq!(
        close_text(Some(&CloseData { status_code: 0, reason: String::new() })),
        "status code `0`: "
    );
    assert_eq!(close_text(None), "no information");
}

#[test]
fn messages_are_applied_in_arrival_order() {
    let mut handler = streaming(0);
    assert_eq!(handler.run(1, message("a")), Action::Receive);
    assert_eq!(handler.run(2, message("b")), Action::Receive);
    assert_eq!(handler.run(3, message("c")), Action::Receive);
    assert_eq!(handler.from_client().len(), 3);
    assert_eq!(
        handler.run(4, Event::Incoming(Incoming::Pong)),
        Action::Apply(vec![String::from("a"), String::from("b"), String::from("c")])
    );
    assert_eq!(handler.from_client().len(), 0);
    assert_eq!(handler.step(), Step::Applying);
}

#[test]
fn nothing_to_read_ends_the_reading() {
    let mut handler = streaming(0);
    assert_eq!(handler.run(1, message("a")), Action::Receive);
    assert_eq!(
        handler.run(2, Event::Incoming(Incoming::Nothing)),
        Action::Apply(vec![String::from("a")])
    );
    assert_eq!(handler.run(1000, Event::Applied), Action::Render { is_init: false });
    assert_eq!(handler.run(1001, Event::Sent), Action::Receive);
    assert_eq!(handler.run(1002, Event::Incoming(Incoming::Nothing)), Action::Apply(vec![]));
}

#[test]
fn ping_is_a_protocol_violation() {
    let mut handler = streaming(0);
    assert_eq!(
        handler.run(1, Event::Incoming(Incoming::Ping(vec![1, 2]))),
        Action::Fail(SessionError::UnexpectedPing)
    );
    assert_eq!(handler.phase(), Phase::Closed);
    assert!(!handler.from_client().is_closed());
}

#[test]
fn malformed_message_is_fatal() {
    let mut handler = streaming(0);
    assert_eq!(handler.run(1, message("a")), Action::Receive);
    assert_eq!(
        handler.run(2, Event::Incoming(Incoming::Malformed)),
        Action::Fail(SessionError::Malformed)
    );
    assert_eq!(handler.phase(), Phase::Closed);
}

#[test]
fn broken_read_is_fatal() {
    let mut handler = streaming(0);
    assert_eq!(
        handler.run(2, Event::Incoming(Incoming::Broken)),
        Action::Fail(SessionError::ReceiveFailed)
    );
    assert_eq!(handler.phase(), Phase::Closed);
}

#[test]
fn failed_apply_is_fatal() {
    let mut handler = streaming(0);
    handler.run(1, Event::Incoming(Incoming::Pong));
    assert_eq!(handler.run(2, Event::ApplyFailed), Action::Fail(SessionError::ApplyFailed));
    assert_eq!(handler.phase(), Phase::Closed);
}

#[test]
fn events_out_of_turn_are_fatal() {
    let mut idle: Handler<String> = Handler::new(0);
    assert_eq!(idle.run(0, Event::Sent), Action::Fail(SessionError::OutOfTurn));
    assert_eq!(idle.phase(), Phase::Closed);
    let mut draining = streaming(0);
    assert_eq!(draining.run(1, Event::Applied), Action::Fail(SessionError::OutOfTurn));
    let mut opening: Handler<String> = Handler::new(0);
    opening.init(0);
    assert_eq!(opening.run(1, message("a")), Action::Fail(SessionError::OutOfTurn));
    let mut twice: Handler<String> = Handler::new(0);
    twice.init(0);
    assert_eq!(twice.init(1), Action::Fail(SessionError::OutOfTurn));
}

#[test]
fn update_waits_for_the_frame_span() {
    let mut handler = streaming(100);
    assert_eq!(handler.run(110, Event::Incoming(Incoming::Nothing)), Action::Apply(vec![]));
    assert_eq!(handler.run(120, Event::Applied), Action::Sleep(980));
    assert_eq!(handler.step(), Step::Waiting);
    assert_eq!(handler.wait(), 980);
    assert_eq!(handler.run(900, Event::Woke), Action::Sleep(200));
    assert_eq!(handler.run(1099, Event::Woke), Action::Sleep(1));
    assert_eq!(handler.run(1100, Event::Woke), Action::Render { is_init: false });
    assert_eq!(handler.step(), Step::Rendering);
    assert_eq!(handler.last_frame(), 100);
    assert_eq!(handler.run(1105, Event::Sent), Action::Receive);
    assert_eq!(handler.last_frame(), 1105);
}

#[test]
fn update_that_is_due_is_sent_at_once() {
    let mut handler = streaming(0);
    handler.run(1, Event::Incoming(Incoming::Pong));
    assert_eq!(handler.run(5000, Event::Applied), Action::Render { is_init: false });
    assert_eq!(handler.wait(), 0);
}

#[test]
fn clock_never_runs_backwards() {
    let mut handler = streaming(500);
    handler.run(400, Event::Incoming(Incoming::Pong));
    assert_eq!(handler.run(0, Event::Applied), Action::Sleep(1000));
    assert_eq!(handler.run(1499, Event::Woke), Action::Sleep(1));
    assert_eq!(handler.run(1500, Event::Woke), Action::Render { is_init: false });
    assert_eq!(handler.run(3, Event::Sent), Action::Receive);
    assert_eq!(handler.last_frame(), 1500);
}

#[test]
fn idle_client_gets_updates_a_frame_span_apart() {
    let mut handler = streaming(0);
    let mut now: u64 = 0;
    let mut sent: Vec<u64> = vec![0];
    while sent.len() < 6 {
        now += 7;
        assert_eq!(handler.run(now, Event::Incoming(Incoming::Nothing)), Action::Apply(vec![]));
        now += 3;
        let mut action = handler.run(now, Event::Applied);
        while let Action::Sleep(millis) = action {
            now += millis;
            action = handler.run(now, Event::Woke);
        }
        assert_eq!(action, Action::Render { is_init: false });
        now += 2;
        assert_eq!(handler.run(now, Event::Sent), Action::Receive);
        sent.push(now);
    }
    for pair in sent.windows(2) {
        assert!(pair[1] - pair[0] >= FRAME_SPAN_MS);
    }
    assert_eq!(sent, vec![0, 1002, 2004, 3006, 4008, 5010]);
}

#[test]
fn buffer_refuses_messages_after_close() {
    let mut buffer: FromClient<u8> = FromClient::new();
    assert!(!buffer.is_closed());
    assert_eq!(buffer.set_close_data(Some(bye())), Err(SessionError::NotClosed));
    assert_eq!(buffer.push(1), Ok(()));
    assert_eq!(buffer.push(2), Ok(()));
    assert_eq!(buffer.close(), Ok(()));
    assert_eq!(buffer.close(), Err(SessionError::Closed));
    assert_eq!(buffer.push(3), Err(SessionError::Closed));
    assert_eq!(buffer.len(), 2);
    assert_eq!(buffer.set_close_data(Some(bye())), Ok(()));
    assert_eq!(buffer.close_data(), Some(&bye()));
    assert_eq!(buffer.drain(), vec![1, 2]);
    assert_eq!(buffer.len(), 0);
    assert!(buffer.is_closed());
    assert_eq!(bye().duplicate(), bye());
}
