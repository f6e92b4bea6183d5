use obt_server::ws::{react, CloseReason, ConnectionState, Frame, Heartbeat, Item, Message};

#[test]
fn ping_yields_exactly_one_pong_with_the_same_payload() {
    let mut connection = Heartbeat::new();
    let reaction = connection.on_frame(Frame::Ping(b"abc".to_vec()));
    match reaction.reply {
        Some(Message::Pong(payload)) => assert_eq!(payload, b"abc".to_vec()),
        other => panic!("expected a pong, got {:?}", other),
    }
    assert!(reaction.logged.is_none());
    assert_eq!(connection.state(), ConnectionState::Open);
}

#[test]
fn pong_yields_nothing() {
    let mut connection = Heartbeat::new();
    let reaction = connection.on_frame(Frame::Pong(b"abc".to_vec()));
    assert!(reaction.reply.is_none());
    assert!(reaction.logged.is_none());
    assert_eq!(connection.state(), ConnectionState::Open);
}

#[test]
fn close_without_reason_is_echoed_and_the_connection_closes() {
    let mut connection = Heartbeat::new();
    let reaction = connection.on_frame(Frame::Close(None));
    assert!(matches!(reaction.reply, Some(Message::Close(None))));
    assert_eq!(connection.state(), ConnectionState::Closing);
    assert!(connection.on_shutdown());
    assert_eq!(connection.state(), ConnectionState::Closed);
}

#[test]
fn close_reason_is_echoed_unchanged() {
    let mut connection = Heartbeat::new();
    let reason = CloseReason { code: 1001, description: Some("going away".to_string()) };
    let reaction = connection.on_frame(Frame::Close(Some(reason)));
    match reaction.reply {
        Some(Message::Close(Some(echoed))) => {
            assert_eq!(echoed.code, 1001);
            assert_eq!(echoed.description.as_deref(), Some("going away"));
        },
        other => panic!("expected a close, got {:?}", other),
    }
}

#[test]
fn data_frames_yield_no_reply_and_are_logged() {
    let mut connection = Heartbeat::new();
    let text = connection.on_frame(Frame::Text(b"hello".to_vec()));
    assert!(text.reply.is_none());
    assert_eq!(text.logged, Some(b"hello".to_vec()));
    let binary = connection.on_frame(Frame::Binary(vec![0, 255]));
    assert!(binary.reply.is_none());
    assert_eq!(binary.logged, Some(vec![0, 255]));
    assert_eq!(connection.state(), ConnectionState::Open);
}

#[test]
fn continuation_frames_are_ignored() {
    let reaction = react(Frame::Continuation(Item::FirstText(b"part".to_vec())));
    assert!(reaction.reply.is_none());
    assert!(reaction.logged.is_none());
}

#[test]
fn shutdown_is_reported_exactly_once() {
    let mut connection = Heartbeat::new();
    assert!(connection.on_shutdown());
    assert_eq!(connection.state(), ConnectionState::Closed);
    assert!(!connection.on_shutdown());
    assert!(!connection.on_shutdown());
    assert_eq!(connection.state(), ConnectionState::Closed);
}

#[test]
fn nothing_is_answered_after_the_close() {
    let mut connection = Heartbeat::new();
    connection.on_frame(Frame::Close(None));
    let late = connection.on_frame(Frame::Ping(b"abc".to_vec()));
    assert!(late.reply.is_none());
    assert!(late.logged.is_none());
    assert_eq!(connection.state(), ConnectionState::Closing);
    connection.on_shutdown();
    let later = connection.on_frame(Frame::Close(None));
    assert!(later.reply.is_none());
    assert_eq!(connection.state(), ConnectionState::Closed);
}

#[test]
fn many_pings_each_get_their_own_pong() {
    let mut connection = Heartbeat::new();
    for i in 0u8..5 {
        let reaction = connection.on_frame(Frame::Ping(vec![i; 3]));
        match reaction.reply {
            Some(Message::Pong(payload)) => assert_eq!(payload, vec![i; 3]),
            other => panic!("expected a pong, got {:?}", other),
        }
    }
    assert_eq!(connection.state(), ConnectionState::Open);
}
