use rss_chat::actor::{MessageOrigin, ServerState, ServerStateMessage};
use rss_chat::connection::{
    is_heartbeat, Reader, ReaderStep, Writer, WriterEvent, WriterStep, CHANNEL_CAPACITY,
    HEARTBEAT_INTERVAL_MS, HEARTBEAT_MAX_INTERVAL, TYPING_TIME_MS,
};
use rss_chat::socket::{ClientMessage, Heartbeat, ServerMessage, UserMessage, VisibilityState};

fn init(name: &str) -> Option<ClientMessage> {
    Some(ClientMessage::InitMessage { name: name.to_string() })
}

fn left(name: &str) -> Option<ServerStateMessage> {
    Some(ServerStateMessage::UserDisconnected { name: name.to_string() })
}

fn bound(name: &str) -> Reader {
    let mut reader = Reader::new();
    assert_eq!(
        reader.on_decoded(init(name)),
        ReaderStep::Forward(ServerStateMessage::UserJoined { name: name.to_string() })
    );
    reader
}

fn hello(sender: &str) -> UserMessage {
    UserMessage {
        send_time: 1_700_000_000_000,
        sender: sender.to_string(),
        message: "hello".to_string(),
        reply_to: None,
        id: 0,
    }
}

#[test]
fn the_limits_are_as_agreed() {
    assert_eq!(HEARTBEAT_MAX_INTERVAL, 5_000_000_000);
    assert_eq!(HEARTBEAT_INTERVAL_MS, 2000);
    assert_eq!(TYPING_TIME_MS, 1500);
    assert_eq!(CHANNEL_CAPACITY, 8);
}

#[test]
fn the_heartbeat_is_one_literal() {
    assert!(is_heartbeat("<Heartbeat>"));
    assert!(!is_heartbeat("<heartbeat>"));
    assert!(!is_heartbeat("<Heartbeat> "));
    assert!(!is_heartbeat(""));
    assert_eq!(Heartbeat.to_string(), "<Heartbeat>");
    assert!(is_heartbeat(&Heartbeat::default().to_string()));
}

#[test]
fn a_fresh_reader_has_no_name() {
    let reader = Reader::new();
    assert_eq!(reader.name(), None);
    assert!(!reader.is_closed());
}

#[test]
fn a_heartbeat_is_noted_before_a_name_is_bound() {
    let mut reader = Reader::new();
    assert_eq!(reader.on_frame(Some("<Heartbeat>"), 0), ReaderStep::Heartbeat);
    assert_eq!(reader.on_frame(Some("<Heartbeat>"), 60_000_000_000), ReaderStep::Heartbeat);
    assert!(!reader.is_closed());
    assert_eq!(reader.name(), None);
}

#[test]
fn staleness_is_not_judged_before_a_name_is_bound() {
    let mut reader = Reader::new();
    assert_eq!(reader.on_frame(None, 60_000_000_000), ReaderStep::Decode);
    assert_eq!(
        reader.on_decoded(init("alice")),
        ReaderStep::Forward(ServerStateMessage::UserJoined { name: "alice".to_string() })
    );
    assert_eq!(reader.name(), Some("alice".to_string()));
}

#[test]
fn anything_but_the_initial_message_closes_a_fresh_connection() {
    let mut reader = Reader::new();
    assert_eq!(reader.on_decoded(Some(ClientMessage::Typed)), ReaderStep::Close(None));
    assert!(reader.is_closed());
    let mut reader = Reader::new();
    assert_eq!(reader.on_decoded(None), ReaderStep::Close(None));
    assert!(reader.is_closed());
    let mut reader = Reader::new();
    assert_eq!(
        reader.on_decoded(Some(ClientMessage::SendMessage { message: hello("alice") })),
        ReaderStep::Close(None)
    );
    assert!(reader.is_closed());
}

#[test]
fn a_bound_connection_forwards_in_its_name() {
    let mut reader = bound("alice");
    assert_eq!(reader.on_frame(Some("not a heartbeat"), 1_000_000_000), ReaderStep::Decode);
    assert_eq!(
        reader.on_decoded(Some(ClientMessage::Typed)),
        ReaderStep::Forward(ServerStateMessage::UserTyped { name: "alice".to_string() })
    );
    assert_eq!(
        reader.on_decoded(Some(ClientMessage::ReadMessages { earliest: 5 })),
        ReaderStep::Forward(ServerStateMessage::UserReadMessages {
            user: "alice".to_string(),
            earliest: 5,
        })
    );
    assert_eq!(
        reader.on_decoded(Some(ClientMessage::VisibilityUpdate(VisibilityState::Visible))),
        ReaderStep::Forward(ServerStateMessage::VisibilityChanged {
            name: "alice".to_string(),
            visible: true,
        })
    );
    assert_eq!(
        reader.on_decoded(Some(ClientMessage::VisibilityUpdate(VisibilityState::Hidden))),
        ReaderStep::Forward(ServerStateMessage::VisibilityChanged {
            name: "alice".to_string(),
            visible: false,
        })
    );
    assert_eq!(
        reader.on_decoded(Some(ClientMessage::SendMessage { message: hello("alice") })),
        ReaderStep::Forward(ServerStateMessage::NewMessage {
            message: hello("alice"),
            origin: MessageOrigin::Client,
        })
    );
    assert_eq!(reader.name(), Some("alice".to_string()));
}

#[test]
fn a_stale_connection_is_closed_when_a_frame_arrives() {
    let mut reader = bound("alice");
    assert_eq!(reader.on_frame(None, 5_000_000_000), ReaderStep::Decode);
    assert_eq!(reader.on_frame(None, 5_000_000_001), ReaderStep::Close(left("alice")));
    assert!(reader.is_closed());
}

#[test]
fn a_late_heartbeat_still_counts() {
    let mut reader = bound("alice");
    assert_eq!(reader.on_frame(Some("<Heartbeat>"), 9_000_000_000), ReaderStep::Heartbeat);
    assert!(!reader.is_closed());
    assert_eq!(reader.on_frame(None, 0), ReaderStep::Decode);
}

#[test]
fn a_frame_that_does_not_decode_closes_the_connection() {
    let mut reader = bound("alice");
    assert_eq!(reader.on_decoded(None), ReaderStep::Close(left("alice")));
    assert!(reader.is_closed());
}

#[test]
fn a_second_initial_message_closes_the_connection() {
    let mut reader = bound("alice");
    assert_eq!(reader.on_decoded(init("mallory")), ReaderStep::Close(left("alice")));
    assert!(reader.is_closed());
}

#[test]
fn the_leave_is_sent_once() {
    let mut reader = bound("alice");
    assert_eq!(reader.on_disconnect(), left("alice"));
    assert_eq!(reader.on_disconnect(), None);
    assert_eq!(reader.on_frame(None, 0), ReaderStep::Close(None));
    assert_eq!(reader.on_frame(Some("<Heartbeat>"), 0), ReaderStep::Close(None));
    assert_eq!(reader.on_decoded(Some(ClientMessage::Typed)), ReaderStep::Close(None));
    assert_eq!(reader.on_decoded(init("alice")), ReaderStep::Close(None));
    assert_eq!(reader.name(), None);
}

#[test]
fn a_connection_that_never_had_a_name_owes_no_leave() {
    let mut reader = Reader::new();
    assert_eq!(reader.on_disconnect(), None);
    assert!(reader.is_closed());
}

#[test]
fn a_join_that_was_not_taken_owes_no_leave() {
    let mut reader = bound("alice");
    reader.on_join_failed();
    assert!(reader.is_closed());
    assert_eq!(reader.on_disconnect(), None);
}

#[test]
fn the_writer_sends_until_the_client_is_gone() {
    let mut writer = Writer::new();
    assert!(!writer.is_stopped());
    assert_eq!(writer.on_event(WriterEvent::Received), WriterStep::Send);
    assert_eq!(writer.on_event(WriterEvent::Sent), WriterStep::Wait);
    assert_eq!(writer.on_event(WriterEvent::Received), WriterStep::Send);
    assert_eq!(writer.on_event(WriterEvent::EncodeFailed), WriterStep::Wait);
    assert!(!writer.is_stopped());
    assert_eq!(writer.on_event(WriterEvent::Received), WriterStep::Send);
    assert_eq!(writer.on_event(WriterEvent::SendFailed), WriterStep::Stop);
    assert!(writer.is_stopped());
    assert_eq!(writer.on_event(WriterEvent::Received), WriterStep::Stop);
}

#[test]
fn the_writer_forwards_a_whole_run() {
    let mut writer = Writer::new();
    let mut sends = 0;
    for round in 0..50 {
        assert_eq!(writer.on_event(WriterEvent::Received), WriterStep::Send);
        sends += 1;
        let result = if round % 7 == 0 { WriterEvent::EncodeFailed } else { WriterEvent::Sent };
        assert_eq!(writer.on_event(result), WriterStep::Wait);
    }
    assert_eq!(sends, 50);
    assert!(!writer.is_stopped());
}

#[test]
fn a_stopped_writer_sends_nothing_more() {
    let mut writer = Writer::new();
    assert_eq!(writer.on_event(WriterEvent::Received), WriterStep::Send);
    assert_eq!(writer.on_event(WriterEvent::SendFailed), WriterStep::Stop);
    for event in [
        WriterEvent::Received,
        WriterEvent::Sent,
        WriterEvent::EncodeFailed,
        WriterEvent::Lagged,
        WriterEvent::StreamClosed,
        WriterEvent::SendFailed,
    ] {
        assert_eq!(writer.on_event(event), WriterStep::Stop);
        assert!(writer.is_stopped());
    }
}

#[test]
fn the_writer_stops_when_it_lags() {
    let mut writer = Writer::new();
    assert_eq!(writer.on_event(WriterEvent::Lagged), WriterStep::Stop);
    assert!(writer.is_stopped());
    let mut writer = Writer::new();
    assert_eq!(writer.on_event(WriterEvent::StreamClosed), WriterStep::Stop);
    assert!(writer.is_stopped());
}

#[test]
fn a_client_joins_and_says_hello() {
    let mut state = ServerState::new();
    let mut reader = Reader::new();
    let mut events: Vec<ServerMessage> = Vec::new();

    assert_eq!(reader.on_frame(None, 0), ReaderStep::Decode);
    let frames = vec![
        ClientMessage::InitMessage { name: "alice".to_string() },
        ClientMessage::SendMessage { message: hello("alice") },
    ];
    for frame in frames {
        assert_eq!(reader.on_frame(None, 0), ReaderStep::Decode);
        match reader.on_decoded(Some(frame)) {
            ReaderStep::Forward(request) => {
                if let Some(event) = state.handle(request).broadcast {
                    events.push(event);
                }
            }
            other => panic!("the reader did not forward: {:?}", other),
        }
    }
    assert_eq!(
        events,
        vec![
            ServerMessage::OnlineUsersUpdate { users: vec!["alice".to_string()] },
            ServerMessage::MessageSent {
                message: UserMessage {
                    send_time: 1_700_000_000_000,
                    sender: "alice".to_string(),
                    message: "<p>hello</p>".to_string(),
                    reply_to: None,
                    id: 0,
                },
            },
        ]
    );
}
