use rss_chat::socket::{
    ClientMessage, ConnectionReadyState, ConnectionState, ServerMessage, UserMessage,
    UserMessageClient, VisibilityState,
};

fn list(names: &[&str]) -> Vec<String> {
    names.iter().map(|n| n.to_string()).collect()
}

fn sent(id: u32, sender: &str, body: &str) -> ServerMessage {
    ServerMessage::MessageSent { message: message(id, sender, body) }
}

fn message(id: u32, sender: &str, body: &str) -> UserMessage {
    UserMessage {
        send_time: 1_700_000_000_000,
        sender: sender.to_string(),
        message: body.to_string(),
        reply_to: None,
        id,
    }
}

fn readers(state: &ConnectionState) -> Vec<Vec<String>> {
    state.messages().iter().map(|m| m.read_by.clone()).collect()
}

#[test]
fn a_new_client_has_heard_nothing() {
    let state = ConnectionState::new("alice".to_string());
    assert_eq!(state.ready(), ConnectionReadyState::Connecting);
    assert_eq!(state.message, None);
    assert!(state.messages().is_empty());
    assert!(state.typing().is_empty());
    assert!(state.online().is_empty());
    assert!(state.observing().is_empty());
    assert!(state.users().is_empty());
    assert_eq!(state.read_messages(), None);
}

#[test]
fn the_name_is_announced_each_time_the_connection_opens() {
    let mut state = ConnectionState::new("alice".to_string());
    let init = Some(ClientMessage::InitMessage { name: "alice".to_string() });
    assert_eq!(state.ready_changed(ConnectionReadyState::Connecting), None);
    assert_eq!(state.ready_changed(ConnectionReadyState::Open), init);
    assert_eq!(state.ready(), ConnectionReadyState::Open);
    assert_eq!(state.ready_changed(ConnectionReadyState::Open), None);
    assert_eq!(state.ready_changed(ConnectionReadyState::Closing), None);
    assert_eq!(state.ready_changed(ConnectionReadyState::Closed), None);
    assert_eq!(state.ready(), ConnectionReadyState::Closed);
    assert_eq!(state.ready_changed(ConnectionReadyState::Open), init);
}

#[test]
fn messages_are_kept_in_order() {
    let mut state = ConnectionState::new("alice".to_string());
    state.receive(sent(3, "bob", "<p>one</p>"));
    state.receive(sent(4, "carol", "<p>two</p>"));
    assert_eq!(
        state.messages(),
        &vec![
            UserMessageClient { message: message(3, "bob", "<p>one</p>"), read_by: Vec::new() },
            UserMessageClient { message: message(4, "carol", "<p>two</p>"), read_by: Vec::new() },
        ]
    );
    assert_eq!(state.message, Some(sent(4, "carol", "<p>two</p>")));
}

#[test]
fn typing_follows_the_start_and_stop_events() {
    let mut state = ConnectionState::new("alice".to_string());
    state.receive(ServerMessage::UserTyping { user: "bob".to_string() });
    state.receive(ServerMessage::UserTyping { user: "carol".to_string() });
    state.receive(ServerMessage::UserTyping { user: "bob".to_string() });
    assert_eq!(state.typing(), &list(&["bob", "carol"]));
    state.receive(ServerMessage::UserStoppedTyping { user: "bob".to_string() });
    assert_eq!(state.typing(), &list(&["carol"]));
    state.receive(ServerMessage::UserStoppedTyping { user: "dave".to_string() });
    assert_eq!(state.typing(), &list(&["carol"]));
}

#[test]
fn the_online_list_is_replaced_by_each_snapshot() {
    let mut state = ConnectionState::new("alice".to_string());
    state.receive(ServerMessage::OnlineUsersUpdate { users: list(&["alice", "bob"]) });
    assert_eq!(state.online(), &list(&["alice", "bob"]));
    state.receive(ServerMessage::OnlineUsersUpdate { users: list(&["carol"]) });
    assert_eq!(state.online(), &list(&["carol"]));
}

#[test]
fn observing_follows_the_visibility_events() {
    let mut state = ConnectionState::new("alice".to_string());
    state.receive(ServerMessage::UserObserving { user: "bob".to_string() });
    state.receive(ServerMessage::UserObserving { user: "bob".to_string() });
    assert_eq!(state.observing(), &list(&["bob"]));
    state.receive(ServerMessage::UserNotObserving { user: "bob".to_string() });
    assert!(state.observing().is_empty());
}

#[test]
fn a_receipt_marks_every_message_from_its_id_on() {
    let mut state = ConnectionState::new("alice".to_string());
    state.receive(sent(3, "bob", "a"));
    state.receive(sent(4, "bob", "b"));
    state.receive(sent(5, "bob", "c"));
    state.receive(ServerMessage::MessagesRead { by_user: "carol".to_string(), earliest: 4 });
    assert_eq!(readers(&state), vec![list(&[]), list(&["carol"]), list(&["carol"])]);
    state.receive(ServerMessage::MessagesRead { by_user: "dave".to_string(), earliest: 0 });
    state.receive(ServerMessage::MessagesRead { by_user: "carol".to_string(), earliest: 3 });
    assert_eq!(
        readers(&state),
        vec![list(&["dave", "carol"]), list(&["carol", "dave"]), list(&["carol", "dave"])]
    );
    state.receive(ServerMessage::MessagesRead { by_user: "erin".to_string(), earliest: 6 });
    assert_eq!(
        readers(&state),
        vec![list(&["dave", "carol"]), list(&["carol", "dave"]), list(&["carol", "dave"])]
    );
}

#[test]
fn users_are_listed_with_what_they_do() {
    let mut state = ConnectionState::new("alice".to_string());
    state.receive(ServerMessage::OnlineUsersUpdate { users: list(&["alice", "bob", "carol"]) });
    state.receive(ServerMessage::UserTyping { user: "bob".to_string() });
    state.receive(ServerMessage::UserObserving { user: "carol".to_string() });
    state.receive(ServerMessage::UserObserving { user: "alice".to_string() });
    state.receive(ServerMessage::UserTyping { user: "gone".to_string() });
    assert_eq!(
        state.users(),
        vec![
            ("alice".to_string(), false, true),
            ("bob".to_string(), true, false),
            ("carol".to_string(), false, true),
        ]
    );
    assert_eq!(
        state.others(),
        vec![("bob".to_string(), true, false), ("carol".to_string(), false, true)]
    );
}

#[test]
fn a_message_is_found_by_its_id() {
    let mut state = ConnectionState::new("alice".to_string());
    state.receive(sent(3, "bob", "a"));
    state.receive(sent(4, "bob", "b"));
    state.receive(sent(4, "carol", "again"));
    assert_eq!(state.find_message(4).map(|m| m.message.message.clone()), Some("b".to_string()));
    assert_eq!(state.find_message(3).map(|m| m.message.sender.clone()), Some("bob".to_string()));
    assert_eq!(state.find_message(9), None);
}

#[test]
fn readers_are_shown_without_the_viewer_and_the_sender() {
    let kept = UserMessageClient {
        message: message(1, "bob", "x"),
        read_by: list(&["alice", "bob", "carol", "dave"]),
    };
    assert_eq!(kept.readers_for("alice"), list(&["carol", "dave"]));
    assert_eq!(kept.readers_for("erin"), list(&["alice", "carol", "dave"]));
    assert_eq!(kept.readers_for("bob"), list(&["alice", "carol", "dave"]));
}

#[test]
fn a_new_message_goes_out_without_an_id() {
    let state = ConnectionState::new("alice".to_string());
    assert_eq!(
        state.send_message("alice".to_string(), "hi".to_string(), Some(7), 123),
        ClientMessage::SendMessage {
            message: UserMessage {
                send_time: 123,
                sender: "alice".to_string(),
                message: "hi".to_string(),
                reply_to: Some(7),
                id: 0,
            },
        }
    );
}

#[test]
fn the_receipt_names_the_oldest_message() {
    let mut state = ConnectionState::new("alice".to_string());
    state.receive(sent(3, "bob", "a"));
    state.receive(sent(9, "bob", "b"));
    assert_eq!(state.read_messages(), Some(ClientMessage::ReadMessages { earliest: 3 }));
}

#[test]
fn typing_and_visibility_are_sent_as_they_are() {
    let state = ConnectionState::new("alice".to_string());
    assert_eq!(state.type_(), ClientMessage::Typed);
    assert_eq!(
        state.update_visiblity(VisibilityState::Hidden),
        ClientMessage::VisibilityUpdate(VisibilityState::Hidden)
    );
    assert_eq!(
        state.update_visiblity(VisibilityState::from_visible(true)),
        ClientMessage::VisibilityUpdate(VisibilityState::Visible)
    );
    assert!(VisibilityState::Visible.is_visible());
    assert!(!VisibilityState::from_visible(false).is_visible());
}

#[test]
fn a_short_body_is_its_own_preview() {
    assert_eq!(message(0, "a", "hello").preview(), "hello");
    let forty = "0123456789012345678901234567890123456789";
    assert_eq!(message(0, "a", forty).preview(), forty);
    assert_eq!(message(0, "a", "").preview(), "");
}

#[test]
fn a_long_body_is_cut_to_a_preview() {
    let long = "0123456789012345678901234567890123456789x";
    assert_eq!(message(0, "a", long).preview(), "0123456789012345678901234567890123456...");
}

#[test]
fn a_preview_counts_bytes_and_cuts_characters() {
    let wide: String = std::iter::repeat('\u{e9}').take(21).collect();
    assert_eq!(wide.len(), 42);
    assert_eq!(message(0, "a", &wide).preview(), format!("{}...", wide));
    let wider: String = std::iter::repeat('\u{e9}').take(50).collect();
    let head: String = std::iter::repeat('\u{e9}').take(37).collect();
    assert_eq!(message(0, "a", &wider).preview(), format!("{}...", head));
    let twenty: String = std::iter::repeat('\u{e9}').take(20).collect();
    assert_eq!(message(0, "a", &twenty).preview(), twenty);
}

#[test]
fn copies_are_equal() {
    let event = ServerMessage::OnlineUsersUpdate { users: list(&["alice", "bob"]) };
    assert_eq!(event.clone(), event);
    let sending = ClientMessage::SendMessage { message: message(0, "a", "b") };
    assert_eq!(sending.clone(), sending);
    let kept = UserMessageClient { message: message(1, "a", "b"), read_by: list(&["c"]) };
    assert_eq!(kept.clone(), kept);
}
