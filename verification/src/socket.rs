//! The messages that clients and the server exchange.
//!
//! Every type that holds text has a view in which the text is a sequence of
//! characters; contracts throughout the crate speak of those views.

use vstd::prelude::*;
use vstd::utf8::encode_utf8;
use crate::names::{
    contains_name, copy_names, names_of, push_unique, remove_name, with_name, without,
};
use crate::text::{chars_of, string_of_range};

verus! {

/// The view of an optional value.
pub open spec fn view_of<T: View>(o: Option<T>) -> Option<T::V> {
    match o {
        Some(x) => Some(x@),
        None => None,
    }
}

/// One chat message.
#[derive(Debug, PartialEq, Eq)]
pub struct UserMessage {
    /// When the sender wrote it: milliseconds since the Unix epoch, UTC.
    pub send_time: i64,
    /// Who wrote it.
    pub sender: String,
    /// The body: Markdown as typed, or HTML once the server has rendered it.
    pub message: String,
    /// The id of the message that this one answers.
    pub reply_to: Option<u32>,
    /// The id that the server gave it; 0 until then.
    pub id: u32,
}

/// The mathematical value of a `UserMessage`.
pub struct UserMessageView {
    pub send_time: i64,
    pub sender: Seq<char>,
    pub message: Seq<char>,
    pub reply_to: Option<u32>,
    pub id: u32,
}

impl View for UserMessage {
    type V = UserMessageView;

    open spec fn view(&self) -> UserMessageView {
        UserMessageView {
            send_time: self.send_time,
            sender: self.sender@,
            message: self.message@,
            reply_to: self.reply_to,
            id: self.id,
        }
    }
}

impl Clone for UserMessage {
    fn clone(&self) -> (copy: Self)
        ensures
            copy@ == self@,
    {
        UserMessage {
            send_time: self.send_time,
            sender: self.sender.clone(),
            message: self.message.clone(),
            reply_to: self.reply_to,
            id: self.id,
        }
    }
}

/// The longest body, in bytes of UTF-8, that a preview shows whole.
pub const PREVIEW_WHOLE: usize = 40;

/// The number of characters that a preview keeps of a longer body.
pub const PREVIEW_KEPT: usize = 37;

/// The short form of a body: the body itself if it takes at most 40 bytes of
/// UTF-8, else its first 37 characters and an ellipsis of three dots.
pub open spec fn preview_of(body: Seq<char>) -> Seq<char> {
    if encode_utf8(body).len() <= PREVIEW_WHOLE {
        body
    } else if body.len() <= PREVIEW_KEPT {
        body + seq!['.', '.', '.']
    } else {
        body.take(PREVIEW_KEPT as int) + seq!['.', '.', '.']
    }
}

impl UserMessage {
    /// A short form of the body, for notifications and reply headers.
    pub fn preview(&self) -> (short: String)
        ensures
            short@ == preview_of(self.message@),
    {
        if self.message.as_str().as_bytes().len() <= PREVIEW_WHOLE {
            self.message.clone()
        } else {
            let v = chars_of(self.message.as_str());
            let kept: usize = if v.len() <= PREVIEW_KEPT {
                v.len()
            } else {
                PREVIEW_KEPT
            };
            let mut short = string_of_range(&v, 0, kept);
            short.push('.');
            short.push('.');
            short.push('.');
            proof {
                let head = v@.subrange(0, kept as int);
                assert(short@ =~= head + seq!['.', '.', '.']);
                if v.len() <= PREVIEW_KEPT {
                    assert(head =~= v@);
                } else {
                    assert(head =~= v@.take(PREVIEW_KEPT as int));
                }
            }
            short
        }
    }
}

/// Whether a client's page is in view.
#[derive(Debug, Clone, Copy, PartialEq, Eq, Structural)]
pub enum VisibilityState {
    Hidden,
    Visible,
}

impl VisibilityState {
    /// `Visible` for a page in view, `Hidden` for any other.
    pub fn from_visible(visible: bool) -> (state: VisibilityState)
        ensures
            state == (if visible {
                VisibilityState::Visible
            } else {
                VisibilityState::Hidden
            }),
    {
        if visible {
            VisibilityState::Visible
        } else {
            VisibilityState::Hidden
        }
    }

    /// Whether the page is in view.
    pub fn is_visible(&self) -> (visible: bool)
        ensures
            visible == (*self == VisibilityState::Visible),
    {
        match self {
            VisibilityState::Visible => true,
            VisibilityState::Hidden => false,
        }
    }
}

/// What a client sends to the server.
#[derive(Debug, PartialEq, Eq)]
pub enum ClientMessage {
    /// The first message of a connection: binds the connection to a name.
    InitMessage { name: String },
    /// A new chat message; its id is ignored.
    SendMessage { message: UserMessage },
    /// The user typed.
    Typed,
    /// The user has read every message from `earliest` on.
    ReadMessages { earliest: u32 },
    /// The page came into view or left it.
    VisibilityUpdate(VisibilityState),
}

/// The mathematical value of a `ClientMessage`.
pub enum ClientMessageView {
    InitMessage { name: Seq<char> },
    SendMessage { message: UserMessageView },
    Typed,
    ReadMessages { earliest: u32 },
    VisibilityUpdate(VisibilityState),
}

impl View for ClientMessage {
    type V = ClientMessageView;

    open spec fn view(&self) -> ClientMessageView {
        match *self {
            ClientMessage::InitMessage { name } => ClientMessageView::InitMessage { name: name@ },
            ClientMessage::SendMessage { message } => ClientMessageView::SendMessage {
                message: message@,
            },
            ClientMessage::Typed => ClientMessageView::Typed,
            ClientMessage::ReadMessages { earliest } => ClientMessageView::ReadMessages {
                earliest,
            },
            ClientMessage::VisibilityUpdate(state) => ClientMessageView::VisibilityUpdate(state),
        }
    }
}

impl Clone for ClientMessage {
    fn clone(&self) -> (copy: Self)
        ensures
            copy@ == self@,
    {
        match self {
            ClientMessage::InitMessage { name } => ClientMessage::InitMessage {
                name: name.clone(),
            },
            ClientMessage::SendMessage { message } => ClientMessage::SendMessage {
                message: message.clone(),
            },
            ClientMessage::Typed => ClientMessage::Typed,
            ClientMessage::ReadMessages { earliest } => ClientMessage::ReadMessages {
                earliest: *earliest,
            },
            ClientMessage::VisibilityUpdate(state) => ClientMessage::VisibilityUpdate(*state),
        }
    }
}

/// What the server sends to every client.
#[derive(Debug, PartialEq, Eq)]
pub enum ServerMessage {
    /// `by_user` has read every message from `earliest` on.
    MessagesRead { by_user: String, earliest: u32 },
    /// A message was added, with its id and its body rendered.
    MessageSent { message: UserMessage },
    /// `user` started typing.
    UserTyping { user: String },
    /// `user` stopped typing.
    UserStoppedTyping { user: String },
    /// The names that are online now.
    OnlineUsersUpdate { users: Vec<String> },
    /// `user` has the page in view.
    UserObserving { user: String },
    /// `user` no longer has the page in view.
    UserNotObserving { user: String },
}

/// The mathematical value of a `ServerMessage`.
pub enum ServerMessageView {
    MessagesRead { by_user: Seq<char>, earliest: u32 },
    MessageSent { message: UserMessageView },
    UserTyping { user: Seq<char> },
    UserStoppedTyping { user: Seq<char> },
    OnlineUsersUpdate { users: Seq<Seq<char>> },
    UserObserving { user: Seq<char> },
    UserNotObserving { user: Seq<char> },
}

impl View for ServerMessage {
    type V = ServerMessageView;

    open spec fn view(&self) -> ServerMessageView {
        match *self {
            ServerMessage::MessagesRead { by_user, earliest } => ServerMessageView::MessagesRead {
                by_user: by_user@,
                earliest,
            },
            ServerMessage::MessageSent { message } => ServerMessageView::MessageSent {
                message: message@,
            },
            ServerMessage::UserTyping { user } => ServerMessageView::UserTyping { user: user@ },
            ServerMessage::UserStoppedTyping { user } => ServerMessageView::UserStoppedTyping {
                user: user@,
            },
            ServerMessage::OnlineUsersUpdate { users } => ServerMessageView::OnlineUsersUpdate {
                users: names_of(users@),
            },
            ServerMessage::UserObserving { user } => ServerMessageView::UserObserving {
                user: user@,
            },
            ServerMessage::UserNotObserving { user } => ServerMessageView::UserNotObserving {
                user: user@,
            },
        }
    }
}

impl Clone for ServerMessage {
    fn clone(&self) -> (copy: Self)
        ensures
            copy@ == self@,
    {
        match self {
            ServerMessage::MessagesRead { by_user, earliest } => ServerMessage::MessagesRead {
                by_user: by_user.clone(),
                earliest: *earliest,
            },
            ServerMessage::MessageSent { message } => ServerMessage::MessageSent {
                message: message.clone(),
            },
            ServerMessage::UserTyping { user } => ServerMessage::UserTyping { user: user.clone() },
            ServerMessage::UserStoppedTyping { user } => ServerMessage::UserStoppedTyping {
                user: user.clone(),
            },
            ServerMessage::OnlineUsersUpdate { users } => ServerMessage::OnlineUsersUpdate {
                users: copy_names(users),
            },
            ServerMessage::UserObserving { user } => ServerMessage::UserObserving {
                user: user.clone(),
            },
            ServerMessage::UserNotObserving { user } => ServerMessage::UserNotObserving {
                user: user.clone(),
            },
        }
    }
}

/// The heartbeat: a frame of its own, outside the structured encoding.
#[derive(Debug, Clone, Copy, Default)]
pub struct Heartbeat;

/// The text of a heartbeat frame.
pub open spec fn heartbeat_text() -> Seq<char> {
    "<Heartbeat>"@
}

impl Heartbeat {
    /// The text of a heartbeat frame.
    pub fn to_string(&self) -> (text: String)
        ensures
            text@ == heartbeat_text(),
    {
        "<Heartbeat>".to_owned()
    }
}

/// A message as a client keeps it: with the names of those who have read it.
#[derive(Debug, PartialEq, Eq)]
pub struct UserMessageClient {
    pub message: UserMessage,
    /// The users who have read the message, in the order in which their
    /// receipts came.
    pub read_by: Vec<String>,
}

/// The mathematical value of a `UserMessageClient`.
pub struct UserMessageClientView {
    pub message: UserMessageView,
    pub read_by: Seq<Seq<char>>,
}

impl View for UserMessageClient {
    type V = UserMessageClientView;

    open spec fn view(&self) -> UserMessageClientView {
        UserMessageClientView { message: self.message@, read_by: names_of(self.read_by@) }
    }
}

impl Clone for UserMessageClient {
    fn clone(&self) -> (copy: Self)
        ensures
            copy@ == self@,
    {
        UserMessageClient { message: self.message.clone(), read_by: copy_names(&self.read_by) }
    }
}

/// The values of a list of kept messages, in order.
pub open spec fn kept_of(list: Seq<UserMessageClient>) -> Seq<UserMessageClientView> {
    Seq::new(list.len(), |i: int| list[i]@)
}

/// The values of the rows of a user list, in order.
pub open spec fn rows_of(list: Seq<(String, bool, bool)>) -> Seq<(Seq<char>, bool, bool)> {
    Seq::new(list.len(), |i: int| (list[i].0@, list[i].1, list[i].2))
}

/// `kept` once `reader` is known to have read every message from `earliest`
/// on: the reader joins those who have read it, unless already among them.
pub open spec fn marked(kept: UserMessageClientView, reader: Seq<char>, earliest: u32)
    -> UserMessageClientView {
    if kept.message.id >= earliest {
        UserMessageClientView { read_by: with_name(kept.read_by, reader), ..kept }
    } else {
        kept
    }
}

/// Every message of `list` marked as read by `reader` from `earliest` on.
pub open spec fn all_marked(list: Seq<UserMessageClientView>, reader: Seq<char>, earliest: u32)
    -> Seq<UserMessageClientView> {
    Seq::new(list.len(), |i: int| marked(list[i], reader, earliest))
}

/// The first position at or after `from` of a message with the id `id`, or
/// the length of `list` if there is none.
pub open spec fn first_with_id(list: Seq<UserMessageClientView>, id: u32, from: int) -> int
    decreases list.len() - from,
{
    if 0 <= from < list.len() && list[from].message.id != id {
        first_with_id(list, id, from + 1)
    } else {
        from
    }
}

/// Those who have read a message, as shown to `viewer`: without the viewer
/// and without the message's sender.
pub open spec fn readers_shown(kept: UserMessageClientView, viewer: Seq<char>) -> Seq<Seq<char>> {
    without(without(kept.read_by, viewer), kept.message.sender)
}

impl UserMessageClient {
    /// Those who have read the message, as shown to `viewer`.
    pub fn readers_for(&self, viewer: &str) -> (readers: Vec<String>)
        ensures
            names_of(readers@) == readers_shown(self@, viewer@),
    {
        let mut readers = copy_names(&self.read_by);
        remove_name(&mut readers, viewer);
        remove_name(&mut readers, self.message.sender.as_str());
        readers
    }
}

/// Where the connection to the server stands.
#[derive(Debug, Clone, Copy, PartialEq, Eq, Structural)]
pub enum ConnectionReadyState {
    Connecting,
    Open,
    Closing,
    Closed,
}

/// The mathematical value of a `ConnectionState`.
pub struct ConnectionStateView {
    /// The name under which this client takes part.
    pub name: Seq<char>,
    /// Where the connection stands.
    pub ready: ConnectionReadyState,
    /// Whether the name was announced since the connection last opened.
    pub announced: bool,
    /// The latest event from the server.
    pub message: Option<ServerMessageView>,
    /// The messages received, oldest first.
    pub messages: Seq<UserMessageClientView>,
    /// The users who are typing.
    pub typing: Seq<Seq<char>>,
    /// The users who are online.
    pub online: Seq<Seq<char>>,
    /// The users who have the page in view.
    pub observing: Seq<Seq<char>>,
}

impl ConnectionStateView {
    /// The state of a client that has heard nothing yet.
    pub open spec fn initial(name: Seq<char>) -> ConnectionStateView {
        ConnectionStateView {
            name,
            ready: ConnectionReadyState::Connecting,
            announced: false,
            message: None,
            messages: Seq::empty(),
            typing: Seq::empty(),
            online: Seq::empty(),
            observing: Seq::empty(),
        }
    }

    /// The state after an event from the server.
    pub open spec fn received(self, event: ServerMessageView) -> ConnectionStateView {
        let noted = ConnectionStateView { message: Some(event), ..self };
        match event {
            ServerMessageView::MessageSent { message } => ConnectionStateView {
                messages: self.messages.push(
                    UserMessageClientView { message, read_by: Seq::empty() },
                ),
                ..noted
            },
            ServerMessageView::UserTyping { user } => ConnectionStateView {
                typing: with_name(self.typing, user),
                ..noted
            },
            ServerMessageView::UserStoppedTyping { user } => ConnectionStateView {
                typing: without(self.typing, user),
                ..noted
            },
            ServerMessageView::OnlineUsersUpdate { users } => ConnectionStateView {
                online: users,
                ..noted
            },
            ServerMessageView::MessagesRead { by_user, earliest } => ConnectionStateView {
                messages: all_marked(self.messages, by_user, earliest),
                ..noted
            },
            ServerMessageView::UserObserving { user } => ConnectionStateView {
                observing: with_name(self.observing, user),
                ..noted
            },
            ServerMessageView::UserNotObserving { user } => ConnectionStateView {
                observing: without(self.observing, user),
                ..noted
            },
        }
    }

    /// The state after the connection came to stand at `ready`.
    pub open spec fn ready_changed(self, ready: ConnectionReadyState) -> ConnectionStateView {
        ConnectionStateView { ready, announced: ready == ConnectionReadyState::Open, ..self }
    }

    /// What to send when the connection comes to stand at `ready`: the
    /// client's name, once each time the connection opens.
    pub open spec fn announcement(self, ready: ConnectionReadyState) -> Option<ClientMessageView> {
        if ready == ConnectionReadyState::Open && !self.announced {
            Some(ClientMessageView::InitMessage { name: self.name })
        } else {
            None
        }
    }

    /// A row for each of `names`: the name, whether it is typing, and whether
    /// it has the page in view.
    pub open spec fn rows(self, names: Seq<Seq<char>>) -> Seq<(Seq<char>, bool, bool)> {
        Seq::new(
            names.len(),
            |i: int| (names[i], self.typing.contains(names[i]), self.observing.contains(names[i])),
        )
    }

    /// The users who are online, each with whether it is typing and whether
    /// it has the page in view.
    pub open spec fn users(self) -> Seq<(Seq<char>, bool, bool)> {
        self.rows(self.online)
    }

    /// The users who are online besides this client's own.
    pub open spec fn others(self) -> Seq<(Seq<char>, bool, bool)> {
        self.rows(without(self.online, self.name))
    }

    /// The position of the first message held with the id `id`, or the number
    /// of messages held if there is none.
    pub open spec fn position_of(self, id: u32) -> int {
        first_with_id(self.messages, id, 0)
    }

    /// The receipt to send for what is on the page: every message from the
    /// oldest one held on.
    pub open spec fn receipt(self) -> Option<ClientMessageView> {
        if self.messages.len() > 0 {
            Some(ClientMessageView::ReadMessages { earliest: self.messages[0].message.id })
        } else {
            None
        }
    }
}

/// What a client knows of the chat: built up from the server's events.
#[derive(Debug, PartialEq, Eq)]
pub struct ConnectionState {
    name: String,
    ready: ConnectionReadyState,
    announced: bool,
    /// The latest event from the server.
    pub message: Option<ServerMessage>,
    messages: Vec<UserMessageClient>,
    typing: Vec<String>,
    online: Vec<String>,
    observing: Vec<String>,
}

impl View for ConnectionState {
    type V = ConnectionStateView;

    closed spec fn view(&self) -> ConnectionStateView {
        ConnectionStateView {
            name: self.name@,
            ready: self.ready,
            announced: self.announced,
            message: view_of(self.message),
            messages: kept_of(self.messages@),
            typing: names_of(self.typing@),
            online: names_of(self.online@),
            observing: names_of(self.observing@),
        }
    }
}

impl ConnectionState {
    /// The state of a client named `name` that has heard nothing yet.
    pub fn new(name: String) -> (state: ConnectionState)
        ensures
            state@ == ConnectionStateView::initial(name@),
    {
        let state = ConnectionState {
            name,
            ready: ConnectionReadyState::Connecting,
            announced: false,
            message: None,
            messages: Vec::new(),
            typing: Vec::new(),
            online: Vec::new(),
            observing: Vec::new(),
        };
        proof {
            assert(kept_of(state.messages@) =~= Seq::<UserMessageClientView>::empty());
            assert(names_of(state.typing@) =~= Seq::<Seq<char>>::empty());
            assert(names_of(state.online@) =~= Seq::<Seq<char>>::empty());
            assert(names_of(state.observing@) =~= Seq::<Seq<char>>::empty());
        }
        state
    }

    /// The messages received, oldest first.
    pub fn messages(&self) -> (messages: &Vec<UserMessageClient>)
        ensures
            kept_of(messages@) == self@.messages,
    {
        &self.messages
    }

    /// The users who are typing.
    pub fn typing(&self) -> (typing: &Vec<String>)
        ensures
            names_of(typing@) == self@.typing,
    {
        &self.typing
    }

    /// The users who are online.
    pub fn online(&self) -> (online: &Vec<String>)
        ensures
            names_of(online@) == self@.online,
    {
        &self.online
    }

    /// The users who have the page in view.
    pub fn observing(&self) -> (observing: &Vec<String>)
        ensures
            names_of(observing@) == self@.observing,
    {
        &self.observing
    }

    /// Where the connection stands.
    pub fn ready(&self) -> (ready: ConnectionReadyState)
        ensures
            ready == self@.ready,
    {
        self.ready
    }

    /// A row for each of `names`.
    fn rows(&self, names: &Vec<String>) -> (rows: Vec<(String, bool, bool)>)
        ensures
            rows_of(rows@) == self@.rows(names_of(names@)),
    {
        let ghost all = self@.rows(names_of(names@));
        let mut rows: Vec<(String, bool, bool)> = Vec::new();
        let mut i: usize = 0;
        while i < names.len()
            invariant
                i <= names.len(),
                all == self@.rows(names_of(names@)),
                rows_of(rows@) == all.take(i as int),
            decreases names.len() - i,
        {
            let name = names[i].clone();
            let is_typing = contains_name(&self.typing, name.as_str());
            let is_observing = contains_name(&self.observing, name.as_str());
            rows.push((name, is_typing, is_observing));
            proof {
                assert(rows_of(rows@) =~= all.take(i as int).push(all[i as int]));
                assert(all.take(i + 1) =~= all.take(i as int).push(all[i as int]));
            }
            i += 1;
        }
        assert(all.take(i as int) =~= all);
        rows
    }

    /// The users who are online, each with whether it is typing and whether
    /// it has the page in view.
    pub fn users(&self) -> (users: Vec<(String, bool, bool)>)
        ensures
            rows_of(users@) == self@.users(),
    {
        self.rows(&self.online)
    }

    /// The users who are online besides this client's own, each with whether
    /// it is typing and whether it has the page in view.
    pub fn others(&self) -> (users: Vec<(String, bool, bool)>)
        ensures
            rows_of(users@) == self@.others(),
    {
        let mut names = copy_names(&self.online);
        remove_name(&mut names, self.name.as_str());
        self.rows(&names)
    }

    /// The first message held with the id `id`, if there is one.
    pub fn find_message(&self, id: u32) -> (found: Option<&UserMessageClient>)
        ensures
            match found {
                Some(kept) => self@.position_of(id) < self@.messages.len() && kept@
                    == self@.messages[self@.position_of(id)],
                None => self@.position_of(id) == self@.messages.len(),
            },
    {
        let mut i: usize = 0;
        while i < self.messages.len()
            invariant
                i <= self.messages.len(),
                first_with_id(self@.messages, id, i as int) == self@.position_of(id),
            decreases self.messages.len() - i,
        {
            if self.messages[i].message.id == id {
                return Some(&self.messages[i]);
            }
            i += 1;
        }
        None
    }

    /// Marks every message from `earliest` on as read by `reader`.
    fn mark_read(&mut self, reader: &str, earliest: u32)
        ensures
            final(self)@ == (ConnectionStateView {
                messages: all_marked(old(self)@.messages, reader@, earliest),
                ..old(self)@
            }),
    {
        let mut marked_list: Vec<UserMessageClient> = Vec::new();
        let mut i: usize = 0;
        while i < self.messages.len()
            invariant
                i <= self.messages.len(),
                kept_of(marked_list@) == all_marked(kept_of(self.messages@), reader@, earliest).take(
                    i as int,
                ),
            decreases self.messages.len() - i,
        {
            let mut kept = self.messages[i].clone();
            if kept.message.id >= earliest {
                let mut read_by = kept.read_by;
                push_unique(&mut read_by, reader);
                kept = UserMessageClient { message: kept.message, read_by };
            }
            marked_list.push(kept);
            proof {
                let all = all_marked(kept_of(self.messages@), reader@, earliest);
                assert(kept_of(marked_list@) =~= all.take(i as int).push(all[i as int]));
                assert(all.take(i + 1) =~= all.take(i as int).push(all[i as int]));
            }
            i += 1;
        }
        proof {
            let all = all_marked(kept_of(self.messages@), reader@, earliest);
            assert(all.take(i as int) =~= all);
        }
        self.messages = marked_list;
    }

    /// An event arrived from the server.
    pub fn receive(&mut self, event: ServerMessage)
        ensures
            final(self)@ == old(self)@.received(event@),
    {
        match &event {
            ServerMessage::MessageSent { message } => {
                self.messages.push(
                    UserMessageClient { message: message.clone(), read_by: Vec::new() },
                );
                proof {
                    let added = UserMessageClientView { message: message@, read_by: Seq::empty() };
                    assert(names_of(Seq::<String>::empty()) =~= Seq::<Seq<char>>::empty());
                    assert(kept_of(self.messages@) =~= old(self)@.messages.push(added));
                }
            },
            ServerMessage::UserTyping { user } => {
                push_unique(&mut self.typing, user.as_str());
            },
            ServerMessage::UserStoppedTyping { user } => {
                remove_name(&mut self.typing, user.as_str());
            },
            ServerMessage::OnlineUsersUpdate { users } => {
                self.online = copy_names(users);
            },
            ServerMessage::MessagesRead { by_user, earliest } => {
                self.mark_read(by_user.as_str(), *earliest);
            },
            ServerMessage::UserObserving { user } => {
                push_unique(&mut self.observing, user.as_str());
            },
            ServerMessage::UserNotObserving { user } => {
                remove_name(&mut self.observing, user.as_str());
            },
        }
        self.message = Some(event);
    }

    /// The connection came to stand at `ready`. Gives the message that
    /// announces the client's name, each time the connection opens.
    pub fn ready_changed(&mut self, ready: ConnectionReadyState) -> (announcement: Option<
        ClientMessage,
    >)
        ensures
            final(self)@ == old(self)@.ready_changed(ready),
            view_of(announcement) == old(self)@.announcement(ready),
    {
        let open = match ready {
            ConnectionReadyState::Open => true,
            _ => false,
        };
        let announcement = if open && !self.announced {
            Some(ClientMessage::InitMessage { name: self.name.clone() })
        } else {
            None
        };
        self.ready = ready;
        self.announced = open;
        announcement
    }

    /// The message that sends a new chat message written at `send_time`.
    pub fn send_message(
        &self,
        sender: String,
        message: String,
        reply_to: Option<u32>,
        send_time: i64,
    ) -> (sending: ClientMessage)
        ensures
            sending@ == (ClientMessageView::SendMessage {
                message: UserMessageView {
                    send_time,
                    sender: sender@,
                    message: message@,
                    reply_to,
                    id: 0,
                },
            }),
    {
        ClientMessage::SendMessage {
            message: UserMessage { id: 0, send_time, sender, message, reply_to },
        }
    }

    /// The receipt to send when the page is read: it names the oldest
    /// message held. There is none to send while no message is held.
    pub fn read_messages(&self) -> (sending: Option<ClientMessage>)
        ensures
            view_of(sending) == self@.receipt(),
    {
        if self.messages.len() > 0 {
            Some(ClientMessage::ReadMessages { earliest: self.messages[0].message.id })
        } else {
            None
        }
    }

    /// The message that says that the user typed.
    pub fn type_(&self) -> (sending: ClientMessage)
        ensures
            sending@ == ClientMessageView::Typed,
    {
        ClientMessage::Typed
    }

    /// The message that says whether the page is in view.
    pub fn update_visiblity(&self, vis: VisibilityState) -> (sending: ClientMessage)
        ensures
            sending@ == ClientMessageView::VisibilityUpdate(vis),
    {
        ClientMessage::VisibilityUpdate(vis)
    }
}

} // verus!
