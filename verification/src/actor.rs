//! The state actor: the one owner of everything the connections share.
//!
//! Requests reach the actor one at a time. For each it changes its state and
//! says what follows: an event to broadcast, a typing timer to start, a message
//! to hand to the command dispatcher. What it does is stated twice: as a
//! mathematical model, `ServerStateView`, with its transition functions
//! `after` and `outcome`, and as the executable `ServerState`, whose methods
//! are proved to follow the model.

use vstd::prelude::*;
use crate::names::{
    contains_name, lemma_with_name_contains, lemma_with_name_no_duplicates,
    lemma_without_contains, lemma_without_no_duplicates, names_of, push_unique, remove_name,
    with_name, without, Tally,
};
use crate::render::{render_body, rendered_body};
use crate::socket::{view_of, ServerMessage, ServerMessageView, UserMessage, UserMessageView};

verus! {

/// Where a new message comes from.
#[derive(Debug, Clone, Copy, PartialEq, Eq, Structural)]
pub enum MessageOrigin {
    /// A client sent it: its body may be a command.
    Client,
    /// The server made it, as the answer to a command: it is never read as a
    /// command itself.
    Synthetic,
}

/// A request to the state actor.
#[derive(Debug, PartialEq, Eq)]
pub enum ServerStateMessage {
    /// A connection was bound to `name`.
    UserJoined { name: String },
    /// A connection bound to `name` ended.
    UserDisconnected { name: String },
    /// `name` typed.
    UserTyped { name: String },
    /// The timer started by the typing pulse of `name` with this generation
    /// has run out.
    TypingExpired { name: String, generation: u64 },
    /// A message to number, render and broadcast.
    NewMessage { message: UserMessage, origin: MessageOrigin },
    /// `user` has read every message from `earliest` on.
    UserReadMessages { user: String, earliest: u32 },
    /// The page of `name` came into view or left it.
    VisibilityChanged { name: String, visible: bool },
}

/// The mathematical value of a `ServerStateMessage`.
pub enum ServerStateMessageView {
    UserJoined { name: Seq<char> },
    UserDisconnected { name: Seq<char> },
    UserTyped { name: Seq<char> },
    TypingExpired { name: Seq<char>, generation: nat },
    NewMessage { message: UserMessageView, origin: MessageOrigin },
    UserReadMessages { user: Seq<char>, earliest: u32 },
    VisibilityChanged { name: Seq<char>, visible: bool },
}

impl View for ServerStateMessage {
    type V = ServerStateMessageView;

    open spec fn view(&self) -> ServerStateMessageView {
        match *self {
            ServerStateMessage::UserJoined { name } => ServerStateMessageView::UserJoined {
                name: name@,
            },
            ServerStateMessage::UserDisconnected { name } => {
                ServerStateMessageView::UserDisconnected { name: name@ }
            },
            ServerStateMessage::UserTyped { name } => ServerStateMessageView::UserTyped {
                name: name@,
            },
            ServerStateMessage::TypingExpired { name, generation } => {
                ServerStateMessageView::TypingExpired { name: name@, generation: generation as nat }
            },
            ServerStateMessage::NewMessage { message, origin } => {
                ServerStateMessageView::NewMessage { message: message@, origin }
            },
            ServerStateMessage::UserReadMessages { user, earliest } => {
                ServerStateMessageView::UserReadMessages { user: user@, earliest }
            },
            ServerStateMessage::VisibilityChanged { name, visible } => {
                ServerStateMessageView::VisibilityChanged { name: name@, visible }
            },
        }
    }
}

/// A typing timer to start: when the debounce window has passed, the actor is
/// to get `TypingExpired` with this name and generation.
#[derive(Debug, PartialEq, Eq)]
pub struct TypingTimer {
    pub name: String,
    pub generation: u64,
}

/// The mathematical value of a `TypingTimer`.
pub struct TypingTimerView {
    pub name: Seq<char>,
    pub generation: nat,
}

impl View for TypingTimer {
    type V = TypingTimerView;

    open spec fn view(&self) -> TypingTimerView {
        TypingTimerView { name: self.name@, generation: self.generation as nat }
    }
}

/// What follows from one request.
#[derive(Debug, PartialEq, Eq)]
pub struct Outcome {
    /// The event to send to every client.
    pub broadcast: Option<ServerMessage>,
    /// The typing timer to start.
    pub timer: Option<TypingTimer>,
    /// The message to hand to the command dispatcher, as it was received.
    pub command: Option<UserMessage>,
}

/// The mathematical value of an `Outcome`.
pub struct OutcomeView {
    pub broadcast: Option<ServerMessageView>,
    pub timer: Option<TypingTimerView>,
    pub command: Option<UserMessageView>,
}

impl View for Outcome {
    type V = OutcomeView;

    open spec fn view(&self) -> OutcomeView {
        OutcomeView {
            broadcast: view_of(self.broadcast),
            timer: view_of(self.timer),
            command: view_of(self.command),
        }
    }
}

/// The outcome that is one broadcast and nothing else.
pub open spec fn only_broadcast(event: ServerMessageView) -> OutcomeView {
    OutcomeView { broadcast: Some(event), timer: None, command: None }
}

/// The outcome of a request that changes nothing anyone is told of.
pub open spec fn nothing() -> OutcomeView {
    OutcomeView { broadcast: None, timer: None, command: None }
}

/// The mathematical state of the actor.
pub struct ServerStateView {
    /// The names with at least one connection, in the order in which they
    /// came online.
    pub online: Seq<Seq<char>>,
    /// The number of connections of each name that is online.
    pub connections: Map<Seq<char>, nat>,
    /// The names that are typing.
    pub typing: Seq<Seq<char>>,
    /// For each name that ever typed, the generation of its latest pulse.
    pub generations: Map<Seq<char>, nat>,
    /// The id of the next message.
    pub next_id: nat,
    /// The names that have the page in view.
    pub observing: Seq<Seq<char>>,
}

impl ServerStateView {
    /// The state of an actor that has seen no request.
    pub open spec fn initial() -> ServerStateView {
        ServerStateView {
            online: Seq::empty(),
            connections: Map::empty(),
            typing: Seq::empty(),
            generations: Map::empty(),
            next_id: 0,
            observing: Seq::empty(),
        }
    }

    /// The number of connections of `name`: 0 if it is not online.
    pub open spec fn count(self, name: Seq<char>) -> nat {
        if self.connections.dom().contains(name) {
            self.connections[name]
        } else {
            0
        }
    }

    /// The generation that the next typing pulse of `name` gets: 0 for the
    /// first, one more than the latest after that.
    pub open spec fn next_generation(self, name: Seq<char>) -> nat {
        if self.generations.dom().contains(name) {
            self.generations[name] + 1
        } else {
            0
        }
    }

    /// Whether the latest typing pulse of `name` has generation `generation`.
    pub open spec fn latest_pulse_is(self, name: Seq<char>, generation: nat) -> bool {
        self.generations.dom().contains(name) && self.generations[name] == generation
    }

    /// The online names are exactly the names with connections, each once and
    /// with at least one connection, and every number fits its machine type.
    pub open spec fn wf(self) -> bool {
        &&& self.online.no_duplicates()
        &&& forall|name: Seq<char>|
            self.online.contains(name) <==> self.connections.dom().contains(name)
        &&& forall|name: Seq<char>|
            #![trigger self.connections.dom().contains(name)]
            self.connections.dom().contains(name) ==> 0 < self.connections[name] <= u64::MAX
        &&& forall|name: Seq<char>|
            #![trigger self.generations.dom().contains(name)]
            self.generations.dom().contains(name) ==> self.generations[name] <= u64::MAX
        &&& self.next_id <= u32::MAX
    }

    /// Whether the counters leave room for `request`: a join needs the name's
    /// connection count, a typing pulse the name's generation, and a new
    /// message the next id to stay within its machine type.
    pub open spec fn accepts(self, request: ServerStateMessageView) -> bool {
        match request {
            ServerStateMessageView::UserJoined { name } => self.count(name) < u64::MAX,
            ServerStateMessageView::UserTyped { name } => self.next_generation(name) <= u64::MAX,
            ServerStateMessageView::NewMessage { .. } => self.next_id < u32::MAX,
            _ => true,
        }
    }

    /// The state after a message was published: the next id is one more.
    pub open spec fn published(self) -> ServerStateView {
        ServerStateView { next_id: self.next_id + 1, ..self }
    }

    /// What follows from publishing `message` with its body rendered to
    /// `html`: the message is broadcast with the next id and `html` as its
    /// body, and, if a client sent it, handed to the command dispatcher as it
    /// came.
    pub open spec fn published_outcome(
        self,
        message: UserMessageView,
        html: Seq<char>,
        origin: MessageOrigin,
    ) -> OutcomeView {
        OutcomeView {
            broadcast: Some(
                ServerMessageView::MessageSent {
                    message: UserMessageView { id: self.next_id as u32, message: html, ..message },
                },
            ),
            timer: None,
            command: if origin == MessageOrigin::Client {
                Some(message)
            } else {
                None
            },
        }
    }

    /// The state after `request`.
    pub open spec fn after(self, request: ServerStateMessageView) -> ServerStateView {
        match request {
            ServerStateMessageView::UserJoined { name } => ServerStateView {
                online: with_name(self.online, name),
                connections: self.connections.insert(name, self.count(name) + 1),
                ..self
            },
            ServerStateMessageView::UserDisconnected { name } => if self.count(name) <= 1 {
                ServerStateView {
                    online: without(self.online, name),
                    connections: self.connections.remove(name),
                    ..self
                }
            } else {
                ServerStateView {
                    connections: self.connections.insert(name, (self.count(name) - 1) as nat),
                    ..self
                }
            },
            ServerStateMessageView::UserTyped { name } => ServerStateView {
                typing: with_name(self.typing, name),
                generations: self.generations.insert(name, self.next_generation(name)),
                ..self
            },
            ServerStateMessageView::TypingExpired { name, generation } => if self.latest_pulse_is(
                name,
                generation,
            ) {
                ServerStateView { typing: without(self.typing, name), ..self }
            } else {
                self
            },
            ServerStateMessageView::NewMessage { .. } => self.published(),
            ServerStateMessageView::UserReadMessages { .. } => self,
            ServerStateMessageView::VisibilityChanged { name, visible } => if visible {
                ServerStateView { observing: with_name(self.observing, name), ..self }
            } else {
                ServerStateView { observing: without(self.observing, name), ..self }
            },
        }
    }

    /// A sound state that has room for a request is sound after it.
    pub proof fn lemma_after_wf(self, request: ServerStateMessageView)
        requires
            self.wf(),
            self.accepts(request),
        ensures
            self.after(request).wf(),
    {
        let next = self.after(request);
        match request {
            ServerStateMessageView::UserJoined { name } => {
                assert forall|other: Seq<char>|
                    next.online.contains(other) <==> next.connections.dom().contains(other) by {
                    lemma_with_name_contains(self.online, name, other);
                }
                lemma_with_name_no_duplicates(self.online, name);
            },
            ServerStateMessageView::UserDisconnected { name } => {
                if self.count(name) <= 1 {
                    assert forall|other: Seq<char>|
                        next.online.contains(other) <==> next.connections.dom().contains(
                            other,
                        ) by {
                        lemma_without_contains(self.online, name, other);
                    }
                    lemma_without_no_duplicates(self.online, name);
                }
            },
            _ => {},
        }
    }

    /// What follows from `request`.
    pub open spec fn outcome(self, request: ServerStateMessageView) -> OutcomeView {
        match request {
            ServerStateMessageView::UserJoined { .. }
            | ServerStateMessageView::UserDisconnected { .. } => only_broadcast(
                ServerMessageView::OnlineUsersUpdate { users: self.after(request).online },
            ),
            ServerStateMessageView::UserTyped { name } => OutcomeView {
                broadcast: if self.typing.contains(name) {
                    None
                } else {
                    Some(ServerMessageView::UserTyping { user: name })
                },
                timer: Some(
                    TypingTimerView { name, generation: self.next_generation(name) },
                ),
                command: None,
            },
            ServerStateMessageView::TypingExpired { name, generation } => if self.latest_pulse_is(
                name,
                generation,
            ) && self.typing.contains(name) {
                only_broadcast(ServerMessageView::UserStoppedTyping { user: name })
            } else {
                nothing()
            },
            ServerStateMessageView::NewMessage { message, origin } => self.published_outcome(
                message,
                rendered_body(message.message),
                origin,
            ),
            ServerStateMessageView::UserReadMessages { user, earliest } => only_broadcast(
                ServerMessageView::MessagesRead { by_user: user, earliest },
            ),
            ServerStateMessageView::VisibilityChanged { name, visible } => if visible {
                if self.observing.contains(name) {
                    nothing()
                } else {
                    only_broadcast(ServerMessageView::UserObserving { user: name })
                }
            } else {
                if self.observing.contains(name) {
                    only_broadcast(ServerMessageView::UserNotObserving { user: name })
                } else {
                    nothing()
                }
            },
        }
    }
}

/// The state of the actor.
pub struct ServerState {
    presence: Tally,
    typing: Vec<String>,
    generations: Tally,
    next_id: u32,
    observing: Vec<String>,
}

impl View for ServerState {
    type V = ServerStateView;

    closed spec fn view(&self) -> ServerStateView {
        ServerStateView {
            online: self.presence.names(),
            connections: self.presence@,
            typing: names_of(self.typing@),
            generations: self.generations@,
            next_id: self.next_id as nat,
            observing: names_of(self.observing@),
        }
    }
}

impl ServerState {
    /// The state is sound: its model is, and no name is counted twice.
    pub closed spec fn wf(&self) -> bool {
        &&& self.presence.wf()
        &&& self.generations.wf()
        &&& self@.wf()
    }

    /// A sound state has a sound model.
    pub proof fn lemma_wf(&self)
        requires
            self.wf(),
        ensures
            self@.wf(),
    {
    }

    /// The state of an actor that has seen no request.
    pub fn new() -> (state: ServerState)
        ensures
            state.wf(),
            state@ == ServerStateView::initial(),
    {
        let state = ServerState {
            presence: Tally::new(),
            typing: Vec::new(),
            generations: Tally::new(),
            next_id: 0,
            observing: Vec::new(),
        };
        proof {
            assert(names_of(state.typing@) =~= Seq::<Seq<char>>::empty());
            assert(names_of(state.observing@) =~= Seq::<Seq<char>>::empty());
        }
        state
    }

    /// The id that the next message gets.
    pub fn next_id(&self) -> (id: u32)
        ensures
            id == self@.next_id,
    {
        self.next_id
    }

    /// The number of connections of `name`.
    pub fn connections(&self, name: &str) -> (count: u64)
        requires
            self.wf(),
        ensures
            count == self@.count(name@),
    {
        match self.presence.get(name) {
            Some(count) => count,
            None => 0,
        }
    }

    /// The names that are online, in the order in which they came online.
    pub fn online(&self) -> (names: Vec<String>)
        ensures
            names_of(names@) == self@.online,
    {
        self.presence.name_list()
    }

    /// Whether `name` is typing.
    pub fn is_typing(&self, name: &str) -> (typing: bool)
        ensures
            typing == self@.typing.contains(name@),
    {
        contains_name(&self.typing, name)
    }

    /// Whether `name` has the page in view.
    pub fn is_observing(&self, name: &str) -> (observing: bool)
        ensures
            observing == self@.observing.contains(name@),
    {
        contains_name(&self.observing, name)
    }

    /// A connection was bound to `name`: counts it and gives the snapshot of
    /// the online names to broadcast.
    pub fn user_joined(&mut self, name: &str) -> (event: ServerMessage)
        requires
            old(self).wf(),
            old(self)@.count(name@) < u64::MAX,
        ensures
            final(self).wf(),
            final(self)@ == old(self)@.after(ServerStateMessageView::UserJoined { name: name@ }),
            event@ == (ServerMessageView::OnlineUsersUpdate { users: final(self)@.online }),
    {
        let count = self.connections(name);
        proof {
            self.presence.lemma_names();
        }
        self.presence.set(name, count + 1);
        proof {
            old(self)@.lemma_after_wf(ServerStateMessageView::UserJoined { name: name@ });
        }
        ServerMessage::OnlineUsersUpdate { users: self.presence.name_list() }
    }

    /// A connection bound to `name` ended: uncounts it, forgets the name with
    /// its last connection, and gives the snapshot of the online names to
    /// broadcast.
    pub fn user_disconnected(&mut self, name: &str) -> (event: ServerMessage)
        requires
            old(self).wf(),
        ensures
            final(self).wf(),
            final(self)@ == old(self)@.after(
                ServerStateMessageView::UserDisconnected { name: name@ },
            ),
            event@ == (ServerMessageView::OnlineUsersUpdate { users: final(self)@.online }),
    {
        let count = self.connections(name);
        proof {
            self.presence.lemma_names();
        }
        if count <= 1 {
            self.presence.remove(name);
        } else {
            self.presence.set(name, count - 1);
        }
        proof {
            old(self)@.lemma_after_wf(ServerStateMessageView::UserDisconnected { name: name@ });
        }
        ServerMessage::OnlineUsersUpdate { users: self.presence.name_list() }
    }

    /// `name` typed: marks it as typing, which is broadcast if it was not, and
    /// gives its pulse a new generation, for which a timer is to be started.
    pub fn user_typed(&mut self, name: &str) -> (outcome: Outcome)
        requires
            old(self).wf(),
            old(self)@.next_generation(name@) <= u64::MAX,
        ensures
            final(self).wf(),
            final(self)@ == old(self)@.after(ServerStateMessageView::UserTyped { name: name@ }),
            outcome@ == old(self)@.outcome(ServerStateMessageView::UserTyped { name: name@ }),
    {
        let started = push_unique(&mut self.typing, name);
        let generation: u64 = match self.generations.get(name) {
            Some(latest) => latest + 1,
            None => 0,
        };
        self.generations.set(name, generation);
        proof {
            old(self)@.lemma_after_wf(ServerStateMessageView::UserTyped { name: name@ });
        }
        Outcome {
            broadcast: if started {
                Some(ServerMessage::UserTyping { user: name.to_owned() })
            } else {
                None
            },
            timer: Some(TypingTimer { name: name.to_owned(), generation }),
            command: None,
        }
    }

    /// The timer of the typing pulse of `name` with generation `generation`
    /// ran out: if no later pulse came, `name` stops typing, which is
    /// broadcast.
    pub fn typing_expired(&mut self, name: &str, generation: u64) -> (event: Option<
        ServerMessage,
    >)
        requires
            old(self).wf(),
        ensures
            final(self).wf(),
            final(self)@ == old(self)@.after(
                ServerStateMessageView::TypingExpired { name: name@, generation: generation as nat },
            ),
            only_or_nothing(event) == old(self)@.outcome(
                ServerStateMessageView::TypingExpired { name: name@, generation: generation as nat },
            ),
    {
        let latest = match self.generations.get(name) {
            Some(latest) => latest == generation,
            None => false,
        };
        if latest {
            let stopped = remove_name(&mut self.typing, name);
            if stopped {
                Some(ServerMessage::UserStoppedTyping { user: name.to_owned() })
            } else {
                None
            }
        } else {
            None
        }
    }

    /// Publishes `message` with its body rendered to `html`: gives it the
    /// next id and says what to broadcast and what to dispatch.
    pub fn publish(&mut self, message: UserMessage, html: String, origin: MessageOrigin) -> (outcome:
        Outcome)
        requires
            old(self).wf(),
            old(self)@.next_id < u32::MAX,
        ensures
            final(self).wf(),
            final(self)@ == old(self)@.published(),
            outcome@ == old(self)@.published_outcome(message@, html@, origin),
    {
        let sent = UserMessage {
            send_time: message.send_time,
            sender: message.sender.clone(),
            message: html,
            reply_to: message.reply_to,
            id: self.next_id,
        };
        self.next_id = self.next_id + 1;
        proof {
            old(self)@.lemma_after_wf(
                ServerStateMessageView::NewMessage { message: message@, origin },
            );
        }
        Outcome {
            broadcast: Some(ServerMessage::MessageSent { message: sent }),
            timer: None,
            command: match origin {
                MessageOrigin::Client => Some(message),
                MessageOrigin::Synthetic => None,
            },
        }
    }

    /// A new message: renders its body and publishes it.
    pub fn new_message(&mut self, message: UserMessage, origin: MessageOrigin) -> (outcome: Outcome)
        requires
            old(self).wf(),
            old(self)@.next_id < u32::MAX,
        ensures
            final(self).wf(),
            final(self)@ == old(self)@.after(
                ServerStateMessageView::NewMessage { message: message@, origin },
            ),
            outcome@ == old(self)@.outcome(
                ServerStateMessageView::NewMessage { message: message@, origin },
            ),
    {
        let html = render_body(message.message.as_str());
        self.publish(message, html, origin)
    }

    /// A read receipt: relayed as it came, whatever the state.
    pub fn user_read_messages(&self, user: &str, earliest: u32) -> (event: ServerMessage)
        ensures
            event@ == (ServerMessageView::MessagesRead { by_user: user@, earliest }),
    {
        ServerMessage::MessagesRead { by_user: user.to_owned(), earliest }
    }

    /// The page of `name` came into view or left it: notes it, and gives the
    /// event to broadcast if that is news.
    pub fn visibility_changed(&mut self, name: &str, visible: bool) -> (event: Option<
        ServerMessage,
    >)
        requires
            old(self).wf(),
        ensures
            final(self).wf(),
            final(self)@ == old(self)@.after(
                ServerStateMessageView::VisibilityChanged { name: name@, visible },
            ),
            only_or_nothing(event) == old(self)@.outcome(
                ServerStateMessageView::VisibilityChanged { name: name@, visible },
            ),
    {
        if visible {
            if push_unique(&mut self.observing, name) {
                Some(ServerMessage::UserObserving { user: name.to_owned() })
            } else {
                None
            }
        } else {
            if remove_name(&mut self.observing, name) {
                Some(ServerMessage::UserNotObserving { user: name.to_owned() })
            } else {
                None
            }
        }
    }

    /// The generation of the latest typing pulse of `name`, if it ever typed.
    pub fn latest_generation(&self, name: &str) -> (generation: Option<u64>)
        requires
            self.wf(),
        ensures
            generation is Some == self@.generations.dom().contains(name@),
            generation is Some ==> generation->0 == self@.generations[name@],
    {
        self.generations.get(name)
    }

    /// Whether the counters leave room for `request`.
    pub fn accepts(&self, request: &ServerStateMessage) -> (room: bool)
        requires
            self.wf(),
        ensures
            room == self@.accepts(request@),
    {
        match request {
            ServerStateMessage::UserJoined { name } => self.connections(name.as_str()) < u64::MAX,
            ServerStateMessage::UserTyped { name } => match self.latest_generation(
                name.as_str(),
            ) {
                Some(latest) => latest < u64::MAX,
                None => true,
            },
            ServerStateMessage::NewMessage { .. } => self.next_id < u32::MAX,
            _ => true,
        }
    }

    /// Handles one request if the counters leave room for it, and says so:
    /// `None` means that there was no room and that nothing has changed.
    pub fn try_handle(&mut self, request: ServerStateMessage) -> (outcome: Option<Outcome>)
        requires
            old(self).wf(),
        ensures
            final(self).wf(),
            outcome is Some == old(self)@.accepts(request@),
            match outcome {
                Some(outcome) => final(self)@ == old(self)@.after(request@) && outcome@ == old(
                    self,
                )@.outcome(request@),
                None => final(self)@ == old(self)@,
            },
    {
        if self.accepts(&request) {
            Some(self.handle(request))
        } else {
            None
        }
    }

    /// Handles one request: changes the state as the model says and gives
    /// what follows.
    pub fn handle(&mut self, request: ServerStateMessage) -> (outcome: Outcome)
        requires
            old(self).wf(),
            old(self)@.accepts(request@),
        ensures
            final(self).wf(),
            final(self)@ == old(self)@.after(request@),
            outcome@ == old(self)@.outcome(request@),
    {
        match request {
            ServerStateMessage::UserJoined { name } => {
                let event = self.user_joined(name.as_str());
                Outcome { broadcast: Some(event), timer: None, command: None }
            },
            ServerStateMessage::UserDisconnected { name } => {
                let event = self.user_disconnected(name.as_str());
                Outcome { broadcast: Some(event), timer: None, command: None }
            },
            ServerStateMessage::UserTyped { name } => self.user_typed(name.as_str()),
            ServerStateMessage::TypingExpired { name, generation } => {
                let event = self.typing_expired(name.as_str(), generation);
                Outcome { broadcast: event, timer: None, command: None }
            },
            ServerStateMessage::NewMessage { message, origin } => self.new_message(message, origin),
            ServerStateMessage::UserReadMessages { user, earliest } => {
                let event = self.user_read_messages(user.as_str(), earliest);
                Outcome { broadcast: Some(event), timer: None, command: None }
            },
            ServerStateMessage::VisibilityChanged { name, visible } => {
                let event = self.visibility_changed(name.as_str(), visible);
                Outcome { broadcast: event, timer: None, command: None }
            },
        }
    }
}

/// The outcome that is the broadcast of `event`, if there is one, and nothing
/// else.
pub open spec fn only_or_nothing(event: Option<ServerMessage>) -> OutcomeView {
    OutcomeView { broadcast: view_of(event), timer: None, command: None }
}

} // verus!
