//! The two sides of one connection: the reader, which turns the frames of a
//! client into requests to the state actor, and the writer, which forwards
//! the broadcast events to the client.
//!
//! Neither side touches a socket. The reader is told of each frame and of
//! what its payload decoded to, and says what to do; the host does it.

use vstd::prelude::*;
use crate::actor::{MessageOrigin, ServerStateMessage, ServerStateMessageView};
use crate::socket::{
    heartbeat_text, view_of, ClientMessage, ClientMessageView, VisibilityState,
};
use crate::text::same_text;

verus! {

/// The longest time, in nanoseconds, that may have passed since a client's
/// last heartbeat when another frame of it is read: five seconds.
pub const HEARTBEAT_MAX_INTERVAL: u128 = 5_000_000_000;

/// The heartbeat interval that clients are asked to keep, in milliseconds.
pub const HEARTBEAT_INTERVAL_MS: u64 = 2000;

/// The time, in milliseconds, after a typing pulse at which its timer runs
/// out.
pub const TYPING_TIME_MS: u64 = 1500;

/// The capacity of the actor's request queue and of the broadcast stream.
pub const CHANNEL_CAPACITY: usize = 8;

/// Whether `text` is the heartbeat frame.
pub fn is_heartbeat(text: &str) -> (b: bool)
    ensures
        b == (text@ == heartbeat_text()),
{
    same_text(text, "<Heartbeat>")
}

/// Where the reader of a connection stands.
#[derive(Debug, PartialEq, Eq)]
pub enum ReaderState {
    /// No name is bound yet: only the initial message is accepted.
    AwaitingInit,
    /// The connection is bound to `name`.
    Active { name: String },
    /// The connection is over.
    Closed,
}

/// The mathematical value of a `ReaderState`.
pub enum ReaderStateView {
    AwaitingInit,
    Active { name: Seq<char> },
    Closed,
}

impl View for ReaderState {
    type V = ReaderStateView;

    open spec fn view(&self) -> ReaderStateView {
        match *self {
            ReaderState::AwaitingInit => ReaderStateView::AwaitingInit,
            ReaderState::Active { name } => ReaderStateView::Active { name: name@ },
            ReaderState::Closed => ReaderStateView::Closed,
        }
    }
}

/// What to do with a frame, decided before its payload is decoded.
#[derive(Debug, Clone, Copy, PartialEq, Eq, Structural)]
pub enum FrameVerdict {
    /// The frame is a heartbeat: note the time and read on.
    Heartbeat,
    /// Decode the payload and report what it holds.
    Decode,
    /// Close the connection.
    Close,
}

/// What the reader asks of its host.
#[derive(Debug, PartialEq, Eq)]
pub enum ReaderStep {
    /// Note the time of this heartbeat and read on.
    Heartbeat,
    /// Decode the frame's payload and report the result.
    Decode,
    /// Send the request to the state actor and read on.
    Forward(ServerStateMessage),
    /// Stop reading, after sending the request, if there is one, to the
    /// state actor.
    Close(Option<ServerStateMessage>),
}

/// The mathematical value of a `ReaderStep`.
pub enum ReaderStepView {
    Heartbeat,
    Decode,
    Forward(ServerStateMessageView),
    Close(Option<ServerStateMessageView>),
}

impl View for ReaderStep {
    type V = ReaderStepView;

    open spec fn view(&self) -> ReaderStepView {
        match *self {
            ReaderStep::Heartbeat => ReaderStepView::Heartbeat,
            ReaderStep::Decode => ReaderStepView::Decode,
            ReaderStep::Forward(request) => ReaderStepView::Forward(request@),
            ReaderStep::Close(request) => ReaderStepView::Close(view_of(request)),
        }
    }
}

impl ReaderStateView {
    /// The request that tells the actor that this connection has ended: the
    /// leave of the bound name, if a name is bound.
    pub open spec fn farewell(self) -> Option<ServerStateMessageView> {
        match self {
            ReaderStateView::Active { name } => Some(
                ServerStateMessageView::UserDisconnected { name },
            ),
            _ => None,
        }
    }

    /// What to do with a frame that reads as `text`, if it reads as text at
    /// all, when `elapsed` nanoseconds have passed since the last heartbeat.
    /// The heartbeat is recognised first; a bound connection whose last
    /// heartbeat is too old is closed before the frame is looked at further.
    pub open spec fn verdict(self, text: Option<Seq<char>>, elapsed: u128) -> FrameVerdict {
        match self {
            ReaderStateView::Closed => FrameVerdict::Close,
            _ => if text == Some(heartbeat_text()) {
                FrameVerdict::Heartbeat
            } else if self is Active && elapsed > HEARTBEAT_MAX_INTERVAL {
                FrameVerdict::Close
            } else {
                FrameVerdict::Decode
            },
        }
    }

    /// The state after a frame was looked at.
    pub open spec fn after_frame(self, text: Option<Seq<char>>, elapsed: u128) -> ReaderStateView {
        if self.verdict(text, elapsed) == FrameVerdict::Close {
            ReaderStateView::Closed
        } else {
            self
        }
    }

    /// What the reader asks for a frame.
    pub open spec fn frame_step(self, text: Option<Seq<char>>, elapsed: u128) -> ReaderStepView {
        match self.verdict(text, elapsed) {
            FrameVerdict::Heartbeat => ReaderStepView::Heartbeat,
            FrameVerdict::Decode => ReaderStepView::Decode,
            FrameVerdict::Close => ReaderStepView::Close(self.farewell()),
        }
    }

    /// The request that a bound connection forwards for a decoded message;
    /// `None` for the one message that it must not send again.
    pub open spec fn request_for(name: Seq<char>, message: ClientMessageView) -> Option<
        ServerStateMessageView,
    > {
        match message {
            ClientMessageView::InitMessage { .. } => None,
            ClientMessageView::SendMessage { message } => Some(
                ServerStateMessageView::NewMessage { message, origin: MessageOrigin::Client },
            ),
            ClientMessageView::Typed => Some(ServerStateMessageView::UserTyped { name }),
            ClientMessageView::ReadMessages { earliest } => Some(
                ServerStateMessageView::UserReadMessages { user: name, earliest },
            ),
            ClientMessageView::VisibilityUpdate(state) => Some(
                ServerStateMessageView::VisibilityChanged {
                    name,
                    visible: state == VisibilityState::Visible,
                },
            ),
        }
    }

    /// The state after a payload was decoded to `decoded`, or failed to
    /// decode. A connection without a name becomes bound by the initial
    /// message and is closed by anything else; a bound one goes on unless the
    /// payload failed to decode or was a second initial message.
    pub open spec fn after_decoded(self, decoded: Option<ClientMessageView>) -> ReaderStateView {
        match self {
            ReaderStateView::AwaitingInit => match decoded {
                Some(ClientMessageView::InitMessage { name }) => ReaderStateView::Active { name },
                _ => ReaderStateView::Closed,
            },
            ReaderStateView::Active { name } => match decoded {
                Some(message) => if Self::request_for(name, message) is Some {
                    self
                } else {
                    ReaderStateView::Closed
                },
                None => ReaderStateView::Closed,
            },
            ReaderStateView::Closed => ReaderStateView::Closed,
        }
    }

    /// What the reader asks once a payload was decoded.
    pub open spec fn decoded_step(self, decoded: Option<ClientMessageView>) -> ReaderStepView {
        match self {
            ReaderStateView::AwaitingInit => match decoded {
                Some(ClientMessageView::InitMessage { name }) => ReaderStepView::Forward(
                    ServerStateMessageView::UserJoined { name },
                ),
                _ => ReaderStepView::Close(None),
            },
            ReaderStateView::Active { name } => match decoded {
                Some(message) => match Self::request_for(name, message) {
                    Some(request) => ReaderStepView::Forward(request),
                    None => ReaderStepView::Close(self.farewell()),
                },
                None => ReaderStepView::Close(self.farewell()),
            },
            ReaderStateView::Closed => ReaderStepView::Close(None),
        }
    }
}

/// The reader of one connection.
#[derive(Debug, PartialEq, Eq)]
pub struct Reader {
    state: ReaderState,
}

impl View for Reader {
    type V = ReaderStateView;

    closed spec fn view(&self) -> ReaderStateView {
        self.state@
    }
}

impl Reader {
    /// The reader of a fresh connection: no name is bound.
    pub fn new() -> (reader: Reader)
        ensures
            reader@ == ReaderStateView::AwaitingInit,
    {
        Reader { state: ReaderState::AwaitingInit }
    }

    /// The name that the connection is bound to, if it is.
    pub fn name(&self) -> (name: Option<String>)
        ensures
            view_of(name) == (match self@ {
                ReaderStateView::Active { name } => Some(name),
                _ => None,
            }),
    {
        match &self.state {
            ReaderState::Active { name } => Some(name.clone()),
            _ => None,
        }
    }

    /// Whether the connection is over.
    pub fn is_closed(&self) -> (closed: bool)
        ensures
            closed == (self@ is Closed),
    {
        match &self.state {
            ReaderState::Closed => true,
            _ => false,
        }
    }

    /// Closes the connection and gives the request that tells the actor of
    /// it, if a name was bound.
    fn close(&mut self) -> (farewell: Option<ServerStateMessage>)
        ensures
            final(self)@ == ReaderStateView::Closed,
            view_of(farewell) == old(self)@.farewell(),
    {
        let farewell = match &self.state {
            ReaderState::Active { name } => Some(
                ServerStateMessage::UserDisconnected { name: name.clone() },
            ),
            _ => None,
        };
        self.state = ReaderState::Closed;
        farewell
    }

    /// A frame arrived that reads as `text`, if it reads as text at all,
    /// `elapsed` nanoseconds after the last heartbeat.
    pub fn on_frame(&mut self, text: Option<&str>, elapsed: u128) -> (step: ReaderStep)
        ensures
            final(self)@ == old(self)@.after_frame(view_of(text), elapsed),
            step@ == old(self)@.frame_step(view_of(text), elapsed),
    {
        if self.is_closed() {
            return ReaderStep::Close(None);
        }
        let heartbeat = match text {
            Some(t) => is_heartbeat(t),
            None => false,
        };
        if heartbeat {
            return ReaderStep::Heartbeat;
        }
        let bound = match &self.state {
            ReaderState::Active { .. } => true,
            _ => false,
        };
        if bound && elapsed > HEARTBEAT_MAX_INTERVAL {
            let farewell = self.close();
            ReaderStep::Close(farewell)
        } else {
            ReaderStep::Decode
        }
    }

    /// The payload of the frame decoded to `decoded`, or failed to decode.
    pub fn on_decoded(&mut self, decoded: Option<ClientMessage>) -> (step: ReaderStep)
        ensures
            final(self)@ == old(self)@.after_decoded(view_of(decoded)),
            step@ == old(self)@.decoded_step(view_of(decoded)),
    {
        let bound = self.name();
        match bound {
            Some(name) => {
                let request = match decoded {
                    Some(ClientMessage::SendMessage { message }) => Some(
                        ServerStateMessage::NewMessage { message, origin: MessageOrigin::Client },
                    ),
                    Some(ClientMessage::Typed) => Some(ServerStateMessage::UserTyped { name }),
                    Some(ClientMessage::ReadMessages { earliest }) => Some(
                        ServerStateMessage::UserReadMessages { user: name, earliest },
                    ),
                    Some(ClientMessage::VisibilityUpdate(state)) => Some(
                        ServerStateMessage::VisibilityChanged { name, visible: state.is_visible() },
                    ),
                    Some(ClientMessage::InitMessage { .. }) => None,
                    None => None,
                };
                match request {
                    Some(request) => ReaderStep::Forward(request),
                    None => {
                        let farewell = self.close();
                        ReaderStep::Close(farewell)
                    },
                }
            },
            None => {
                if self.is_closed() {
                    return ReaderStep::Close(None);
                }
                match decoded {
                    Some(ClientMessage::InitMessage { name }) => {
                        self.state = ReaderState::Active { name: name.clone() };
                        ReaderStep::Forward(ServerStateMessage::UserJoined { name })
                    },
                    _ => {
                        self.state = ReaderState::Closed;
                        ReaderStep::Close(None)
                    },
                }
            },
        }
    }

    /// The socket ended or failed: the connection is over, and the actor is
    /// told so if a name was bound.
    pub fn on_disconnect(&mut self) -> (farewell: Option<ServerStateMessage>)
        ensures
            final(self)@ == ReaderStateView::Closed,
            view_of(farewell) == old(self)@.farewell(),
    {
        self.close()
    }

    /// The actor could not be told that the name was bound: the connection
    /// is over, and since the actor never counted it, nothing is owed.
    pub fn on_join_failed(&mut self)
        ensures
            final(self)@ == ReaderStateView::Closed,
    {
        self.state = ReaderState::Closed;
    }
}

/// Once closed, a reader stays closed and asks for nothing more: whatever
/// arrives, it forwards no request, so the leave of a name is sent once.
pub proof fn lemma_closed_is_terminal(
    text: Option<Seq<char>>,
    elapsed: u128,
    decoded: Option<ClientMessageView>,
)
    ensures
        ReaderStateView::Closed.after_frame(text, elapsed) == ReaderStateView::Closed,
        ReaderStateView::Closed.frame_step(text, elapsed) == ReaderStepView::Close(None),
        ReaderStateView::Closed.after_decoded(decoded) == ReaderStateView::Closed,
        ReaderStateView::Closed.decoded_step(decoded) == ReaderStepView::Close(None),
        ReaderStateView::Closed.farewell() == None::<ServerStateMessageView>,
{
}

/// A reader closes exactly when it asks its host to: each step that is
/// `Close` leaves it closed, and every other step leaves it in a state that
/// is not. A bound connection that closes sends the leave of its name with
/// that step.
pub proof fn lemma_close_is_announced(
    state: ReaderStateView,
    text: Option<Seq<char>>,
    elapsed: u128,
    decoded: Option<ClientMessageView>,
)
    requires
        !(state is Closed),
    ensures
        state.frame_step(text, elapsed) is Close <==> state.after_frame(text, elapsed) is Closed,
        state.decoded_step(decoded) is Close <==> state.after_decoded(decoded) is Closed,
        state.frame_step(text, elapsed) is Close ==> state.frame_step(text, elapsed)
            == ReaderStepView::Close(state.farewell()),
        state.decoded_step(decoded) is Close ==> state.decoded_step(decoded)
            == ReaderStepView::Close(state.farewell()),
{
}

/// What the writer of a connection is told.
#[derive(Debug, Clone, Copy, PartialEq, Eq, Structural)]
pub enum WriterEvent {
    /// An event arrived from the broadcast stream.
    Received,
    /// The subscription missed events because the client was too slow.
    Lagged,
    /// The broadcast stream is closed.
    StreamClosed,
    /// The event that arrived could not be encoded.
    EncodeFailed,
    /// The encoded event was written to the socket.
    Sent,
    /// The socket refused the encoded event.
    SendFailed,
}

/// What the writer asks of its host.
#[derive(Debug, Clone, Copy, PartialEq, Eq, Structural)]
pub enum WriterStep {
    /// Encode the event and write it to the socket.
    Send,
    /// Wait for the next event.
    Wait,
    /// Stop writing.
    Stop,
}

/// What the writer does on `event`: it sends what arrives, skips what cannot
/// be encoded, and stops when the client is gone or has fallen behind.
pub open spec fn writer_step(event: WriterEvent) -> WriterStep {
    match event {
        WriterEvent::Received => WriterStep::Send,
        WriterEvent::EncodeFailed | WriterEvent::Sent => WriterStep::Wait,
        WriterEvent::Lagged | WriterEvent::StreamClosed | WriterEvent::SendFailed => {
            WriterStep::Stop
        },
    }
}

/// What a writer asks on `event`: one that has stopped asks to stop,
/// whatever comes.
pub open spec fn writer_asks(stopped: bool, event: WriterEvent) -> WriterStep {
    if stopped {
        WriterStep::Stop
    } else {
        writer_step(event)
    }
}

/// Whether a writer has stopped after a run of events.
pub open spec fn writer_stopped_after(stopped: bool, events: Seq<WriterEvent>) -> bool
    decreases events.len(),
{
    if events.len() == 0 {
        stopped
    } else {
        writer_asks(writer_stopped_after(stopped, events.drop_last()), events.last())
            == WriterStep::Stop
    }
}

/// What a writer asks on each event of a run, in order.
pub open spec fn writer_steps(stopped: bool, events: Seq<WriterEvent>) -> Seq<WriterStep>
    decreases events.len(),
{
    if events.len() == 0 {
        Seq::empty()
    } else {
        writer_steps(stopped, events.drop_last()).push(
            writer_asks(writer_stopped_after(stopped, events.drop_last()), events.last()),
        )
    }
}

/// Whether `event` ends a writer's work: the client fell behind, the stream
/// closed, or the socket refused a frame.
pub open spec fn breaks(event: WriterEvent) -> bool {
    event == WriterEvent::Lagged || event == WriterEvent::StreamClosed || event
        == WriterEvent::SendFailed
}

/// A writer forwards every event. As long as the client keeps up, the stream
/// stays open and the socket takes every frame, a writer that has not stopped
/// asks for a send on each event that arrives, on it alone, and in the order
/// of arrival; it never stops.
pub proof fn lemma_writer_forwards_every_event(events: Seq<WriterEvent>)
    requires
        forall|i: int| 0 <= i < events.len() ==> !breaks(#[trigger] events[i]),
    ensures
        !writer_stopped_after(false, events),
        writer_steps(false, events).len() == events.len(),
        forall|i: int|
            0 <= i < events.len() ==> (#[trigger] writer_steps(false, events)[i]
                == WriterStep::Send) == (events[i] == WriterEvent::Received),
        forall|i: int|
            0 <= i < events.len() ==> #[trigger] writer_steps(false, events)[i]
                != WriterStep::Stop,
    decreases events.len(),
{
    if events.len() > 0 {
        let front = events.drop_last();
        assert forall|i: int| 0 <= i < front.len() implies !breaks(#[trigger] front[i]) by {
            assert(front[i] == events[i]);
        }
        lemma_writer_forwards_every_event(front);
        assert(!breaks(events[events.len() - 1]));
        assert forall|i: int| 0 <= i < events.len() implies (#[trigger] writer_steps(
            false,
            events,
        )[i] == WriterStep::Send) == (events[i] == WriterEvent::Received) && writer_steps(
            false,
            events,
        )[i] != WriterStep::Stop by {
            if i < front.len() {
                assert(writer_steps(false, events)[i] == writer_steps(false, front)[i]);
                assert(front[i] == events[i]);
            }
        }
    }
}

/// A writer stops for good. From the first event that ends its work, it asks
/// to stop on that event and on every one after it, and sends nothing more.
pub proof fn lemma_writer_stops_for_good(stopped: bool, events: Seq<WriterEvent>, broken: int)
    requires
        0 <= broken < events.len(),
        breaks(events[broken]),
    ensures
        writer_stopped_after(stopped, events),
        writer_steps(stopped, events).len() == events.len(),
        forall|i: int|
            broken <= i < events.len() ==> #[trigger] writer_steps(stopped, events)[i]
                == WriterStep::Stop,
    decreases events.len(),
{
    let front = events.drop_last();
    lemma_writer_steps_len(stopped, events);
    lemma_writer_steps_len(stopped, front);
    if broken < events.len() - 1 {
        assert(front[broken] == events[broken]);
        lemma_writer_stops_for_good(stopped, front, broken);
        assert forall|i: int| broken <= i < events.len() implies #[trigger] writer_steps(
            stopped,
            events,
        )[i] == WriterStep::Stop by {
            if i < front.len() {
                assert(writer_steps(stopped, events)[i] == writer_steps(stopped, front)[i]);
            }
        }
    } else {
        assert(events.last() == events[broken]);
    }
}

/// A writer asks once on each event of a run.
pub proof fn lemma_writer_steps_len(stopped: bool, events: Seq<WriterEvent>)
    ensures
        writer_steps(stopped, events).len() == events.len(),
    decreases events.len(),
{
    if events.len() > 0 {
        lemma_writer_steps_len(stopped, events.drop_last());
    }
}

/// The writer of one connection.
#[derive(Debug, PartialEq, Eq)]
pub struct Writer {
    stopped: bool,
}

impl Writer {
    /// Whether the writer has stopped.
    pub closed spec fn stopped(&self) -> bool {
        self.stopped
    }

    /// The writer of a fresh connection.
    pub fn new() -> (writer: Writer)
        ensures
            !writer.stopped(),
    {
        Writer { stopped: false }
    }

    /// Whether the writer has stopped.
    pub fn is_stopped(&self) -> (stopped: bool)
        ensures
            stopped == self.stopped(),
    {
        self.stopped
    }

    /// Says what to do on `event`. A writer that has stopped stays stopped.
    pub fn on_event(&mut self, event: WriterEvent) -> (step: WriterStep)
        ensures
            step == writer_asks(old(self).stopped(), event),
            final(self).stopped() == (step == WriterStep::Stop),
    {
        if self.stopped {
            return WriterStep::Stop;
        }
        let step = match event {
            WriterEvent::Received => WriterStep::Send,
            WriterEvent::EncodeFailed => WriterStep::Wait,
            WriterEvent::Sent => WriterStep::Wait,
            WriterEvent::Lagged => WriterStep::Stop,
            WriterEvent::StreamClosed => WriterStep::Stop,
            WriterEvent::SendFailed => WriterStep::Stop,
        };
        match step {
            WriterStep::Stop => {
                self.stopped = true;
            },
            _ => {},
        }
        step
    }
}

} // verus!
