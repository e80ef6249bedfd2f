//! What holds of the state actor over whole runs of requests, and of a
//! connection together with it.
//!
//! Each law is stated over the actor's model and proved from its transition
//! functions. Since `ServerState::handle` follows the model on every request
//! that its counters have room for, the laws hold of every such run of the
//! executable actor.

use vstd::prelude::*;
use crate::actor::{
    nothing, only_broadcast, OutcomeView, ServerStateMessageView, ServerStateView,
    TypingTimerView,
};
use crate::actor::MessageOrigin;
use crate::connection::{ReaderStateView, ReaderStepView};
use crate::names::{lemma_with_name_contains, lemma_without_contains, with_name};
use crate::render::rendered_body;
use crate::socket::{ClientMessageView, ServerMessageView, UserMessageView};

verus! {

impl ServerStateView {
    /// The state after a run of requests, handled in order.
    pub open spec fn after_all(self, requests: Seq<ServerStateMessageView>) -> ServerStateView
        decreases requests.len(),
    {
        if requests.len() == 0 {
            self
        } else {
            self.after_all(requests.drop_last()).after(requests.last())
        }
    }

    /// What follows from each request of a run, in order.
    pub open spec fn outcomes(self, requests: Seq<ServerStateMessageView>) -> Seq<OutcomeView>
        decreases requests.len(),
    {
        if requests.len() == 0 {
            Seq::empty()
        } else {
            self.outcomes(requests.drop_last()).push(
                self.after_all(requests.drop_last()).outcome(requests.last()),
            )
        }
    }

    /// Whether the counters leave room for every request of a run when its
    /// turn comes.
    pub open spec fn accepts_all(self, requests: Seq<ServerStateMessageView>) -> bool
        decreases requests.len(),
    {
        if requests.len() == 0 {
            true
        } else {
            self.accepts_all(requests.drop_last()) && self.after_all(
                requests.drop_last(),
            ).accepts(requests.last())
        }
    }
}

/// The id of the message that an outcome broadcasts as added, if it does.
pub open spec fn sent_id(outcome: OutcomeView) -> Option<u32> {
    match outcome.broadcast {
        Some(ServerMessageView::MessageSent { message }) => Some(message.id),
        _ => None,
    }
}

/// The ids of the messages that a run of outcomes broadcasts as added, in
/// order.
pub open spec fn sent_ids(outcomes: Seq<OutcomeView>) -> Seq<u32>
    decreases outcomes.len(),
{
    if outcomes.len() == 0 {
        Seq::empty()
    } else {
        match sent_id(outcomes.last()) {
            Some(id) => sent_ids(outcomes.drop_last()).push(id),
            None => sent_ids(outcomes.drop_last()),
        }
    }
}

/// The number of new messages among the requests of a run.
pub open spec fn new_messages(requests: Seq<ServerStateMessageView>) -> nat
    decreases requests.len(),
{
    if requests.len() == 0 {
        0
    } else if requests.last() is NewMessage {
        new_messages(requests.drop_last()) + 1
    } else {
        new_messages(requests.drop_last())
    }
}

/// `count` times the same request.
pub open spec fn repeated(request: ServerStateMessageView, count: nat) -> Seq<
    ServerStateMessageView,
> {
    Seq::new(count, |i: int| request)
}

/// A sound state is sound after any run that it has room for.
pub proof fn lemma_run_keeps_wf(state: ServerStateView, requests: Seq<ServerStateMessageView>)
    requires
        state.wf(),
        state.accepts_all(requests),
    ensures
        state.after_all(requests).wf(),
    decreases requests.len(),
{
    if requests.len() > 0 {
        lemma_run_keeps_wf(state, requests.drop_last());
        state.after_all(requests.drop_last()).lemma_after_wf(requests.last());
    }
}

/// Message ids count up. Over any run of requests, the ids given to the new
/// messages are, in order, the next id of the starting state, the one after
/// it, and so on: strictly increasing, without gap or repeat. Every new
/// message of the run gets one, and the next id afterwards is the first that
/// was not given. This holds as long as the ids fit their machine type.
pub proof fn lemma_ids_count_up(state: ServerStateView, requests: Seq<ServerStateMessageView>)
    requires
        state.next_id + new_messages(requests) <= u32::MAX + 1,
    ensures
        sent_ids(state.outcomes(requests)).len() == new_messages(requests),
        forall|k: int|
            0 <= k < new_messages(requests) ==> #[trigger] sent_ids(state.outcomes(requests))[k]
                == state.next_id + k,
        state.after_all(requests).next_id == state.next_id + new_messages(requests),
    decreases requests.len(),
{
    if requests.len() > 0 {
        let front = requests.drop_last();
        lemma_ids_count_up(state, front);
        let before = state.after_all(front);
        assert(state.outcomes(requests).drop_last() =~= state.outcomes(front));
        assert(state.outcomes(requests).last() == before.outcome(requests.last()));
    }
}

/// A run during which `name` stays typing under its pulse of generation
/// `generation`: no request of it is a typing pulse of `name`, nor the expiry
/// of that very pulse.
pub open spec fn leaves_pulse_alone(
    requests: Seq<ServerStateMessageView>,
    name: Seq<char>,
    generation: nat,
) -> bool {
    forall|i: int|
        0 <= i < requests.len() ==> #[trigger] requests[i] != (ServerStateMessageView::UserTyped {
            name,
        }) && requests[i] != (ServerStateMessageView::TypingExpired { name, generation })
}

/// Whether an outcome tells the clients that `name` started or stopped
/// typing.
pub open spec fn tells_of_typing(outcome: OutcomeView, name: Seq<char>) -> bool {
    ||| outcome.broadcast == Some(ServerMessageView::UserTyping { user: name })
    ||| outcome.broadcast == Some(ServerMessageView::UserStoppedTyping { user: name })
}

/// While a run leaves a pulse alone, its name stays typing under it, and
/// neither a start nor a stop of that name is broadcast.
proof fn lemma_pulse_stays(
    state: ServerStateView,
    requests: Seq<ServerStateMessageView>,
    name: Seq<char>,
    generation: nat,
)
    requires
        state.typing.contains(name),
        state.latest_pulse_is(name, generation),
        leaves_pulse_alone(requests, name, generation),
    ensures
        state.after_all(requests).typing.contains(name),
        state.after_all(requests).latest_pulse_is(name, generation),
        forall|i: int|
            0 <= i < requests.len() ==> !tells_of_typing(
                #[trigger] state.outcomes(requests)[i],
                name,
            ),
    decreases requests.len(),
{
    if requests.len() > 0 {
        let front = requests.drop_last();
        let last = requests.last();
        assert(last == requests[requests.len() - 1]);
        assert forall|i: int| 0 <= i < front.len() implies #[trigger] front[i] != (
        ServerStateMessageView::UserTyped { name }) && front[i] != (
        ServerStateMessageView::TypingExpired { name, generation }) by {
            assert(front[i] == requests[i]);
        }
        lemma_pulse_stays(state, front, name, generation);
        lemma_outcomes_len(state, front);
        let before = state.after_all(front);
        match last {
            ServerStateMessageView::UserTyped { name: other } => {
                lemma_with_name_contains(before.typing, other, name);
            },
            ServerStateMessageView::TypingExpired { name: other, generation: g } => {
                lemma_without_contains(before.typing, other, name);
            },
            _ => {},
        }
        assert(!tells_of_typing(before.outcome(last), name));
        assert forall|i: int| 0 <= i < requests.len() implies !tells_of_typing(
            #[trigger] state.outcomes(requests)[i],
            name,
        ) by {
            if i < front.len() {
                assert(state.outcomes(requests)[i] == state.outcomes(front)[i]);
            }
        }
    }
}

/// The length of a run's outcomes is the length of the run.
pub proof fn lemma_outcomes_len(state: ServerStateView, requests: Seq<ServerStateMessageView>)
    ensures
        state.outcomes(requests).len() == requests.len(),
    decreases requests.len(),
{
    if requests.len() > 0 {
        lemma_outcomes_len(state, requests.drop_last());
    }
}

/// A typing pulse that no other follows ends in exactly one stop. A typing
/// pulse of `name` is broadcast as its start of typing if it was not typing,
/// and starts a timer. Let then any run pass in which `name` sends no further
/// pulse. No request of that run makes the actor broadcast that `name`
/// started or stopped typing; the expiry of the pulse's timer makes it
/// broadcast the stop; and a second expiry of the same timer would be silent.
pub proof fn lemma_lone_pulse_stops_once(
    state: ServerStateView,
    name: Seq<char>,
    requests: Seq<ServerStateMessageView>,
)
    requires
        leaves_pulse_alone(requests, name, state.next_generation(name)),
    ensures
        ({
            let pulse = ServerStateMessageView::UserTyped { name };
            let generation = state.next_generation(name);
            let expiry = ServerStateMessageView::TypingExpired { name, generation };
            let waiting = state.after(pulse).after_all(requests);
            &&& state.outcome(pulse).timer == Some(TypingTimerView { name, generation })
            &&& state.outcome(pulse).broadcast == (if state.typing.contains(name) {
                None
            } else {
                Some(ServerMessageView::UserTyping { user: name })
            })
            &&& forall|i: int|
                0 <= i < requests.len() ==> !tells_of_typing(
                    #[trigger] state.after(pulse).outcomes(requests)[i],
                    name,
                )
            &&& waiting.typing.contains(name)
            &&& waiting.latest_pulse_is(name, generation)
            &&& waiting.outcome(expiry) == only_broadcast(
                ServerMessageView::UserStoppedTyping { user: name },
            )
            &&& waiting.after(expiry).outcome(expiry) == nothing()
        }),
{
    let pulse = ServerStateMessageView::UserTyped { name };
    let generation = state.next_generation(name);
    let started = state.after(pulse);
    lemma_with_name_contains(state.typing, name, name);
    lemma_pulse_stays(started, requests, name, generation);
    let waiting = started.after_all(requests);
    lemma_without_contains(waiting.typing, name, name);
}

/// The later of two pulses decides. Let `name` send a typing pulse, then,
/// after a run without a pulse of its own, a second one, and none after that.
/// The second pulse is not broadcast, since `name` is typing already, and its
/// timer has the next generation. Whatever comes after it, the expiry of the
/// first timer among it, no stop of `name` is broadcast until the second
/// timer runs out; that expiry is broadcast as the one stop, and the expiry
/// of the first timer stays silent and changes nothing.
pub proof fn lemma_later_pulse_decides(
    state: ServerStateView,
    name: Seq<char>,
    between: Seq<ServerStateMessageView>,
    later: Seq<ServerStateMessageView>,
)
    requires
        leaves_pulse_alone(between, name, state.next_generation(name)),
        leaves_pulse_alone(later, name, state.next_generation(name) + 1),
    ensures
        ({
            let pulse = ServerStateMessageView::UserTyped { name };
            let first = state.next_generation(name);
            let second = first + 1;
            let again = state.after(pulse).after_all(between);
            let restarted = again.after(pulse);
            let waiting = restarted.after_all(later);
            let first_expiry = ServerStateMessageView::TypingExpired { name, generation: first };
            let second_expiry = ServerStateMessageView::TypingExpired {
                name,
                generation: second,
            };
            &&& again.outcome(pulse).broadcast is None
            &&& again.outcome(pulse).timer == Some(TypingTimerView { name, generation: second })
            &&& forall|i: int|
                0 <= i < later.len() ==> !tells_of_typing(
                    #[trigger] restarted.outcomes(later)[i],
                    name,
                )
            &&& waiting.outcome(first_expiry) == nothing()
            &&& waiting.after(first_expiry) == waiting
            &&& waiting.outcome(second_expiry) == only_broadcast(
                ServerMessageView::UserStoppedTyping { user: name },
            )
            &&& waiting.after(second_expiry).outcome(second_expiry) == nothing()
        }),
{
    let pulse = ServerStateMessageView::UserTyped { name };
    lemma_lone_pulse_stops_once(state, name, between);
    let again = state.after(pulse).after_all(between);
    assert(again.next_generation(name) == state.next_generation(name) + 1);
    lemma_lone_pulse_stops_once(again, name, later);
}

/// The generation of a name's latest pulse never falls, and rises with every
/// pulse of that name.
proof fn lemma_generation_grows(
    state: ServerStateView,
    requests: Seq<ServerStateMessageView>,
    name: Seq<char>,
)
    requires
        state.generations.dom().contains(name),
    ensures
        state.after_all(requests).generations.dom().contains(name),
        state.after_all(requests).generations[name] >= state.generations[name],
        requests.contains(ServerStateMessageView::UserTyped { name }) ==> state.after_all(
            requests,
        ).generations[name] > state.generations[name],
    decreases requests.len(),
{
    if requests.len() > 0 {
        let front = requests.drop_last();
        lemma_generation_grows(state, front, name);
        let pulse = ServerStateMessageView::UserTyped { name };
        if requests.contains(pulse) && requests.last() != pulse {
            let i = choose|i: int| 0 <= i < requests.len() && requests[i] == pulse;
            assert(front[i] == pulse);
        }
    }
}

/// A superseded typing timer is silent. If `name` sends a further typing
/// pulse after the one of generation `generation`, the expiry of that earlier
/// pulse's timer broadcasts nothing and changes nothing, whenever it comes.
pub proof fn lemma_superseded_timer_is_silent(
    state: ServerStateView,
    name: Seq<char>,
    generation: nat,
    requests: Seq<ServerStateMessageView>,
)
    requires
        state.latest_pulse_is(name, generation),
        requests.contains(ServerStateMessageView::UserTyped { name }),
    ensures
        ({
            let expiry = ServerStateMessageView::TypingExpired { name, generation };
            let later = state.after_all(requests);
            &&& later.outcome(expiry) == nothing()
            &&& later.after(expiry) == later
        }),
{
    lemma_generation_grows(state, requests, name);
}

/// Presence counts connections. From a state in which `name` has `held`
/// connections, `joins` joins of `name` followed by `leaves` of its leaves, no
/// more than the joins, leave it with `held + joins - leaves` connections, and
/// it is online exactly if that is more than none. So a name that was not
/// online is still reported after N joins and N - 1 leaves, and the Nth leave
/// removes it.
pub proof fn lemma_presence_counts_connections(
    state: ServerStateView,
    name: Seq<char>,
    joins: nat,
    leaves: nat,
)
    requires
        state.wf(),
        state.count(name) + joins <= u64::MAX,
        leaves <= joins,
    ensures
        ({
            let joined = state.after_all(
                repeated(ServerStateMessageView::UserJoined { name }, joins),
            );
            let left = joined.after_all(
                repeated(ServerStateMessageView::UserDisconnected { name }, leaves),
            );
            &&& state.accepts_all(repeated(ServerStateMessageView::UserJoined { name }, joins))
            &&& left.wf()
            &&& left.count(name) == state.count(name) + joins - leaves
            &&& left.online.contains(name) <==> state.count(name) + joins - leaves > 0
        }),
{
    lemma_joins(state, name, joins);
    let joined = state.after_all(repeated(ServerStateMessageView::UserJoined { name }, joins));
    lemma_leaves(joined, name, leaves);
}

/// Each join of a name adds one to its connections.
proof fn lemma_joins(state: ServerStateView, name: Seq<char>, joins: nat)
    requires
        state.wf(),
        state.count(name) + joins <= u64::MAX,
    ensures
        ({
            let run = repeated(ServerStateMessageView::UserJoined { name }, joins);
            &&& state.accepts_all(run)
            &&& state.after_all(run).wf()
            &&& state.after_all(run).count(name) == state.count(name) + joins
        }),
    decreases joins,
{
    let join = ServerStateMessageView::UserJoined { name };
    if joins > 0 {
        lemma_joins(state, name, (joins - 1) as nat);
        assert(repeated(join, joins).drop_last() =~= repeated(join, (joins - 1) as nat));
        assert(repeated(join, joins).last() == join);
        state.after_all(repeated(join, (joins - 1) as nat)).lemma_after_wf(join);
    }
}

/// Each leave of a name with connections takes one away, and the name is
/// online while any is left.
proof fn lemma_leaves(state: ServerStateView, name: Seq<char>, leaves: nat)
    requires
        state.wf(),
        leaves <= state.count(name),
    ensures
        ({
            let after = state.after_all(
                repeated(ServerStateMessageView::UserDisconnected { name }, leaves),
            );
            &&& after.wf()
            &&& after.count(name) == state.count(name) - leaves
            &&& after.online.contains(name) <==> after.count(name) > 0
        }),
    decreases leaves,
{
    let leave = ServerStateMessageView::UserDisconnected { name };
    if leaves > 0 {
        lemma_leaves(state, name, (leaves - 1) as nat);
        assert(repeated(leave, leaves).drop_last() =~= repeated(leave, (leaves - 1) as nat));
        assert(repeated(leave, leaves).last() == leave);
        state.after_all(repeated(leave, (leaves - 1) as nat)).lemma_after_wf(leave);
    }
}

/// The number of joins of `name` among the requests of a run.
pub open spec fn joins_of(requests: Seq<ServerStateMessageView>, name: Seq<char>) -> nat
    decreases requests.len(),
{
    if requests.len() == 0 {
        0
    } else if requests.last() == (ServerStateMessageView::UserJoined { name }) {
        joins_of(requests.drop_last(), name) + 1
    } else {
        joins_of(requests.drop_last(), name)
    }
}

/// The number of leaves of `name` among the requests of a run.
pub open spec fn leaves_of(requests: Seq<ServerStateMessageView>, name: Seq<char>) -> nat
    decreases requests.len(),
{
    if requests.len() == 0 {
        0
    } else if requests.last() == (ServerStateMessageView::UserDisconnected { name }) {
        leaves_of(requests.drop_last(), name) + 1
    } else {
        leaves_of(requests.drop_last(), name)
    }
}

/// Whether every leave of `name` in a run finds it with a connection, so that
/// none is met by the floor of zero.
pub open spec fn leaves_only_present(
    state: ServerStateView,
    requests: Seq<ServerStateMessageView>,
    name: Seq<char>,
) -> bool
    decreases requests.len(),
{
    if requests.len() == 0 {
        true
    } else {
        &&& leaves_only_present(state, requests.drop_last(), name)
        &&& requests.last() == (ServerStateMessageView::UserDisconnected { name })
            ==> state.after_all(requests.drop_last()).count(name) > 0
    }
}

/// Presence counts connections over any run. Whatever else is handled in
/// between, and of whichever other names, the connections of `name` after a
/// run are those it had, and its joins, less its leaves, as long as every
/// leave found it with a connection; and it is online exactly while it has
/// one.
pub proof fn lemma_presence_counts_over_runs(
    state: ServerStateView,
    requests: Seq<ServerStateMessageView>,
    name: Seq<char>,
)
    requires
        state.wf(),
        state.accepts_all(requests),
        leaves_only_present(state, requests, name),
    ensures
        state.after_all(requests).count(name) + leaves_of(requests, name) == state.count(name)
            + joins_of(requests, name),
        state.after_all(requests).online.contains(name) <==> state.after_all(requests).count(name)
            > 0,
    decreases requests.len(),
{
    lemma_run_keeps_wf(state, requests);
    if requests.len() > 0 {
        let front = requests.drop_last();
        lemma_presence_counts_over_runs(state, front, name);
        lemma_run_keeps_wf(state, front);
    }
}

/// Read receipts are relayed as they come. Whatever the state, a read receipt
/// is broadcast with the reader and the id that it came with, and the state
/// stays as it is.
pub proof fn lemma_read_receipt_is_relayed(state: ServerStateView, user: Seq<char>, earliest: u32)
    ensures
        state.outcome(ServerStateMessageView::UserReadMessages { user, earliest })
            == only_broadcast(ServerMessageView::MessagesRead { by_user: user, earliest }),
        state.after(ServerStateMessageView::UserReadMessages { user, earliest }) == state,
{
}

/// A client that joins and sends is seen to join and then to have sent. A
/// fresh connection that announces `name` and then sends `message` has the
/// actor told of the join and then of the message, in that order. The actor
/// answers the join with the snapshot of the online names, `name` among them,
/// and the message with its broadcast: the message as it came, but with the
/// next id in place of its own and its body rendered. On an actor that has
/// seen no message, that id is 0.
pub proof fn lemma_join_then_send(state: ServerStateView, name: Seq<char>, message: UserMessageView)
    requires
        state.wf(),
    ensures
        ({
            let fresh = ReaderStateView::AwaitingInit;
            let announced = Some(ClientMessageView::InitMessage { name });
            let sending = Some(ClientMessageView::SendMessage { message });
            let bound = fresh.after_decoded(announced);
            let joined = ServerStateMessageView::UserJoined { name };
            let sent = ServerStateMessageView::NewMessage {
                message,
                origin: MessageOrigin::Client,
            };
            &&& fresh.decoded_step(announced) == ReaderStepView::Forward(joined)
            &&& bound == (ReaderStateView::Active { name })
            &&& bound.decoded_step(sending) == ReaderStepView::Forward(sent)
            &&& bound.after_decoded(sending) == bound
            &&& state.outcome(joined) == only_broadcast(
                ServerMessageView::OnlineUsersUpdate { users: with_name(state.online, name) },
            )
            &&& with_name(state.online, name).contains(name)
            &&& state.after(joined).outcome(sent).broadcast == Some(
                ServerMessageView::MessageSent {
                    message: UserMessageView {
                        id: state.next_id as u32,
                        message: rendered_body(message.message),
                        ..message
                    },
                },
            )
            &&& state.next_id as u32 == state.next_id
            &&& state.after(joined).after(sent).next_id == state.next_id + 1
        }),
{
    lemma_with_name_contains(state.online, name, name);
}

} // verus!
