//! Whole runs of a connection, and what holds of every one of them.
//!
//! A run feeds a sequence of events to a connection and collects the work it
//! hands out. The statements here hold whatever the events are: they bind a
//! program that reports truthfully as much as one that does not.

use crate::auth::CredentialView;
use crate::connection::{
    closing, failure_in, follows, initial, lemma_step_extends_trail, lemma_step_keeps_wf, next,
    rank, reply_for, wf, ActionKind, ActionView, Command, ConnectionError, ConnectionView,
    DestinationView, EventView, Outcome, Phase, RelayEnd, Reply, StateView,
};
use crate::timing::{monotone, record_of};
use vstd::prelude::*;

verus! {

/// The connection after `events`, and the work handed out on the way.
pub open spec fn run(c: ConnectionView, events: Seq<EventView>) -> (ConnectionView, Seq<ActionView>)
    decreases events.len(),
{
    if events.len() == 0 {
        (c, Seq::empty())
    } else {
        let first = next(c, events[0]);
        let rest = run(first.0, events.drop_first());
        (rest.0, seq![first.1] + rest.1)
    }
}

/// How often work of one kind occurs.
pub open spec fn occurrences(actions: Seq<ActionView>, kind: ActionKind) -> nat
    decreases actions.len(),
{
    if actions.len() == 0 {
        0
    } else {
        let here: nat = if actions[0].kind() == kind {
            1
        } else {
            0
        };
        here + occurrences(actions.drop_first(), kind)
    }
}

/// How often work of a kind may still be asked for from a state on.
/// Closing is left out: it is repeated whenever a closed connection is
/// stepped.
pub open spec fn budget(state: StateView, kind: ActionKind) -> nat
    recommends
        kind != ActionKind::Close,
{
    let before_request = state is Accepted || state is Authenticating || state is AwaitingRequest;
    let before_connect = before_request || (state matches StateView::Dispatching(_, command, _)
        && command == Command::Connect);
    let due = match kind {
        ActionKind::Authenticate => state is Accepted,
        ActionKind::AwaitRequest => state is Accepted || state is Authenticating,
        ActionKind::Reply => before_request,
        ActionKind::Shutdown => before_request || (state matches StateView::Dispatching(
            _,
            command,
            _,
        ) && command != Command::Connect),
        ActionKind::ConnectUpstream => before_connect,
        ActionKind::OpenTunnel => before_connect || state is Connecting,
        ActionKind::Relay => before_connect || state is Connecting || state is Tunnelling,
        ActionKind::Close => false,
    };
    if due {
        1
    } else {
        0
    }
}

/// The credential that a state holds.
pub open spec fn held_credential(state: StateView) -> Option<CredentialView> {
    match state {
        StateView::AwaitingRequest(credential) => Some(credential),
        StateView::Dispatching(credential, _, _) => Some(credential),
        StateView::Connecting(credential, _) => Some(credential),
        _ => None,
    }
}

/// Along the trail of a well-formed connection the phases only ascend, so
/// none is entered twice and there are at most seven.
pub proof fn lemma_trail_ascends(c: ConnectionView)
    requires
        wf(c),
    ensures
        forall|i: int, j: int|
            0 <= i < j < c.trail.len() ==> rank(#[trigger] c.trail[i]) < rank(
                #[trigger] c.trail[j],
            ),
        c.trail.len() <= 7,
{
    assert forall|i: int, j: int| 0 <= i < j < c.trail.len() implies rank(#[trigger] c.trail[i])
        < rank(#[trigger] c.trail[j]) by {
        lemma_trail_ascends_between(c, i, j);
    }
    let last = c.trail.len() - 1;
    if last > 0 {
        lemma_trail_rank_at_least(c, last);
    }
}

proof fn lemma_trail_ascends_between(c: ConnectionView, i: int, j: int)
    requires
        wf(c),
        0 <= i < j < c.trail.len(),
    ensures
        rank(c.trail[i]) < rank(c.trail[j]),
    decreases j - i,
{
    assert(follows(c.trail[j - 1], c.trail[j]));
    if i < j - 1 {
        lemma_trail_ascends_between(c, i, j - 1);
    }
}

proof fn lemma_trail_rank_at_least(c: ConnectionView, i: int)
    requires
        wf(c),
        0 <= i < c.trail.len(),
    ensures
        rank(c.trail[i]) >= i,
    decreases i,
{
    if i > 0 {
        assert(follows(c.trail[i - 1], c.trail[i]));
        lemma_trail_rank_at_least(c, i - 1);
    }
}

/// A step uses up what it asks for: work of a kind that is handed out is
/// taken from what may still be asked for.
pub proof fn lemma_step_spends_budget(c: ConnectionView, e: EventView, kind: ActionKind)
    requires
        kind != ActionKind::Close,
    ensures
        occurrences(seq![next(c, e).1], kind) + budget(next(c, e).0.state, kind) <= budget(
            c.state,
            kind,
        ),
{
    lemma_occurrences_of_one(next(c, e).1, kind);
}

/// A single piece of work occurs once as its own kind and not as another.
pub proof fn lemma_occurrences_of_one(a: ActionView, kind: ActionKind)
    ensures
        occurrences(seq![a], kind) == if a.kind() == kind {
            1nat
        } else {
            0nat
        },
{
    assert(seq![a].drop_first() =~= Seq::<ActionView>::empty());
    assert(occurrences(seq![a].drop_first(), kind) == 0);
    assert(seq![a][0] == a);
}

/// Work occurs in two runs of actions as often as in both together.
pub proof fn lemma_occurrences_add_up(x: Seq<ActionView>, y: Seq<ActionView>, kind: ActionKind)
    ensures
        occurrences(x + y, kind) == occurrences(x, kind) + occurrences(y, kind),
    decreases x.len(),
{
    if x.len() == 0 {
        assert(x + y =~= y);
    } else {
        assert((x + y).drop_first() =~= x.drop_first() + y);
        lemma_occurrences_add_up(x.drop_first(), y, kind);
    }
}

/// A run of one event and then more is that step, then the rest.
pub proof fn lemma_run_first(c: ConnectionView, e: EventView, rest: Seq<EventView>)
    ensures
        run(c, seq![e] + rest).0 == run(next(c, e).0, rest).0,
        run(c, seq![e] + rest).1 == seq![next(c, e).1] + run(next(c, e).0, rest).1,
{
    let events = seq![e] + rest;
    assert(events[0] == e);
    assert(events.drop_first() =~= rest);
}

/// Two runs in a row are one run.
pub proof fn lemma_run_in_parts(c: ConnectionView, a: Seq<EventView>, b: Seq<EventView>)
    ensures
        run(c, a + b).0 == run(run(c, a).0, b).0,
        run(c, a + b).1 == run(c, a).1 + run(run(c, a).0, b).1,
    decreases a.len(),
{
    if a.len() == 0 {
        assert(a + b =~= b);
        assert(run(c, a).1 + run(c, b).1 =~= run(c, b).1);
    } else {
        let m = next(c, a[0]);
        assert((a + b)[0] == a[0]);
        assert((a + b).drop_first() =~= a.drop_first() + b);
        lemma_run_in_parts(m.0, a.drop_first(), b);
        assert(seq![m.1] + (run(m.0, a.drop_first()).1 + run(run(c, a).0, b).1) =~= (seq![m.1]
            + run(m.0, a.drop_first()).1) + run(run(c, a).0, b).1);
    }
}

/// Every event is answered with one piece of work.
pub proof fn lemma_run_answers_each(c: ConnectionView, events: Seq<EventView>)
    ensures
        run(c, events).1.len() == events.len(),
    decreases events.len(),
{
    if events.len() > 0 {
        lemma_run_answers_each(next(c, events[0]).0, events.drop_first());
    }
}

/// A run keeps a connection well-formed, keeps its trail and its upstream
/// address, and never takes a phase back.
pub proof fn lemma_run_keeps_wf(c: ConnectionView, events: Seq<EventView>)
    requires
        wf(c),
    ensures
        wf(run(c, events).0),
        c.trail.is_prefix_of(run(c, events).0.trail),
        rank(c.state.phase()) <= rank(run(c, events).0.state.phase()),
        run(c, events).0.upstream == c.upstream,
    decreases events.len(),
{
    if events.len() > 0 {
        let m = next(c, events[0]).0;
        lemma_step_keeps_wf(c, events[0]);
        lemma_step_extends_trail(c, events[0]);
        lemma_run_keeps_wf(m, events.drop_first());
        let n = run(c, events).0;
        assert(n.trail.subrange(0, c.trail.len() as int) =~= m.trail.subrange(
            0,
            m.trail.len() as int,
        ).subrange(0, c.trail.len() as int)) by {
            assert(n.trail.subrange(0, m.trail.len() as int) == m.trail);
            assert(m.trail.subrange(0, c.trail.len() as int) == c.trail);
        }
        assert(m.trail.subrange(0, m.trail.len() as int) =~= m.trail);
    } else {
        assert(c.trail.subrange(0, c.trail.len() as int) =~= c.trail);
    }
}

/// In every run, from whatever state, each kind of work but closing is
/// asked for at most as often as the state allows: at most once, and not at
/// all once its turn has passed. So a connection runs one handshake, reads
/// one request, writes one reply and opens at most one tunnel.
pub proof fn lemma_run_spends_budget(c: ConnectionView, events: Seq<EventView>, kind: ActionKind)
    requires
        kind != ActionKind::Close,
    ensures
        occurrences(run(c, events).1, kind) + budget(run(c, events).0.state, kind) <= budget(
            c.state,
            kind,
        ),
        occurrences(run(c, events).1, kind) <= 1,
    decreases events.len(),
{
    if events.len() > 0 {
        let first = next(c, events[0]);
        let rest = run(first.0, events.drop_first());
        lemma_step_spends_budget(c, events[0], kind);
        lemma_run_spends_budget(first.0, events.drop_first(), kind);
        lemma_occurrences_add_up(seq![first.1], rest.1, kind);
    }
}

/// The credential a connection holds is never exchanged for another, and
/// the upstream handshake is given the credential that was held and the
/// destination that was asked for, at the fixed upstream address.
pub proof fn lemma_step_keeps_credential(c: ConnectionView, e: EventView)
    ensures
        held_credential(c.state) matches Some(credential) ==> (held_credential(next(c, e).0.state)
            matches Some(kept) ==> kept == credential),
        held_credential(c.state) is None && held_credential(next(c, e).0.state) is Some ==> (
        c.state is Authenticating && e == EventView::Authenticated(
            held_credential(next(c, e).0.state).unwrap(),
        )),
        next(c, e).1 matches ActionView::OpenTunnel(destination, credential) ==> c.state
            == StateView::Connecting(credential, destination),
        next(c, e).1 matches ActionView::ConnectUpstream(address) ==> address == c.upstream,
{
}

/// The reply is decided by the command alone, and is written once whatever
/// comes after: success for `Connect`, though the upstream tunnel may yet
/// fail, and a refusal for the others, which never reach the upstream
/// proxy.
pub proof fn lemma_reply_follows_command(
    c: ConnectionView,
    command: Command,
    destination: DestinationView,
    after: Seq<EventView>,
)
    requires
        c.state is AwaitingRequest,
    ensures
        ({
            let then = run(c, seq![EventView::Requested(command, destination)] + after);
            &&& then.1[0] == ActionView::Reply(reply_for(command))
            &&& occurrences(then.1, ActionKind::Reply) == 1
            &&& command == Command::Connect ==> then.1[0] == ActionView::Reply(Reply::Succeeded)
            &&& command != Command::Connect ==> {
                &&& then.1[0] == ActionView::Reply(Reply::CommandNotSupported)
                &&& occurrences(then.1, ActionKind::ConnectUpstream) == 0
                &&& occurrences(then.1, ActionKind::OpenTunnel) == 0
                &&& occurrences(then.1, ActionKind::Relay) == 0
                &&& then.0.state.phase() != Phase::Relaying
            }
        }),
{
    let e = EventView::Requested(command, destination);
    let first = next(c, e);
    let rest = run(first.0, after);
    lemma_run_first(c, e, after);
    assert((seq![first.1] + rest.1)[0] == first.1);
    lemma_occurrences_of_one(first.1, ActionKind::Reply);
    lemma_occurrences_add_up(seq![first.1], rest.1, ActionKind::Reply);
    lemma_run_spends_budget(first.0, after, ActionKind::Reply);
    if command != Command::Connect {
        lemma_refused_stays_away(first.0, after);
        lemma_occurrences_of_one(first.1, ActionKind::ConnectUpstream);
        lemma_occurrences_of_one(first.1, ActionKind::OpenTunnel);
        lemma_occurrences_of_one(first.1, ActionKind::Relay);
        lemma_occurrences_add_up(seq![first.1], rest.1, ActionKind::ConnectUpstream);
        lemma_occurrences_add_up(seq![first.1], rest.1, ActionKind::OpenTunnel);
        lemma_occurrences_add_up(seq![first.1], rest.1, ActionKind::Relay);
        lemma_run_spends_budget(first.0, after, ActionKind::ConnectUpstream);
        lemma_run_spends_budget(first.0, after, ActionKind::OpenTunnel);
        lemma_run_spends_budget(first.0, after, ActionKind::Relay);
    }
}

/// A state from which the relay can no longer be reached.
pub open spec fn refused(state: StateView) -> bool {
    ||| (state matches StateView::Dispatching(_, command, _) && command != Command::Connect)
    ||| state is Rejected
    ||| state is Closed
}

/// Once a command is refused, or the connection is over, no run leads to
/// the relay.
pub proof fn lemma_refused_stays_away(c: ConnectionView, events: Seq<EventView>)
    requires
        refused(c.state),
    ensures
        refused(run(c, events).0.state),
    decreases events.len(),
{
    if events.len() > 0 {
        lemma_refused_stays_away(next(c, events[0]).0, events.drop_first());
    }
}

/// The same, told of a whole connection: whatever happened before the
/// request and whatever happens after it, one reply is written, it is the
/// one that the command calls for, and a refused command leaves the
/// upstream proxy alone.
pub proof fn lemma_connection_replies_once(
    upstream: Seq<char>,
    before: Seq<EventView>,
    command: Command,
    destination: DestinationView,
    after: Seq<EventView>,
)
    requires
        run(initial(upstream), before).0.state is AwaitingRequest,
    ensures
        ({
            let events = before + (seq![EventView::Requested(command, destination)] + after);
            let then = run(initial(upstream), events);
            &&& then.1.len() == events.len()
            &&& then.1[before.len() as int] == ActionView::Reply(reply_for(command))
            &&& occurrences(then.1, ActionKind::Reply) == 1
            &&& command != Command::Connect ==> {
                &&& occurrences(then.1, ActionKind::ConnectUpstream) == 0
                &&& occurrences(then.1, ActionKind::OpenTunnel) == 0
                &&& occurrences(then.1, ActionKind::Relay) == 0
                &&& then.0.state.phase() != Phase::Relaying
            }
        }),
{
    let start = initial(upstream);
    let tail = seq![EventView::Requested(command, destination)] + after;
    let first = run(start, before);
    let second = run(first.0, tail);
    lemma_run_in_parts(start, before, tail);
    lemma_run_answers_each(start, before);
    lemma_run_answers_each(start, before + tail);
    lemma_run_answers_each(first.0, tail);
    lemma_reply_follows_command(first.0, command, destination, after);
    lemma_run_spends_budget(start, before, ActionKind::Reply);
    lemma_run_spends_budget(start, before, ActionKind::ConnectUpstream);
    lemma_run_spends_budget(start, before, ActionKind::OpenTunnel);
    lemma_run_spends_budget(start, before, ActionKind::Relay);
    lemma_occurrences_add_up(first.1, second.1, ActionKind::Reply);
    lemma_occurrences_add_up(first.1, second.1, ActionKind::ConnectUpstream);
    lemma_occurrences_add_up(first.1, second.1, ActionKind::OpenTunnel);
    lemma_occurrences_add_up(first.1, second.1, ActionKind::Relay);
}

/// However a relay ends, the connection is closed by it and nothing else is
/// asked for; how it ended makes no difference. With a clock that did not
/// go back it counts as relayed, with its time accounted for, and not as a
/// failure.
pub proof fn lemma_relay_end_closes(c: ConnectionView, end: RelayEnd, at: u128)
    requires
        c.state is Copying,
    ensures
        next(c, EventView::RelayEnded(end, at)).0.state is Closed,
        next(c, EventView::RelayEnded(end, at)).1 == ActionView::Close,
        next(c, EventView::RelayEnded(end, at)) == next(
            c,
            EventView::RelayEnded(RelayEnd::Finished, at),
        ),
        c.state matches StateView::Copying(connected, authenticated) ==> (monotone(
            connected,
            authenticated,
            at,
        ) ==> next(c, EventView::RelayEnded(end, at)).0.state == StateView::Closed(
            Outcome::Relayed(record_of(connected, authenticated, at)),
        )),
{
}

/// A closed connection stays as it is, and all it asks for is to be closed.
pub proof fn lemma_closed_stays(c: ConnectionView, events: Seq<EventView>)
    requires
        c.state is Closed,
    ensures
        run(c, events).0 == c,
        forall|i: int| 0 <= i < events.len() ==> #[trigger] run(c, events).1[i] == ActionView::Close,
        run(c, events).1.len() == events.len(),
    decreases events.len(),
{
    if events.len() > 0 {
        lemma_closed_stays(c, events.drop_first());
    }
}

/// Whatever fails, the connection is closed at once, with the error of the
/// state it failed in.
pub proof fn lemma_failure_closes(c: ConnectionView)
    requires
        !(c.state is Closed),
    ensures
        next(c, EventView::Failed) == closing(
            c,
            Outcome::Failed(failure_in(c.state)),
        ),
        next(c, EventView::Failed).0.state is Closed,
        c.state is Connecting ==> next(c, EventView::Failed).0.state == StateView::Closed(
            Outcome::Failed(ConnectionError::UpstreamConnect),
        ),
        c.state is Tunnelling ==> next(c, EventView::Failed).0.state == StateView::Closed(
            Outcome::Failed(ConnectionError::UpstreamAuth),
        ),
{
}

/// What is reported of a `Connect` that gets as far as the upstream proxy.
pub open spec fn connect_events(
    credential: CredentialView,
    destination: DestinationView,
    connected: u128,
) -> Seq<EventView> {
    seq![
        EventView::Start,
        EventView::Authenticated(credential),
        EventView::Requested(Command::Connect, destination),
        EventView::Replied,
        EventView::UpstreamConnected(connected),
    ]
}

/// Whatever pair a client submitted and wherever it wants to go, the
/// client is told of success before the upstream proxy is touched, the
/// proxy connected is the fixed one, and its handshake is given that
/// destination and that pair, unchanged.
pub proof fn lemma_tunnel_gets_what_was_submitted(
    upstream: Seq<char>,
    credential: CredentialView,
    destination: DestinationView,
    connected: u128,
)
    ensures
        run(initial(upstream), connect_events(credential, destination, connected)).1 == seq![
            ActionView::Authenticate,
            ActionView::AwaitRequest,
            ActionView::Reply(Reply::Succeeded),
            ActionView::ConnectUpstream(upstream),
            ActionView::OpenTunnel(destination, credential),
        ],
        run(initial(upstream), connect_events(credential, destination, connected)).0.state
            == StateView::Tunnelling(connected),
{
    let e1 = EventView::Start;
    let e2 = EventView::Authenticated(credential);
    let e3 = EventView::Requested(Command::Connect, destination);
    let e4 = EventView::Replied;
    let e5 = EventView::UpstreamConnected(connected);
    let none = Seq::<EventView>::empty();
    let c0 = initial(upstream);
    let c1 = next(c0, e1).0;
    let c2 = next(c1, e2).0;
    let c3 = next(c2, e3).0;
    let c4 = next(c3, e4).0;
    let c5 = next(c4, e5).0;
    let t5 = seq![e5] + none;
    let t4 = seq![e4] + t5;
    let t3 = seq![e3] + t4;
    let t2 = seq![e2] + t3;
    let t1 = seq![e1] + t2;
    assert(connect_events(credential, destination, connected) =~= t1);
    lemma_run_first(c0, e1, t2);
    lemma_run_first(c1, e2, t3);
    lemma_run_first(c2, e3, t4);
    lemma_run_first(c3, e4, t5);
    lemma_run_first(c4, e5, none);
    assert(run(c5, none).1 =~= Seq::<ActionView>::empty());
    assert(run(c0, t1).1 =~= seq![
        ActionView::Authenticate,
        ActionView::AwaitRequest,
        ActionView::Reply(Reply::Succeeded),
        ActionView::ConnectUpstream(upstream),
        ActionView::OpenTunnel(destination, credential),
    ]);
}

/// The relay is entered from one place only: by a `Connect` whose reply
/// was written. No other command gets there, and none without a reply.
pub proof fn lemma_relay_only_for_connect(c: ConnectionView, e: EventView)
    requires
        c.state.phase() != Phase::Relaying,
        next(c, e).0.state.phase() == Phase::Relaying,
    ensures
        c.state matches StateView::Dispatching(credential, command, destination) && command
            == Command::Connect && e == EventView::Replied && next(c, e).0.state
            == StateView::Connecting(credential, destination) && next(c, e).1
            == ActionView::ConnectUpstream(c.upstream),
{
}

} // verus!
