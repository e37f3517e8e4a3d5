//! One client connection, from its acceptance to its end.
//!
//! A connection is a state machine. The program that owns the sockets hands
//! it what has happened, and it answers with the next piece of work. It
//! decides which reply a command gets, what the upstream handshake is given,
//! which error a failure counts as, and how the time is accounted for.

use crate::auth::{Credential, CredentialView};
use crate::timing::{lemma_record_accounts_for_all_time, monotone, record_of, TimingRecord};
use vstd::prelude::*;

verus! {

/// The phases of a connection, in the order in which they are entered.
#[derive(Clone, Copy, Debug, PartialEq, Eq, Structural)]
pub enum Phase {
    Accepted,
    Authenticating,
    Authenticated,
    AwaitingRequest,
    Dispatching,
    Relaying,
    Rejected,
    Closed,
}

/// What a client asks for.
#[derive(Clone, Copy, Debug, PartialEq, Eq, Structural)]
pub enum Command {
    Connect,
    Bind,
    UdpAssociate,
}

/// What a client is told.
#[derive(Clone, Copy, Debug, PartialEq, Eq, Structural)]
pub enum Reply {
    Succeeded,
    CommandNotSupported,
}

/// How a relay came to its end.
#[derive(Clone, Copy, Debug, PartialEq, Eq, Structural)]
pub enum RelayEnd {
    /// One side closed its stream.
    Finished,
    /// The copy broke off with an error.
    Aborted,
}

/// Why a connection was given up.
#[derive(Clone, Copy, Debug, PartialEq, Eq, Structural)]
pub enum ConnectionError {
    /// The handshake with the client did not complete.
    Authentication,
    /// The client's request could not be read.
    ProtocolDecode,
    /// Writing to the client failed.
    Io,
    /// The upstream proxy could not be reached.
    UpstreamConnect,
    /// The upstream proxy refused the CONNECT, or answered nonsense.
    UpstreamAuth,
    /// The clock could not be read, or went back.
    Clock,
    /// Something was reported that the connection had not asked for.
    OutOfOrder,
}

/// How a connection ended.
#[derive(Clone, Copy, Debug, PartialEq, Eq, Structural)]
pub enum Outcome {
    /// The command was refused and the connection shut down in order.
    Declined,
    /// Bytes were relayed until one side ended it.
    Relayed(TimingRecord),
    /// The connection was given up.
    Failed(ConnectionError),
}

/// Where a client wants to go, as text and number.
pub struct DestinationView {
    pub host: Seq<char>,
    pub port: u16,
}

/// Where a client wants to go.
#[derive(Debug, PartialEq, Eq)]
pub struct Destination {
    /// A domain name or a literal address.
    pub host: String,
    pub port: u16,
}

impl View for Destination {
    type V = DestinationView;

    open spec fn view(&self) -> DestinationView {
        DestinationView { host: self.host@, port: self.port }
    }
}

impl Clone for Destination {
    fn clone(&self) -> (copy: Destination)
        ensures
            copy@ == self@,
    {
        Destination { host: self.host.clone(), port: self.port }
    }
}

/// What has happened, as the machine sees it.
pub enum EventView {
    Start,
    Authenticated(CredentialView),
    Requested(Command, DestinationView),
    Replied,
    ShutDown,
    UpstreamConnected(u128),
    TunnelOpened(u128),
    RelayEnded(RelayEnd, u128),
    Failed,
    ClockFailed,
}

/// What has happened since the last piece of work was handed out.
#[derive(Debug, PartialEq, Eq)]
pub enum Event {
    /// The connection was accepted and is to be served.
    Start,
    /// The handshake completed and the client submitted this.
    Authenticated(Credential),
    /// The client's request was read.
    Requested(Command, Destination),
    /// The reply was written.
    Replied,
    /// The client's stream was shut down.
    ShutDown,
    /// The upstream proxy is connected; the time since the start.
    UpstreamConnected(u128),
    /// The upstream proxy accepted the CONNECT; the time since the start.
    TunnelOpened(u128),
    /// The relay is over; the time since the start.
    RelayEnded(RelayEnd, u128),
    /// The work that was asked for failed.
    Failed,
    /// The work was done, but the clock could not be read after it.
    ClockFailed,
}

impl View for Event {
    type V = EventView;

    open spec fn view(&self) -> EventView {
        match *self {
            Event::Start => EventView::Start,
            Event::Authenticated(credential) => EventView::Authenticated(credential@),
            Event::Requested(command, destination) => EventView::Requested(command, destination@),
            Event::Replied => EventView::Replied,
            Event::ShutDown => EventView::ShutDown,
            Event::UpstreamConnected(elapsed) => EventView::UpstreamConnected(elapsed),
            Event::TunnelOpened(elapsed) => EventView::TunnelOpened(elapsed),
            Event::RelayEnded(end, elapsed) => EventView::RelayEnded(end, elapsed),
            Event::Failed => EventView::Failed,
            Event::ClockFailed => EventView::ClockFailed,
        }
    }
}

/// The kinds of work a connection asks for.
#[derive(Clone, Copy, Debug, PartialEq, Eq, Structural)]
pub enum ActionKind {
    Authenticate,
    AwaitRequest,
    Reply,
    Shutdown,
    ConnectUpstream,
    OpenTunnel,
    Relay,
    Close,
}

/// A piece of work, as the machine sees it.
pub enum ActionView {
    Authenticate,
    AwaitRequest,
    Reply(Reply),
    Shutdown,
    ConnectUpstream(Seq<char>),
    OpenTunnel(DestinationView, CredentialView),
    Relay,
    Close,
}

impl ActionView {
    pub open spec fn kind(self) -> ActionKind {
        match self {
            ActionView::Authenticate => ActionKind::Authenticate,
            ActionView::AwaitRequest => ActionKind::AwaitRequest,
            ActionView::Reply(_) => ActionKind::Reply,
            ActionView::Shutdown => ActionKind::Shutdown,
            ActionView::ConnectUpstream(_) => ActionKind::ConnectUpstream,
            ActionView::OpenTunnel(_, _) => ActionKind::OpenTunnel,
            ActionView::Relay => ActionKind::Relay,
            ActionView::Close => ActionKind::Close,
        }
    }
}

/// The next piece of work for the program that owns the sockets.
#[derive(Debug, PartialEq, Eq)]
pub enum Action {
    /// Run the SOCKS5 handshake with the client.
    Authenticate,
    /// Read the client's request.
    AwaitRequest,
    /// Write this reply to the client.
    Reply(Reply),
    /// Shut the client's stream down.
    Shutdown,
    /// Start the clock and connect to the upstream proxy at this address.
    ConnectUpstream(String),
    /// Ask the upstream proxy for a tunnel to this destination, with these
    /// credentials.
    OpenTunnel(Destination, Credential),
    /// Copy bytes both ways until one side ends it.
    Relay,
    /// Close what the connection holds; there is nothing more to do.
    Close,
}

impl View for Action {
    type V = ActionView;

    open spec fn view(&self) -> ActionView {
        match *self {
            Action::Authenticate => ActionView::Authenticate,
            Action::AwaitRequest => ActionView::AwaitRequest,
            Action::Reply(reply) => ActionView::Reply(reply),
            Action::Shutdown => ActionView::Shutdown,
            Action::ConnectUpstream(address) => ActionView::ConnectUpstream(address@),
            Action::OpenTunnel(destination, credential) => ActionView::OpenTunnel(
                destination@,
                credential@,
            ),
            Action::Relay => ActionView::Relay,
            Action::Close => ActionView::Close,
        }
    }
}

impl Action {
    /// The kind of this piece of work.
    pub fn kind(&self) -> (kind: ActionKind)
        ensures
            kind == self@.kind(),
    {
        match self {
            Action::Authenticate => ActionKind::Authenticate,
            Action::AwaitRequest => ActionKind::AwaitRequest,
            Action::Reply(_) => ActionKind::Reply,
            Action::Shutdown => ActionKind::Shutdown,
            Action::ConnectUpstream(_) => ActionKind::ConnectUpstream,
            Action::OpenTunnel(_, _) => ActionKind::OpenTunnel,
            Action::Relay => ActionKind::Relay,
            Action::Close => ActionKind::Close,
        }
    }
}

/// Where a connection stands, as the machine sees it.
pub enum StateView {
    Accepted,
    Authenticating,
    AwaitingRequest(CredentialView),
    Dispatching(CredentialView, Command, DestinationView),
    Rejected,
    Connecting(CredentialView, DestinationView),
    Tunnelling(u128),
    Copying(u128, u128),
    Closed(Outcome),
}

impl StateView {
    /// The phase that the state belongs to.
    pub open spec fn phase(self) -> Phase {
        match self {
            StateView::Accepted => Phase::Accepted,
            StateView::Authenticating => Phase::Authenticating,
            StateView::AwaitingRequest(_) => Phase::AwaitingRequest,
            StateView::Dispatching(_, _, _) => Phase::Dispatching,
            StateView::Rejected => Phase::Rejected,
            StateView::Connecting(_, _) => Phase::Relaying,
            StateView::Tunnelling(_) => Phase::Relaying,
            StateView::Copying(_, _) => Phase::Relaying,
            StateView::Closed(_) => Phase::Closed,
        }
    }
}

/// Where a connection stands, with what it holds there.
#[derive(Debug, PartialEq, Eq)]
pub enum State {
    /// Accepted; nothing was asked for yet.
    Accepted,
    /// The handshake is under way.
    Authenticating,
    /// The client's request is being read.
    AwaitingRequest(Credential),
    /// The reply to the request is being written.
    Dispatching(Credential, Command, Destination),
    /// The command was refused; the stream is being shut down.
    Rejected,
    /// The upstream proxy is being connected.
    Connecting(Credential, Destination),
    /// The CONNECT is under way; connected at this time.
    Tunnelling(u128),
    /// Bytes are copied; connected and authenticated at these times.
    Copying(u128, u128),
    /// Over.
    Closed(Outcome),
}

impl View for State {
    type V = StateView;

    open spec fn view(&self) -> StateView {
        match *self {
            State::Accepted => StateView::Accepted,
            State::Authenticating => StateView::Authenticating,
            State::AwaitingRequest(credential) => StateView::AwaitingRequest(credential@),
            State::Dispatching(credential, command, destination) => StateView::Dispatching(
                credential@,
                command,
                destination@,
            ),
            State::Rejected => StateView::Rejected,
            State::Connecting(credential, destination) => StateView::Connecting(
                credential@,
                destination@,
            ),
            State::Tunnelling(connected) => StateView::Tunnelling(connected),
            State::Copying(connected, authenticated) => StateView::Copying(
                connected,
                authenticated,
            ),
            State::Closed(outcome) => StateView::Closed(outcome),
        }
    }
}

/// A connection, as the machine sees it.
pub struct ConnectionView {
    pub upstream: Seq<char>,
    pub state: StateView,
    pub trail: Seq<Phase>,
}

/// One client connection.
#[derive(Debug, PartialEq, Eq)]
pub struct Connection {
    /// Address of the upstream proxy, fixed when the connection is made.
    pub upstream: String,
    /// Where the connection stands.
    pub state: State,
    /// The phases entered so far, the latest last.
    pub trail: Vec<Phase>,
}

impl View for Connection {
    type V = ConnectionView;

    open spec fn view(&self) -> ConnectionView {
        ConnectionView { upstream: self.upstream@, state: self.state@, trail: self.trail@ }
    }
}

/// The reply that a command gets.
pub open spec fn reply_for(command: Command) -> Reply {
    match command {
        Command::Connect => Reply::Succeeded,
        Command::Bind => Reply::CommandNotSupported,
        Command::UdpAssociate => Reply::CommandNotSupported,
    }
}

/// The error that failed work counts as, by the state in which it fails.
pub open spec fn failure_in(state: StateView) -> ConnectionError {
    match state {
        StateView::Authenticating => ConnectionError::Authentication,
        StateView::AwaitingRequest(_) => ConnectionError::ProtocolDecode,
        StateView::Dispatching(_, _, _) => ConnectionError::Io,
        StateView::Rejected => ConnectionError::Io,
        StateView::Connecting(_, _) => ConnectionError::UpstreamConnect,
        StateView::Tunnelling(_) => ConnectionError::UpstreamAuth,
        _ => ConnectionError::OutOfOrder,
    }
}

/// A connection that was just accepted.
pub open spec fn initial(upstream: Seq<char>) -> ConnectionView {
    ConnectionView { upstream, state: StateView::Accepted, trail: seq![Phase::Accepted] }
}

/// The connection in a new state of a phase that it enters.
pub open spec fn entering(c: ConnectionView, state: StateView) -> ConnectionView {
    ConnectionView { upstream: c.upstream, state, trail: c.trail.push(state.phase()) }
}

/// The connection in a new state of the phase it is in.
pub open spec fn staying(c: ConnectionView, state: StateView) -> ConnectionView {
    ConnectionView { upstream: c.upstream, state, trail: c.trail }
}

/// The connection at its end, and the last piece of work.
pub open spec fn closing(c: ConnectionView, outcome: Outcome) -> (ConnectionView, ActionView) {
    (entering(c, StateView::Closed(outcome)), ActionView::Close)
}

/// What the connection becomes when `e` has happened, and the work that is
/// due then.
pub open spec fn next(c: ConnectionView, e: EventView) -> (ConnectionView, ActionView) {
    match (c.state, e) {
        (StateView::Closed(_), _) => (c, ActionView::Close),
        (StateView::Accepted, EventView::Start) => (
            entering(c, StateView::Authenticating),
            ActionView::Authenticate,
        ),
        (StateView::Authenticating, EventView::Authenticated(credential)) => (
            ConnectionView {
                upstream: c.upstream,
                state: StateView::AwaitingRequest(credential),
                trail: c.trail.push(Phase::Authenticated).push(Phase::AwaitingRequest),
            },
            ActionView::AwaitRequest,
        ),
        (StateView::AwaitingRequest(credential), EventView::Requested(command, destination)) => (
            entering(c, StateView::Dispatching(credential, command, destination)),
            ActionView::Reply(reply_for(command)),
        ),
        (StateView::Dispatching(credential, command, destination), EventView::Replied) => {
            if command == Command::Connect {
                (
                    entering(c, StateView::Connecting(credential, destination)),
                    ActionView::ConnectUpstream(c.upstream),
                )
            } else {
                (entering(c, StateView::Rejected), ActionView::Shutdown)
            }
        },
        (StateView::Rejected, EventView::ShutDown) => closing(c, Outcome::Declined),
        (StateView::Connecting(credential, destination), EventView::UpstreamConnected(at)) => (
            staying(c, StateView::Tunnelling(at)),
            ActionView::OpenTunnel(destination, credential),
        ),
        (StateView::Tunnelling(connected), EventView::TunnelOpened(at)) => {
            if connected <= at {
                (staying(c, StateView::Copying(connected, at)), ActionView::Relay)
            } else {
                closing(c, Outcome::Failed(ConnectionError::Clock))
            }
        },
        (StateView::Copying(connected, authenticated), EventView::RelayEnded(_, at)) => {
            if monotone(connected, authenticated, at) {
                closing(c, Outcome::Relayed(record_of(connected, authenticated, at)))
            } else {
                closing(c, Outcome::Failed(ConnectionError::Clock))
            }
        },
        (StateView::Connecting(_, _), EventView::ClockFailed) => closing(
            c,
            Outcome::Failed(ConnectionError::Clock),
        ),
        (StateView::Tunnelling(_), EventView::ClockFailed) => closing(
            c,
            Outcome::Failed(ConnectionError::Clock),
        ),
        (StateView::Copying(_, _), EventView::ClockFailed) => closing(
            c,
            Outcome::Failed(ConnectionError::Clock),
        ),
        (state, EventView::Failed) => closing(c, Outcome::Failed(failure_in(state))),
        _ => closing(c, Outcome::Failed(ConnectionError::OutOfOrder)),
    }
}

/// The place of a phase in the order of phases.
pub open spec fn rank(phase: Phase) -> nat {
    match phase {
        Phase::Accepted => 0,
        Phase::Authenticating => 1,
        Phase::Authenticated => 2,
        Phase::AwaitingRequest => 3,
        Phase::Dispatching => 4,
        Phase::Relaying => 5,
        Phase::Rejected => 5,
        Phase::Closed => 6,
    }
}

/// `b` may be entered from `a`: it is the phase after `a`, or the end.
pub open spec fn follows(a: Phase, b: Phase) -> bool {
    match a {
        Phase::Accepted => b == Phase::Authenticating || b == Phase::Closed,
        Phase::Authenticating => b == Phase::Authenticated || b == Phase::Closed,
        Phase::Authenticated => b == Phase::AwaitingRequest,
        Phase::AwaitingRequest => b == Phase::Dispatching || b == Phase::Closed,
        Phase::Dispatching => b == Phase::Relaying || b == Phase::Rejected || b == Phase::Closed,
        Phase::Relaying => b == Phase::Closed,
        Phase::Rejected => b == Phase::Closed,
        Phase::Closed => false,
    }
}

/// What holds of a connection however it got where it is: its trail starts
/// at acceptance, moves by one phase at a time or to the end, and ends in
/// the phase the connection is in; the clock readings it holds do not go
/// back.
pub open spec fn wf(c: ConnectionView) -> bool {
    &&& c.trail.len() >= 1
    &&& c.trail[0] == Phase::Accepted
    &&& c.trail.last() == c.state.phase()
    &&& forall|i: int| 0 < i < c.trail.len() ==> follows(c.trail[i - 1], #[trigger] c.trail[i])
    &&& (c.state matches StateView::Copying(connected, authenticated) ==> connected
        <= authenticated)
    &&& (c.state matches StateView::Closed(Outcome::Relayed(record)) ==> record.wf())
}

/// A new connection is well-formed.
pub proof fn lemma_initial_wf(upstream: Seq<char>)
    ensures
        wf(initial(upstream)),
{
}

/// A step keeps a connection well-formed.
pub proof fn lemma_step_keeps_wf(c: ConnectionView, e: EventView)
    requires
        wf(c),
    ensures
        wf(next(c, e).0),
{
    let n = next(c, e).0;
    let old_len = c.trail.len() as int;
    assert(forall|i: int| 0 <= i < old_len ==> n.trail[i] == c.trail[i]);
    assert forall|i: int| 0 < i < n.trail.len() implies follows(
        n.trail[i - 1],
        #[trigger] n.trail[i],
    ) by {
        if i < old_len {
            assert(follows(c.trail[i - 1], c.trail[i]));
        }
    }
    if let StateView::Copying(connected, authenticated) = c.state {
        if let EventView::RelayEnded(_, at) = e {
            if monotone(connected, authenticated, at) {
                lemma_record_accounts_for_all_time(connected, authenticated, at);
            }
        }
    }
}

/// A step never takes a phase back: the trail so far stays, and what is
/// added to it comes later in the order of phases.
pub proof fn lemma_step_extends_trail(c: ConnectionView, e: EventView)
    ensures
        c.trail.is_prefix_of(next(c, e).0.trail),
        rank(c.state.phase()) <= rank(next(c, e).0.state.phase()),
        next(c, e).0.upstream == c.upstream,
{
    let n = next(c, e).0;
    assert(n.trail.subrange(0, c.trail.len() as int) =~= c.trail);
}

impl Command {
    /// The reply that this command gets: success for `Connect`, a refusal
    /// for the others.
    pub fn reply(self) -> (reply: Reply)
        ensures
            reply == reply_for(self),
    {
        match self {
            Command::Connect => Reply::Succeeded,
            Command::Bind => Reply::CommandNotSupported,
            Command::UdpAssociate => Reply::CommandNotSupported,
        }
    }
}

impl State {
    /// The phase that the state belongs to.
    pub fn phase(&self) -> (phase: Phase)
        ensures
            phase == self@.phase(),
    {
        match self {
            State::Accepted => Phase::Accepted,
            State::Authenticating => Phase::Authenticating,
            State::AwaitingRequest(_) => Phase::AwaitingRequest,
            State::Dispatching(_, _, _) => Phase::Dispatching,
            State::Rejected => Phase::Rejected,
            State::Connecting(_, _) => Phase::Relaying,
            State::Tunnelling(_) => Phase::Relaying,
            State::Copying(_, _) => Phase::Relaying,
            State::Closed(_) => Phase::Closed,
        }
    }

    /// The error that failed work counts as in this state.
    pub fn failure(&self) -> (error: ConnectionError)
        ensures
            error == failure_in(self@),
    {
        match self {
            State::Authenticating => ConnectionError::Authentication,
            State::AwaitingRequest(_) => ConnectionError::ProtocolDecode,
            State::Dispatching(_, _, _) => ConnectionError::Io,
            State::Rejected => ConnectionError::Io,
            State::Connecting(_, _) => ConnectionError::UpstreamConnect,
            State::Tunnelling(_) => ConnectionError::UpstreamAuth,
            _ => ConnectionError::OutOfOrder,
        }
    }
}

impl Connection {
    /// A connection that was just accepted, to be tunnelled through the
    /// proxy at `upstream`.
    pub fn new(upstream: String) -> (connection: Connection)
        ensures
            connection@ == initial(upstream@),
            wf(connection@),
    {
        let mut trail: Vec<Phase> = Vec::new();
        trail.push(Phase::Accepted);
        let connection = Connection { upstream, state: State::Accepted, trail };
        assert(connection@.trail =~= seq![Phase::Accepted]);
        connection
    }

    /// The phase the connection is in.
    pub fn phase(&self) -> (phase: Phase)
        ensures
            phase == self@.state.phase(),
    {
        self.state.phase()
    }

    /// How the connection ended, once it has.
    pub fn outcome(&self) -> (outcome: Option<Outcome>)
        ensures
            outcome == match self@.state {
                StateView::Closed(o) => Some(o),
                _ => None,
            },
    {
        match &self.state {
            State::Closed(outcome) => Some(*outcome),
            _ => None,
        }
    }

    fn enter(upstream: String, trail: Vec<Phase>, state: State) -> (connection: Connection)
        ensures
            connection@ == (ConnectionView {
                upstream: upstream@,
                state: state@,
                trail: trail@.push(state@.phase()),
            }),
    {
        let mut trail = trail;
        trail.push(state.phase());
        Connection { upstream, state, trail }
    }

    fn close(upstream: String, trail: Vec<Phase>, outcome: Outcome) -> (end: (Connection, Action))
        ensures
            end.0@ == (ConnectionView {
                upstream: upstream@,
                state: StateView::Closed(outcome),
                trail: trail@.push(Phase::Closed),
            }),
            end.1@ == ActionView::Close,
    {
        (Connection::enter(upstream, trail, State::Closed(outcome)), Action::Close)
    }

    /// Takes in what has happened and hands out the work that is due.
    ///
    /// Work that fails ends the connection with the error of the state it
    /// failed in; so does anything that was not asked for. A closed
    /// connection stays as it is.
    pub fn handle(self, event: Event) -> (then: (Connection, Action))
        ensures
            (then.0@, then.1@) == next(self@, event@),
            wf(self@) ==> wf(then.0@),
    {
        proof {
            if wf(self@) {
                lemma_step_keeps_wf(self@, event@);
            }
        }
        let Connection { upstream, state, trail } = self;
        match (state, event) {
            (State::Closed(outcome), _) => (
                Connection { upstream, state: State::Closed(outcome), trail },
                Action::Close,
            ),
            (State::Accepted, Event::Start) => (
                Connection::enter(upstream, trail, State::Authenticating),
                Action::Authenticate,
            ),
            (State::Authenticating, Event::Authenticated(credential)) => {
                let mut trail = trail;
                trail.push(Phase::Authenticated);
                (
                    Connection::enter(upstream, trail, State::AwaitingRequest(credential)),
                    Action::AwaitRequest,
                )
            },
            (State::AwaitingRequest(credential), Event::Requested(command, destination)) => (
                Connection::enter(
                    upstream,
                    trail,
                    State::Dispatching(credential, command, destination),
                ),
                Action::Reply(command.reply()),
            ),
            (State::Dispatching(credential, command, destination), Event::Replied) => {
                match command {
                    Command::Connect => {
                        let address = upstream.clone();
                        (
                            Connection::enter(
                                upstream,
                                trail,
                                State::Connecting(credential, destination),
                            ),
                            Action::ConnectUpstream(address),
                        )
                    },
                    _ => (Connection::enter(upstream, trail, State::Rejected), Action::Shutdown),
                }
            },
            (State::Rejected, Event::ShutDown) => Connection::close(
                upstream,
                trail,
                Outcome::Declined,
            ),
            (State::Connecting(credential, destination), Event::UpstreamConnected(at)) => (
                Connection { upstream, state: State::Tunnelling(at), trail },
                Action::OpenTunnel(destination, credential),
            ),
            (State::Tunnelling(connected), Event::TunnelOpened(at)) => {
                if connected <= at {
                    (
                        Connection { upstream, state: State::Copying(connected, at), trail },
                        Action::Relay,
                    )
                } else {
                    Connection::close(upstream, trail, Outcome::Failed(ConnectionError::Clock))
                }
            },
            (State::Copying(connected, authenticated), Event::RelayEnded(_, at)) => {
                match TimingRecord::from_samples(connected, authenticated, at) {
                    Some(record) => Connection::close(upstream, trail, Outcome::Relayed(record)),
                    None => Connection::close(
                        upstream,
                        trail,
                        Outcome::Failed(ConnectionError::Clock),
                    ),
                }
            },
            (State::Connecting(_, _), Event::ClockFailed) => Connection::close(
                upstream,
                trail,
                Outcome::Failed(ConnectionError::Clock),
            ),
            (State::Tunnelling(_), Event::ClockFailed) => Connection::close(
                upstream,
                trail,
                Outcome::Failed(ConnectionError::Clock),
            ),
            (State::Copying(_, _), Event::ClockFailed) => Connection::close(
                upstream,
                trail,
                Outcome::Failed(ConnectionError::Clock),
            ),
            (state, Event::Failed) => {
                let error = state.failure();
                Connection::close(upstream, trail, Outcome::Failed(error))
            },
            _ => Connection::close(upstream, trail, Outcome::Failed(ConnectionError::OutOfOrder)),
        }
    }
}

} // verus!
