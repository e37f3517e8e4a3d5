//! The listener: where it binds, what it does with each accepted
//! connection, and what with an accept that failed.
//!
//! A listener that cannot bind serves nothing. One that is bound never
//! stops: each accepted connection is handed to a task of its own, and an
//! accept that fails is reported and followed by the next.

use vstd::prelude::*;

verus! {

/// The addresses of a bridge, given when it is made.
#[derive(Debug, PartialEq, Eq)]
pub struct Config {
    /// Where SOCKS5 clients connect. Keep it local: whoever can reach it
    /// is served.
    pub listen: String,
    /// The HTTP proxy that every tunnel goes through.
    pub upstream: String,
}

/// The addresses of a bridge, as text.
pub struct ConfigView {
    pub listen: Seq<char>,
    pub upstream: Seq<char>,
}

impl View for Config {
    type V = ConfigView;

    open spec fn view(&self) -> ConfigView {
        ConfigView { listen: self.listen@, upstream: self.upstream@ }
    }
}

impl Config {
    /// A bridge from `listen` to the proxy at `upstream`.
    pub fn new(listen: String, upstream: String) -> (config: Config)
        ensures
            config@ == (ConfigView { listen: listen@, upstream: upstream@ }),
    {
        Config { listen, upstream }
    }
}

impl Default for Config {
    /// A bridge on the loopback interface.
    fn default() -> (config: Config)
        ensures
            config@ == (ConfigView {
                listen: "127.0.0.1:42000"@,
                upstream: "http.yourproxyprovider.com:40000"@,
            }),
    {
        Config {
            listen: "127.0.0.1:42000".to_owned(),
            upstream: "http.yourproxyprovider.com:40000".to_owned(),
        }
    }
}

/// Why a listener could not be bound.
#[derive(Clone, Copy, Debug, PartialEq, Eq, Structural)]
pub enum BindError {
    /// The address is no socket address.
    InvalidAddress,
    /// Another socket has the address.
    AddressInUse,
    /// The process may not bind there.
    PermissionDenied,
    /// Anything else the system said.
    Other,
}

/// Where a listener stands.
#[derive(Clone, Copy, Debug, PartialEq, Eq, Structural)]
pub enum Listener {
    /// Made; nothing was asked for yet.
    Idle,
    /// The socket is being bound.
    Binding,
    /// Bound and accepting.
    Listening,
    /// Could not be bound; nothing will be served.
    Failed(BindError),
}

/// What has happened at the listening socket.
#[derive(Clone, Copy, Debug, PartialEq, Eq, Structural)]
pub enum ListenerEvent {
    /// The bridge is to be started.
    Start,
    /// The socket is bound.
    Bound,
    /// The socket could not be bound.
    BindFailed(BindError),
    /// A client connected.
    Accepted,
    /// An accept failed.
    AcceptFailed,
}

/// What the program that owns the socket is to do next.
#[derive(Clone, Copy, Debug, PartialEq, Eq, Structural)]
pub enum ListenerAction {
    /// Bind the listening address.
    Bind,
    /// Accept the next connection.
    Accept,
    /// Start a task for the connection just accepted, then accept the
    /// next.
    Serve,
    /// Report the failed accept, then accept the next.
    Report,
    /// Give up: the bridge cannot start.
    Abort(BindError),
    /// Nothing: what was reported means nothing here.
    Wait,
}

/// The listener after `e` has happened, and the work that is due then.
pub open spec fn listener_next(l: Listener, e: ListenerEvent) -> (Listener, ListenerAction) {
    match (l, e) {
        (Listener::Failed(error), _) => (l, ListenerAction::Abort(error)),
        (Listener::Idle, ListenerEvent::Start) => (Listener::Binding, ListenerAction::Bind),
        (Listener::Binding, ListenerEvent::Bound) => (Listener::Listening, ListenerAction::Accept),
        (Listener::Binding, ListenerEvent::BindFailed(error)) => (
            Listener::Failed(error),
            ListenerAction::Abort(error),
        ),
        (Listener::Listening, ListenerEvent::Accepted) => (
            Listener::Listening,
            ListenerAction::Serve,
        ),
        (Listener::Listening, ListenerEvent::AcceptFailed) => (
            Listener::Listening,
            ListenerAction::Report,
        ),
        _ => (l, ListenerAction::Wait),
    }
}

impl Listener {
    /// A listener that has not been started.
    pub fn new() -> (listener: Listener)
        ensures
            listener == Listener::Idle,
    {
        Listener::Idle
    }

    /// Takes in what has happened and hands out the work that is due.
    ///
    /// A failed bind is the end. A failed accept is not: the listener goes
    /// on accepting.
    pub fn handle(self, event: ListenerEvent) -> (then: (Listener, ListenerAction))
        ensures
            then == listener_next(self, event),
    {
        match (self, event) {
            (Listener::Failed(error), _) => (self, ListenerAction::Abort(error)),
            (Listener::Idle, ListenerEvent::Start) => (Listener::Binding, ListenerAction::Bind),
            (Listener::Binding, ListenerEvent::Bound) => (
                Listener::Listening,
                ListenerAction::Accept,
            ),
            (Listener::Binding, ListenerEvent::BindFailed(error)) => (
                Listener::Failed(error),
                ListenerAction::Abort(error),
            ),
            (Listener::Listening, ListenerEvent::Accepted) => (
                Listener::Listening,
                ListenerAction::Serve,
            ),
            (Listener::Listening, ListenerEvent::AcceptFailed) => (
                Listener::Listening,
                ListenerAction::Report,
            ),
            _ => (self, ListenerAction::Wait),
        }
    }

    /// Whether connections are being accepted.
    pub fn is_listening(&self) -> (listening: bool)
        ensures
            listening == (*self == Listener::Listening),
    {
        match self {
            Listener::Listening => true,
            _ => false,
        }
    }
}

/// The listener after `events`, and the work handed out on the way.
pub open spec fn listener_run(l: Listener, events: Seq<ListenerEvent>) -> (
    Listener,
    Seq<ListenerAction>,
)
    decreases events.len(),
{
    if events.len() == 0 {
        (l, Seq::empty())
    } else {
        let first = listener_next(l, events[0]);
        let rest = listener_run(first.0, events.drop_first());
        (rest.0, seq![first.1] + rest.1)
    }
}

/// How many connections were accepted.
pub open spec fn accepted(events: Seq<ListenerEvent>) -> nat
    decreases events.len(),
{
    if events.len() == 0 {
        0
    } else {
        let here: nat = if events[0] == ListenerEvent::Accepted {
            1
        } else {
            0
        };
        here + accepted(events.drop_first())
    }
}

/// How many tasks were started.
pub open spec fn served(actions: Seq<ListenerAction>) -> nat
    decreases actions.len(),
{
    if actions.len() == 0 {
        0
    } else {
        let here: nat = if actions[0] == ListenerAction::Serve {
            1
        } else {
            0
        };
        here + served(actions.drop_first())
    }
}

/// A bound listener never stops, whatever is reported to it, failed
/// accepts included; and it starts one task for each connection accepted.
pub proof fn lemma_listening_goes_on(events: Seq<ListenerEvent>)
    ensures
        listener_run(Listener::Listening, events).0 == Listener::Listening,
        served(listener_run(Listener::Listening, events).1) == accepted(events),
        forall|i: int|
            0 <= i < events.len() ==> !(#[trigger] listener_run(Listener::Listening, events).1[i]
                is Abort),
        listener_run(Listener::Listening, events).1.len() == events.len(),
    decreases events.len(),
{
    if events.len() > 0 {
        let first = listener_next(Listener::Listening, events[0]);
        let rest = listener_run(Listener::Listening, events.drop_first());
        lemma_listening_goes_on(events.drop_first());
        assert((seq![first.1] + rest.1).drop_first() =~= rest.1);
        assert forall|i: int| 0 <= i < events.len() implies !(#[trigger] listener_run(
            Listener::Listening,
            events,
        ).1[i] is Abort) by {
            if i > 0 {
                assert((seq![first.1] + rest.1)[i] == rest.1[i - 1]);
            }
        }
    }
}

/// A listener that could not be bound serves nothing, ever: it stays
/// failed and all it asks for is to give up.
pub proof fn lemma_failed_bind_serves_nothing(error: BindError, events: Seq<ListenerEvent>)
    ensures
        listener_run(Listener::Failed(error), events).0 == Listener::Failed(error),
        served(listener_run(Listener::Failed(error), events).1) == 0,
        forall|i: int|
            0 <= i < events.len() ==> #[trigger] listener_run(Listener::Failed(error), events).1[i]
                == ListenerAction::Abort(error),
        listener_run(Listener::Failed(error), events).1.len() == events.len(),
    decreases events.len(),
{
    if events.len() > 0 {
        let first = listener_next(Listener::Failed(error), events[0]);
        let rest = listener_run(Listener::Failed(error), events.drop_first());
        lemma_failed_bind_serves_nothing(error, events.drop_first());
        assert((seq![first.1] + rest.1).drop_first() =~= rest.1);
        assert forall|i: int| 0 <= i < events.len() implies #[trigger] listener_run(
            Listener::Failed(error),
            events,
        ).1[i] == ListenerAction::Abort(error) by {
            if i > 0 {
                assert((seq![first.1] + rest.1)[i] == rest.1[i - 1]);
            }
        }
    }
}

/// Nothing is served through a socket that is not bound: a task is started
/// only by a listener that is listening.
pub proof fn lemma_serves_only_when_listening(l: Listener, e: ListenerEvent)
    ensures
        listener_next(l, e).1 == ListenerAction::Serve <==> l == Listener::Listening && e
            == ListenerEvent::Accepted,
        listener_next(l, e).0 == Listener::Listening ==> l == Listener::Listening || (l
            == Listener::Binding && e == ListenerEvent::Bound),
{
}

} // verus!
