use socks2http::auth::Credential;
use socks2http::connection::{
    Action, ActionKind, Command, Connection, ConnectionError, Destination, Event, Outcome, Phase,
    RelayEnd, Reply, State,
};
use socks2http::timing::TimingRecord;

const UPSTREAM: &str = "proxy.example:3128";

fn credential() -> Credential {
    Credential { username: "alice".to_string(), password: "secret".to_string() }
}

fn destination() -> Destination {
    Destination { host: "example.com".to_string(), port: 443 }
}

fn drive(events: Vec<Event>) -> (Connection, Vec<Action>) {
    let mut connection = Connection::new(UPSTREAM.to_string());
    let mut actions = Vec::new();
    for event in events {
        let (then, action) = connection.handle(event);
        connection = then;
        actions.push(action);
    }
    (connection, actions)
}

fn up_to_request() -> Vec<Event> {
    vec![Event::Start, Event::Authenticated(credential())]
}

fn up_to_reply(command: Command) -> Vec<Event> {
    let mut events = up_to_request();
    events.push(Event::Requested(command, destination()));
    events
}

fn up_to_connect() -> Vec<Event> {
    let mut events = up_to_reply(Command::Connect);
    events.push(Event::Replied);
    events
}

fn count(actions: &[Action], kind: ActionKind) -> usize {
    actions.iter().filter(|action| action.kind() == kind).count()
}

#[test]
fn starts_accepted() {
    let connection = Connection::new(UPSTREAM.to_string());
    assert_eq!(connection.phase(), Phase::Accepted);
    assert_eq!(connection.state, State::Accepted);
    assert_eq!(connection.trail, vec![Phase::Accepted]);
    assert_eq!(connection.upstream, UPSTREAM);
    assert_eq!(connection.outcome(), None);
}

#[test]
fn replies_by_command() {
    assert_eq!(Command::Connect.reply(), Reply::Succeeded);
    assert_eq!(Command::Bind.reply(), Reply::CommandNotSupported);
    assert_eq!(Command::UdpAssociate.reply(), Reply::CommandNotSupported);
}

#[test]
fn keeps_the_credential_it_captured() {
    let (connection, actions) = drive(up_to_request());
    assert_eq!(actions, vec![Action::Authenticate, Action::AwaitRequest]);
    assert_eq!(connection.state, State::AwaitingRequest(credential()));
    assert_eq!(connection.phase(), Phase::AwaitingRequest);
    assert_eq!(
        connection.trail,
        vec![Phase::Accepted, Phase::Authenticating, Phase::Authenticated, Phase::AwaitingRequest]
    );
}

#[test]
fn keeps_an_empty_credential() {
    let empty = Credential { username: String::new(), password: String::new() };
    let (connection, _) = drive(vec![Event::Start, Event::Authenticated(empty.clone())]);
    assert_eq!(connection.state, State::AwaitingRequest(empty));
}

#[test]
fn relays_a_connect() {
    let mut events = up_to_connect();
    events.push(Event::UpstreamConnected(50));
    events.push(Event::TunnelOpened(120));
    events.push(Event::RelayEnded(RelayEnd::Finished, 1500));
    let (connection, actions) = drive(events);
    assert_eq!(
        actions,
        vec![
            Action::Authenticate,
            Action::AwaitRequest,
            Action::Reply(Reply::Succeeded),
            Action::ConnectUpstream(UPSTREAM.to_string()),
            Action::OpenTunnel(destination(), credential()),
            Action::Relay,
            Action::Close,
        ]
    );
    assert_eq!(
        connection.outcome(),
        Some(Outcome::Relayed(TimingRecord {
            connect_latency: 50,
            auth_latency: 70,
            relay_duration: 1380,
        }))
    );
    assert_eq!(
        connection.trail,
        vec![
            Phase::Accepted,
            Phase::Authenticating,
            Phase::Authenticated,
            Phase::AwaitingRequest,
            Phase::Dispatching,
            Phase::Relaying,
            Phase::Closed,
        ]
    );
}

#[test]
fn passes_through_the_relay_states() {
    let (connection, _) = drive(up_to_reply(Command::Connect));
    assert_eq!(
        connection.state,
        State::Dispatching(credential(), Command::Connect, destination())
    );
    let (connection, _) = connection.handle(Event::Replied);
    assert_eq!(connection.state, State::Connecting(credential(), destination()));
    assert_eq!(connection.phase(), Phase::Relaying);
    let (connection, _) = connection.handle(Event::UpstreamConnected(5));
    assert_eq!(connection.state, State::Tunnelling(5));
    assert_eq!(connection.phase(), Phase::Relaying);
    let (connection, _) = connection.handle(Event::TunnelOpened(5));
    assert_eq!(connection.state, State::Copying(5, 5));
    assert_eq!(connection.phase(), Phase::Relaying);
    let (connection, _) = connection.handle(Event::RelayEnded(RelayEnd::Finished, 5));
    assert_eq!(connection.phase(), Phase::Closed);
    assert_eq!(
        connection.outcome(),
        Some(Outcome::Relayed(TimingRecord {
            connect_latency: 5,
            auth_latency: 0,
            relay_duration: 0,
        }))
    );
}

#[test]
fn refuses_bind_and_udp_associate() {
    for command in [Command::Bind, Command::UdpAssociate] {
        let mut events = up_to_reply(command);
        events.push(Event::Replied);
        events.push(Event::ShutDown);
        let (connection, actions) = drive(events);
        assert_eq!(
            actions,
            vec![
                Action::Authenticate,
                Action::AwaitRequest,
                Action::Reply(Reply::CommandNotSupported),
                Action::Shutdown,
                Action::Close,
            ]
        );
        assert_eq!(connection.outcome(), Some(Outcome::Declined));
        assert_eq!(
            connection.trail,
            vec![
                Phase::Accepted,
                Phase::Authenticating,
                Phase::Authenticated,
                Phase::AwaitingRequest,
                Phase::Dispatching,
                Phase::Rejected,
                Phase::Closed,
            ]
        );
        assert_eq!(count(&actions, ActionKind::Reply), 1);
        assert_eq!(count(&actions, ActionKind::ConnectUpstream), 0);
        assert_eq!(count(&actions, ActionKind::OpenTunnel), 0);
        assert_eq!(count(&actions, ActionKind::Relay), 0);
    }
}

#[test]
fn a_refused_command_never_reaches_upstream() {
    let mut events = up_to_reply(Command::Bind);
    events.push(Event::Replied);
    events.push(Event::UpstreamConnected(1));
    events.push(Event::TunnelOpened(2));
    events.push(Event::RelayEnded(RelayEnd::Finished, 3));
    let (connection, actions) = drive(events);
    assert_eq!(connection.outcome(), Some(Outcome::Failed(ConnectionError::OutOfOrder)));
    assert_eq!(count(&actions, ActionKind::ConnectUpstream), 0);
    assert_eq!(count(&actions, ActionKind::OpenTunnel), 0);
    assert_eq!(count(&actions, ActionKind::Relay), 0);
    assert_eq!(count(&actions, ActionKind::Reply), 1);
}

#[test]
fn ends_the_same_however_the_relay_ended() {
    let mut finished = up_to_connect();
    finished.push(Event::UpstreamConnected(10));
    finished.push(Event::TunnelOpened(20));
    finished.push(Event::RelayEnded(RelayEnd::Finished, 30));
    let mut aborted = up_to_connect();
    aborted.push(Event::UpstreamConnected(10));
    aborted.push(Event::TunnelOpened(20));
    aborted.push(Event::RelayEnded(RelayEnd::Aborted, 30));
    let (finished, finished_actions) = drive(finished);
    let (aborted, aborted_actions) = drive(aborted);
    assert_eq!(finished, aborted);
    assert_eq!(finished_actions, aborted_actions);
    assert_eq!(finished_actions.last(), Some(&Action::Close));
    assert_eq!(
        aborted.outcome(),
        Some(Outcome::Relayed(TimingRecord {
            connect_latency: 10,
            auth_latency: 10,
            relay_duration: 10,
        }))
    );
}

#[test]
fn fails_with_the_error_of_the_state() {
    let failed = |mut events: Vec<Event>| {
        events.push(Event::Failed);
        let (connection, actions) = drive(events);
        assert_eq!(actions.last(), Some(&Action::Close));
        assert_eq!(connection.phase(), Phase::Closed);
        connection.outcome()
    };
    assert_eq!(failed(vec![]), Some(Outcome::Failed(ConnectionError::OutOfOrder)));
    assert_eq!(failed(vec![Event::Start]), Some(Outcome::Failed(ConnectionError::Authentication)));
    assert_eq!(failed(up_to_request()), Some(Outcome::Failed(ConnectionError::ProtocolDecode)));
    assert_eq!(failed(up_to_reply(Command::Connect)), Some(Outcome::Failed(ConnectionError::Io)));
    assert_eq!(failed(up_to_reply(Command::Bind)), Some(Outcome::Failed(ConnectionError::Io)));
    let mut rejected = up_to_reply(Command::UdpAssociate);
    rejected.push(Event::Replied);
    assert_eq!(failed(rejected), Some(Outcome::Failed(ConnectionError::Io)));
    assert_eq!(failed(up_to_connect()), Some(Outcome::Failed(ConnectionError::UpstreamConnect)));
    let mut tunnelling = up_to_connect();
    tunnelling.push(Event::UpstreamConnected(3));
    assert_eq!(failed(tunnelling), Some(Outcome::Failed(ConnectionError::UpstreamAuth)));
    let mut copying = up_to_connect();
    copying.push(Event::UpstreamConnected(3));
    copying.push(Event::TunnelOpened(4));
    assert_eq!(failed(copying), Some(Outcome::Failed(ConnectionError::OutOfOrder)));
}

#[test]
fn a_failure_goes_straight_to_the_end() {
    let mut events = up_to_request();
    events.push(Event::Failed);
    let (connection, _) = drive(events);
    assert_eq!(
        connection.trail,
        vec![
            Phase::Accepted,
            Phase::Authenticating,
            Phase::Authenticated,
            Phase::AwaitingRequest,
            Phase::Closed,
        ]
    );
}

#[test]
fn fails_when_the_clock_cannot_be_read() {
    let clock_failed = |mut events: Vec<Event>| {
        events.push(Event::ClockFailed);
        drive(events).0.outcome()
    };
    assert_eq!(clock_failed(up_to_connect()), Some(Outcome::Failed(ConnectionError::Clock)));
    let mut tunnelling = up_to_connect();
    tunnelling.push(Event::UpstreamConnected(3));
    assert_eq!(clock_failed(tunnelling), Some(Outcome::Failed(ConnectionError::Clock)));
    let mut copying = up_to_connect();
    copying.push(Event::UpstreamConnected(3));
    copying.push(Event::TunnelOpened(4));
    assert_eq!(clock_failed(copying), Some(Outcome::Failed(ConnectionError::Clock)));
    assert_eq!(clock_failed(up_to_request()), Some(Outcome::Failed(ConnectionError::OutOfOrder)));
}

#[test]
fn fails_when_the_clock_went_back() {
    let mut events = up_to_connect();
    events.push(Event::UpstreamConnected(50));
    events.push(Event::TunnelOpened(49));
    let (connection, actions) = drive(events);
    assert_eq!(connection.outcome(), Some(Outcome::Failed(ConnectionError::Clock)));
    assert_eq!(actions.last(), Some(&Action::Close));
    assert_eq!(count(&actions, ActionKind::Relay), 0);

    let mut events = up_to_connect();
    events.push(Event::UpstreamConnected(50));
    events.push(Event::TunnelOpened(120));
    events.push(Event::RelayEnded(RelayEnd::Finished, 119));
    let (connection, _) = drive(events);
    assert_eq!(connection.outcome(), Some(Outcome::Failed(ConnectionError::Clock)));
}

#[test]
fn gives_up_on_what_it_did_not_ask_for() {
    let out_of_order = |events: Vec<Event>| drive(events).0.outcome();
    let expected = Some(Outcome::Failed(ConnectionError::OutOfOrder));
    assert_eq!(out_of_order(vec![Event::Replied]), expected);
    assert_eq!(out_of_order(vec![Event::Start, Event::Start]), expected);
    assert_eq!(
        out_of_order(vec![Event::Start, Event::Requested(Command::Connect, destination())]),
        expected
    );
    let mut twice = up_to_request();
    twice.push(Event::Authenticated(credential()));
    assert_eq!(out_of_order(twice), expected);
    let mut early = up_to_reply(Command::Connect);
    early.push(Event::UpstreamConnected(1));
    assert_eq!(out_of_order(early), expected);
    let mut early = up_to_connect();
    early.push(Event::TunnelOpened(1));
    assert_eq!(out_of_order(early), expected);
    let mut shut = up_to_connect();
    shut.push(Event::ShutDown);
    assert_eq!(out_of_order(shut), expected);
}

#[test]
fn stays_closed() {
    let mut events = up_to_reply(Command::Bind);
    events.push(Event::Replied);
    events.push(Event::ShutDown);
    let (closed, _) = drive(events);
    let trail = closed.trail.clone();
    let (still, action) = closed.handle(Event::Start);
    assert_eq!(action, Action::Close);
    let (still, action) = still.handle(Event::Failed);
    assert_eq!(action, Action::Close);
    let (still, action) = still.handle(Event::RelayEnded(RelayEnd::Finished, 9));
    assert_eq!(action, Action::Close);
    assert_eq!(still.outcome(), Some(Outcome::Declined));
    assert_eq!(still.trail, trail);
}

#[test]
fn asks_for_each_piece_of_work_once() {
    let mut events = up_to_connect();
    events.push(Event::UpstreamConnected(50));
    events.push(Event::TunnelOpened(120));
    events.push(Event::RelayEnded(RelayEnd::Finished, 1500));
    events.push(Event::Start);
    events.push(Event::Replied);
    let (_, actions) = drive(events);
    for kind in [
        ActionKind::Authenticate,
        ActionKind::AwaitRequest,
        ActionKind::Reply,
        ActionKind::ConnectUpstream,
        ActionKind::OpenTunnel,
        ActionKind::Relay,
    ] {
        assert_eq!(count(&actions, kind), 1, "{:?}", kind);
    }
    assert_eq!(count(&actions, ActionKind::Shutdown), 0);
    assert_eq!(count(&actions, ActionKind::Close), 3);
}

#[test]
fn names_the_kind_of_each_action() {
    assert_eq!(Action::Authenticate.kind(), ActionKind::Authenticate);
    assert_eq!(Action::AwaitRequest.kind(), ActionKind::AwaitRequest);
    assert_eq!(Action::Reply(Reply::Succeeded).kind(), ActionKind::Reply);
    assert_eq!(Action::Shutdown.kind(), ActionKind::Shutdown);
    assert_eq!(Action::ConnectUpstream(UPSTREAM.to_string()).kind(), ActionKind::ConnectUpstream);
    assert_eq!(Action::OpenTunnel(destination(), credential()).kind(), ActionKind::OpenTunnel);
    assert_eq!(Action::Relay.kind(), ActionKind::Relay);
    assert_eq!(Action::Close.kind(), ActionKind::Close);
}

#[test]
fn clones_keep_what_they_hold() {
    assert_eq!(credential().clone(), credential());
    assert_eq!(destination().clone(), destination());
}
