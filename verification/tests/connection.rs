use p2p_swarm::address::Multiaddr;
use p2p_swarm::connection::{ConnState, Connection, Probe, StreamInfo, SwarmConfig};
use p2p_swarm::event::{Action, CloseReason, DialError, Role, SwarmEvent, TransportEvent};
use p2p_swarm::identity::PeerIdentity;
use p2p_swarm::ping::{PingFailure, PingSession, PingState};

/// The payload that carries a nonce.
fn p(nonce: u64) -> Vec<u8> {
    nonce.to_le_bytes().to_vec()
}

fn addr() -> Multiaddr {
    Multiaddr::parse("/ip4/10.0.0.1/tcp/4001").expect("a valid address")
}

fn peer(tag: u8) -> PeerIdentity {
    PeerIdentity::from_bytes(vec![tag; 38])
}

/// Hands the inputs to the connection one by one, with no rival and no other
/// connection carrying the probe.
fn feed(c: &mut Connection, now: u64, nonce: u64, inputs: Vec<TransportEvent>) -> (Vec<SwarmEvent>, Vec<Action>) {
    let cfg = SwarmConfig::default();
    let mut events = Vec::new();
    let mut actions = Vec::new();
    for input in &inputs {
        c.react(&cfg, now, nonce, input, false, false, &mut events, &mut actions);
    }
    (events, actions)
}

fn open_connection() -> Connection {
    let mut c = Connection::outbound(3, addr(), 0);
    feed(
        &mut c,
        0,
        0,
        vec![
            TransportEvent::Connected { conn: 3 },
            TransportEvent::HandshakeDone { conn: 3, peer: peer(1) },
        ],
    );
    c
}

#[test]
fn outbound_connection_starts_connecting() {
    let c = Connection::outbound(3, addr(), 17);
    assert_eq!(c.id(), 3);
    assert_eq!(c.role(), Role::Dialer);
    assert_eq!(c.state(), ConnState::Connecting);
    assert_eq!(c.created_at(), 17);
    assert!(c.is_pending() && c.is_live());
    assert_eq!(c.next_deadline(&SwarmConfig::default()), Some(37));
}

#[test]
fn inbound_connection_starts_authenticating() {
    let c = Connection::inbound(4, addr(), 17);
    assert_eq!(c.role(), Role::Listener);
    assert_eq!(c.state(), ConnState::Authenticating);
    assert!(c.is_pending());
}

#[test]
fn lifecycle_of_a_successful_dial() {
    let mut c = Connection::outbound(3, addr(), 0);
    let (events, actions) = feed(&mut c, 1, 0, vec![TransportEvent::Connected { conn: 3 }]);
    assert!(events.is_empty() && actions.is_empty());
    assert_eq!(c.state(), ConnState::Authenticating);
    let (events, actions) =
        feed(&mut c, 2, 0, vec![TransportEvent::HandshakeDone { conn: 3, peer: peer(1) }]);
    assert_eq!(events, vec![SwarmEvent::ConnectionEstablished { peer: peer(1), addr: addr() }]);
    assert!(actions.is_empty());
    assert_eq!(c.state(), ConnState::Open);
    assert!(!c.is_pending() && c.is_live());
    assert_eq!(c.next_deadline(&SwarmConfig::default()), None);
    let (events, _) = feed(&mut c, 3, 0, vec![TransportEvent::PeerClosed { conn: 3 }]);
    assert_eq!(
        events,
        vec![SwarmEvent::ConnectionClosed { peer: peer(1), reason: CloseReason::PeerClosed }]
    );
    assert_eq!(c.state(), ConnState::Closed);
    assert!(!c.is_live());
    assert_eq!(c.next_deadline(&SwarmConfig::default()), Some(0));
    let (events, actions) = feed(&mut c, 4, 0, vec![TransportEvent::IoError { conn: 3 }]);
    assert!(events.is_empty() && actions.is_empty());
}

#[test]
fn rival_supersedes_the_later_handshake() {
    let cfg = SwarmConfig::default();
    let mut c = Connection::inbound(5, addr(), 0);
    let mut events = Vec::new();
    let mut actions = Vec::new();
    let input = TransportEvent::HandshakeDone { conn: 5, peer: peer(2) };
    c.react(&cfg, 1, 0, &input, true, false, &mut events, &mut actions);
    assert_eq!(
        events,
        vec![SwarmEvent::ConnectionClosed { peer: peer(2), reason: CloseReason::Superseded }]
    );
    assert_eq!(actions, vec![Action::Close { conn: 5 }]);
    assert_eq!(c.state(), ConnState::Closing);
    assert!(!c.is_live());
}

#[test]
fn taken_probe_is_not_started_again() {
    let cfg = SwarmConfig::default();
    let mut c = open_connection();
    let mut events = Vec::new();
    let mut actions = Vec::new();
    let input = TransportEvent::StreamOpened { conn: 3, stream: 1, inbound: false };
    c.react(&cfg, 1, 9, &input, false, true, &mut events, &mut actions);
    assert!(events.is_empty() && actions.is_empty());
    assert_eq!(c.streams(), &vec![StreamInfo { id: 1, inbound: false }]);
    assert!(c.probe().is_none());
}

#[test]
fn rivals_and_probes_are_told_by_peer_state_and_side() {
    let mut c = open_connection();
    assert!(c.rivals(&peer(1), Role::Listener));
    assert!(!c.rivals(&peer(1), Role::Dialer));
    assert!(!c.rivals(&peer(2), Role::Listener));
    assert!(!c.probes(&peer(1)));
    feed(&mut c, 1, 9, vec![TransportEvent::StreamOpened { conn: 3, stream: 1, inbound: false }]);
    assert!(c.probes(&peer(1)));
    assert!(!c.probes(&peer(2)));
    assert_eq!(
        c.probe(),
        Some(Probe { stream: 1, session: PingSession::open(1, 9) })
    );
    let pending = Connection::outbound(1, addr(), 0);
    assert!(!pending.rivals(&peer(1), Role::Listener));
    assert!(!pending.probes(&peer(1)));
}

#[test]
fn tick_gives_up_an_overdue_attempt() {
    let cfg = SwarmConfig::default();
    let mut c = Connection::outbound(3, addr(), 10);
    let mut events = Vec::new();
    let mut actions = Vec::new();
    c.tick(&cfg, 29, 0, &mut events, &mut actions);
    assert!(events.is_empty() && actions.is_empty());
    assert_eq!(c.state(), ConnState::Connecting);
    c.tick(&cfg, 30, 0, &mut events, &mut actions);
    assert_eq!(events, vec![SwarmEvent::DialFailure { addr: addr(), error: DialError::Timeout }]);
    assert_eq!(actions, vec![Action::Abort { conn: 3, reason: DialError::Timeout }]);
    assert_eq!(c.state(), ConnState::Closing);
}

#[test]
fn tick_runs_the_probe() {
    let cfg = SwarmConfig::default();
    let mut c = open_connection();
    feed(&mut c, 5, 9, vec![TransportEvent::StreamOpened { conn: 3, stream: 1, inbound: false }]);
    let mut events = Vec::new();
    let mut actions = Vec::new();
    c.tick(&cfg, 5, 10, &mut events, &mut actions);
    assert_eq!(c.probe().unwrap().session.state, PingState::AwaitingEcho);
    assert_eq!(c.next_deadline(&cfg), Some(25));
    c.tick(&cfg, 25, 11, &mut events, &mut actions);
    assert_eq!(
        events,
        vec![
            SwarmEvent::PingResult { peer: peer(1), result: Err(PingFailure::Timeout) },
            SwarmEvent::ConnectionClosed { peer: peer(1), reason: CloseReason::PingFailure },
        ]
    );
    assert_eq!(actions, vec![Action::Close { conn: 3 }]);
    assert_eq!(c.state(), ConnState::Closing);
    assert_eq!(c.probe().unwrap().session.state, PingState::Failed);
}

#[test]
fn withdraw_marks_only_pending_dials() {
    let mut c = Connection::outbound(3, addr(), 0);
    c.withdraw();
    assert!(c.is_cancelled());
    assert_eq!(c.next_deadline(&SwarmConfig::default()), Some(0));
    let (events, actions) = feed(&mut c, 1, 0, vec![TransportEvent::Connected { conn: 3 }]);
    assert!(events.is_empty());
    assert_eq!(actions, vec![Action::Abort { conn: 3, reason: DialError::Cancelled }]);
    assert_eq!(c.state(), ConnState::Closing);
    let mut inbound = Connection::inbound(4, addr(), 0);
    inbound.withdraw();
    assert!(!inbound.is_cancelled());
    let mut open = open_connection();
    open.withdraw();
    assert!(!open.is_cancelled());
}

#[test]
fn zero_dial_timeout_is_due_at_once() {
    let cfg = SwarmConfig { dial_timeout: 0, ..SwarmConfig::default() };
    let c = Connection::outbound(3, addr(), 10);
    assert_eq!(c.next_deadline(&cfg), Some(0));
}
