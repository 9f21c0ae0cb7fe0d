use p2p_swarm::address::Multiaddr;
use p2p_swarm::connection::{ConnState, SwarmConfig};
use p2p_swarm::driver::{
    dial_all, exit_code, listen_address, next_step, turn, DriverStep, Options, StartupError,
};
use p2p_swarm::event::{
    Action, Bind, CloseReason, DialError, ListenError, SwarmEvent, TransportEvent,
};
use p2p_swarm::identity::{load_or_create, stored, IdentityError, KeyFile, PeerIdentity};
use p2p_swarm::peers::{load, IOError, PeerFile};
use p2p_swarm::ping::PingFailure;
use p2p_swarm::swarm::{DialHandle, Swarm};

/// The payload that carries a nonce.
fn p(nonce: u64) -> Vec<u8> {
    nonce.to_le_bytes().to_vec()
}

#[test]
fn every_listed_peer_is_dialed_in_order() {
    let mut swarm = Swarm::new(SwarmConfig::default());
    let file = PeerFile::Contents(b"/ip4/10.0.0.1/tcp/1\nbogus\n/ip4/10.0.0.2/tcp/2\n".to_vec());
    let peers = load(&file).unwrap();
    let handles = dial_all(&mut swarm, peers, 42);
    assert_eq!(handles, vec![DialHandle { conn: 0 }, DialHandle { conn: 1 }]);
    assert_eq!(swarm.connection_count(), 2);
    let first = swarm.connection(0).unwrap();
    assert_eq!(first.state(), ConnState::Connecting);
    assert_eq!(first.created_at(), 42);
    assert_eq!(first.addr().to_text().unwrap(), "/ip4/10.0.0.1/tcp/1");
    assert_eq!(swarm.connection(1).unwrap().addr().to_text().unwrap(), "/ip4/10.0.0.2/tcp/2");
}

#[test]
fn empty_peer_list_dials_nobody() {
    let mut swarm = Swarm::new(SwarmConfig::default());
    assert!(dial_all(&mut swarm, Vec::new(), 0).is_empty());
    assert!(swarm.is_idle());
}

#[test]
fn failed_dials_are_not_tried_again() {
    let mut swarm = Swarm::new(SwarmConfig::default());
    let peers = vec![Multiaddr::parse("/ip4/10.0.0.1/tcp/1").unwrap()];
    let handles = dial_all(&mut swarm, peers, 0);
    let events = swarm.poll(1, 9, vec![TransportEvent::Unreachable { conn: handles[0].conn }]);
    assert_eq!(events.len(), 1);
    assert!(swarm.poll(100, 9, vec![]).is_empty());
    assert!(swarm.is_idle());
    assert!(swarm.take_actions().is_empty());
}

#[test]
fn driver_stops_when_nothing_is_left() {
    let mut swarm = Swarm::new(SwarmConfig::default());
    assert_eq!(next_step(&swarm, false), DriverStep::Stop);
    swarm.listen(Multiaddr::parse("/ip4/0.0.0.0/tcp/0").unwrap(), Bind::Bound).unwrap();
    assert_eq!(next_step(&swarm, false), DriverStep::Poll);
    assert_eq!(next_step(&swarm, true), DriverStep::Stop);
    swarm.unlisten(&Multiaddr::parse("/ip4/0.0.0.0/tcp/0").unwrap());
    let h = swarm.dial(Multiaddr::parse("/ip4/10.0.0.1/tcp/1").unwrap(), 0);
    assert_eq!(next_step(&swarm, false), DriverStep::Poll);
    swarm.poll(1, 9, vec![TransportEvent::Unreachable { conn: h.conn }]);
    assert_eq!(next_step(&swarm, false), DriverStep::Stop);
}

#[test]
fn exit_code_is_zero_only_after_a_clean_run() {
    assert_eq!(exit_code(Ok(())), 0);
    assert_eq!(exit_code(Err(StartupError::Identity(IdentityError::Corrupt))), 1);
    assert_eq!(exit_code(Err(StartupError::Identity(IdentityError::IOFailure))), 1);
    assert_eq!(exit_code(Err(StartupError::PeerList(IOError::Unreadable))), 1);
    assert_eq!(exit_code(Err(StartupError::PeerList(IOError::InvalidData))), 1);
    assert_eq!(exit_code(Err(StartupError::Transport)), 1);
    assert_eq!(exit_code(Err(StartupError::ListenAddress)), 1);
    assert_eq!(exit_code(Err(StartupError::Listen(ListenError::PermissionDenied))), 1);
}

#[test]
fn events_are_named_by_their_kind() {
    let peer = PeerIdentity::from_bytes(vec![1, 2, 3]);
    let addr = Multiaddr::parse("/ip4/10.0.0.1/tcp/1").unwrap();
    let established = SwarmEvent::ConnectionEstablished { peer: peer.clone(), addr: addr.clone() };
    let closed = SwarmEvent::ConnectionClosed { peer: peer.clone(), reason: CloseReason::IoError };
    let failed = SwarmEvent::DialFailure { addr, error: DialError::Timeout };
    let ping = SwarmEvent::PingResult { peer, result: Err(PingFailure::Timeout) };
    assert_eq!(established.kind(), "ConnectionEstablished");
    assert_eq!(closed.kind(), "ConnectionClosed");
    assert_eq!(failed.kind(), "DialFailure");
    assert_eq!(ping.kind(), "PingResult");
    assert_eq!(ping.clone(), ping);
    assert_eq!(established.clone(), established);
    assert_eq!(closed.clone(), closed);
    assert_eq!(failed.clone(), failed);
}

#[test]
fn transport_events_name_their_connection() {
    assert_eq!(TransportEvent::Connected { conn: 3 }.conn(), 3);
    assert_eq!(TransportEvent::Unreachable { conn: 4 }.conn(), 4);
    assert_eq!(
        TransportEvent::HandshakeDone { conn: 5, peer: PeerIdentity::from_bytes(vec![1]) }.conn(),
        5
    );
    assert_eq!(TransportEvent::HandshakeFailed { conn: 6 }.conn(), 6);
    assert_eq!(TransportEvent::StreamOpened { conn: 7, stream: 1, inbound: true }.conn(), 7);
    assert_eq!(TransportEvent::StreamClosed { conn: 8, stream: 1 }.conn(), 8);
    assert_eq!(TransportEvent::Data { conn: 9, stream: 1, payload: p(2) }.conn(), 9);
    assert_eq!(TransportEvent::PeerClosed { conn: 10 }.conn(), 10);
    assert_eq!(TransportEvent::IoError { conn: 11 }.conn(), 11);
}

#[test]
fn listen_address_is_read_from_its_text() {
    let addr = listen_address("/ip4/0.0.0.0/tcp/0").expect("an address");
    assert_eq!(addr.to_text().unwrap(), "/ip4/0.0.0.0/tcp/0");
    assert_eq!(listen_address("/ip9/bogus").err(), Some(StartupError::ListenAddress));
    assert_eq!(listen_address("").err(), Some(StartupError::ListenAddress));
    assert_eq!(listen_address("/ip4/0.0.0.0/tcp/0\r").err(), Some(StartupError::ListenAddress));
}

#[test]
fn startup_stages_fail_with_their_own_errors() {
    let identity = stored(load_or_create(KeyFile::Contents(vec![0u8; 3])), true);
    assert_eq!(identity.err().map(StartupError::from), Some(StartupError::Identity(IdentityError::Corrupt)));
    let identity = stored(load_or_create(KeyFile::Unreadable), true);
    assert_eq!(
        identity.err().map(StartupError::from),
        Some(StartupError::Identity(IdentityError::IOFailure))
    );
    let identity = stored(load_or_create(KeyFile::Missing), false);
    assert_eq!(
        identity.err().map(StartupError::from),
        Some(StartupError::Identity(IdentityError::IOFailure))
    );
    assert_eq!(
        load(&PeerFile::Unreadable).err().map(StartupError::from),
        Some(StartupError::PeerList(IOError::Unreadable))
    );
    assert_eq!(
        load(&PeerFile::Contents(vec![0xff])).err().map(StartupError::from),
        Some(StartupError::PeerList(IOError::InvalidData))
    );
}

#[test]
fn errors_convert_into_startup_errors() {
    assert_eq!(
        StartupError::from(IdentityError::Corrupt),
        StartupError::Identity(IdentityError::Corrupt)
    );
    assert_eq!(StartupError::from(IOError::Unreadable), StartupError::PeerList(IOError::Unreadable));
    assert_eq!(
        StartupError::from(ListenError::AlreadyBound),
        StartupError::Listen(ListenError::AlreadyBound)
    );
}

#[test]
fn default_options() {
    let options = Options::default();
    assert_eq!(options.identity, "p2p.id");
    assert_eq!(options.peers, "p2p.peers");
    assert_eq!(options.listen, "/ip4/0.0.0.0/tcp/0");
    assert!(listen_address(&options.listen).expect("an address").is_tcp_over_ip());
}

#[test]
fn a_turn_runs_a_pass_and_says_what_comes_next() {
    let mut swarm = Swarm::new(SwarmConfig::default());
    let a = swarm.dial(Multiaddr::parse("/ip4/10.0.0.1/tcp/1").unwrap(), 0);
    let b = swarm.dial(Multiaddr::parse("/ip4/10.0.0.2/tcp/2").unwrap(), 5);
    let t = turn(
        &mut swarm,
        6,
        9,
        vec![
            TransportEvent::Unreachable { conn: a.conn },
            TransportEvent::Connected { conn: b.conn },
            TransportEvent::HandshakeDone { conn: b.conn, peer: PeerIdentity::from_bytes(vec![1]) },
            TransportEvent::StreamOpened { conn: b.conn, stream: 1, inbound: false },
        ],
        false,
    );
    assert_eq!(t.events.len(), 2);
    assert_eq!(t.events[0].kind(), "DialFailure");
    assert_eq!(t.events[1].kind(), "ConnectionEstablished");
    assert_eq!(t.actions, vec![Action::Send { conn: b.conn, stream: 1, payload: p(9) }]);
    assert_eq!(t.next, DriverStep::Poll);
    assert_eq!(t.wake, Some(26));
    assert!(swarm.take_actions().is_empty());
    let t = turn(&mut swarm, 7, 10, vec![], true);
    assert!(t.events.is_empty() && t.actions.is_empty());
    assert_eq!(t.next, DriverStep::Stop);
    let t = turn(&mut swarm, 8, 11, vec![TransportEvent::IoError { conn: b.conn }], false);
    assert_eq!(t.events.len(), 1);
    assert_eq!(t.next, DriverStep::Stop);
    assert_eq!(t.wake, None);
}
