//! One connection: its lifecycle, its streams and its liveness probe.

use vstd::prelude::*;
use crate::address::Multiaddr;
use crate::event::{
    actions_of, events_of, Action, ActionModel, CloseReason, DialError, EventModel, InputModel,
    Role, SwarmEvent, TransportEvent,
};
use crate::identity::PeerIdentity;
use crate::laws::reachable::{lemma_react_sound, lemma_tick_sound, sound};
use crate::bytes::bytes_copy;
use crate::ping::{
    elapsed, encode_nonce, nonce_payload, time_after, time_since, PingConfig, PingFailure,
    PingSession, Tick,
};
use crate::search::{first_where, lemma_first_where};

verus! {

/// Where a connection stands in its life.
#[derive(Clone, Copy, Debug, PartialEq, Eq, Structural)]
pub enum ConnState {
    /// The link is being made.
    Connecting,
    /// The link stands and the peer has yet to authenticate.
    Authenticating,
    /// The peer is known and streams can run.
    Open,
    /// The engine has decided to end the connection.
    Closing,
    /// The connection has ended.
    Closed,
}

/// A stream of a connection.
#[derive(Clone, Copy, Debug, PartialEq, Eq, Structural)]
pub struct StreamInfo {
    /// The stream's number within its connection.
    pub id: u64,
    /// Whether the peer opened it.
    pub inbound: bool,
}

/// The liveness probe of a connection and the stream it runs on.
#[derive(Clone, Copy, Debug, PartialEq, Eq, Structural)]
pub struct Probe {
    pub stream: u64,
    pub session: PingSession,
}

/// The engine's settings.
#[derive(Clone, Copy, Debug, PartialEq, Eq, Structural)]
pub struct SwarmConfig {
    pub ping: PingConfig,
    /// Time units that a connection may take until the peer has authenticated.
    pub dial_timeout: u64,
}

impl Default for SwarmConfig {
    fn default() -> (r: SwarmConfig)
        ensures
            r == (SwarmConfig {
                ping: PingConfig {
                    timeout: 20,
                    interval: 0,
                    keep_alive: true,
                    max_failures: 1,
                    tolerant: false,
                },
                dial_timeout: 20,
            }),
    {
        SwarmConfig { ping: PingConfig::default(), dial_timeout: 20 }
    }
}

/// The streams with the given number.
pub open spec fn stream_numbered(id: u64) -> spec_fn(StreamInfo) -> bool {
    |s: StreamInfo| s.id == id
}

/// Index of the stream with the given number, or the length if there is none.
pub open spec fn stream_index(streams: Seq<StreamInfo>, id: u64) -> int {
    first_where(streams, stream_numbered(id))
}

/// What a connection is.
#[verifier::ext_equal]
pub struct ConnModel {
    /// The number under which the engine handed the connection out.
    pub id: u64,
    pub role: Role,
    /// The address dialed, or the address the peer came from.
    pub addr: Seq<u8>,
    /// The peer, known once it has authenticated.
    pub peer: Option<Seq<u8>>,
    pub state: ConnState,
    pub created_at: u64,
    /// Whether the caller has withdrawn the attempt.
    pub cancelled: bool,
    pub streams: Seq<StreamInfo>,
    pub probe: Option<Probe>,
}

/// What an input or a pass does to a connection: the connection afterwards,
/// the events to report and the actions to ask of the transport.
#[verifier::ext_equal]
pub struct Reaction {
    pub conn: ConnModel,
    pub events: Seq<EventModel>,
    pub actions: Seq<ActionModel>,
}

impl ConnModel {
    /// A connection as `dial` makes it.
    pub open spec fn outbound(id: u64, addr: Seq<u8>, now: u64) -> ConnModel {
        ConnModel {
            id,
            role: Role::Dialer,
            addr,
            peer: None,
            state: ConnState::Connecting,
            created_at: now,
            cancelled: false,
            streams: Seq::empty(),
            probe: None,
        }
    }

    /// A connection as `accept` makes it.
    pub open spec fn inbound(id: u64, addr: Seq<u8>, now: u64) -> ConnModel {
        ConnModel {
            id,
            role: Role::Listener,
            addr,
            peer: None,
            state: ConnState::Authenticating,
            created_at: now,
            cancelled: false,
            streams: Seq::empty(),
            probe: None,
        }
    }

    /// Whether the peer has yet to authenticate.
    pub open spec fn pending(self) -> bool {
        self.state == ConnState::Connecting || self.state == ConnState::Authenticating
    }

    /// Whether the connection belongs to the live set.
    pub open spec fn live(self) -> bool {
        self.pending() || self.state == ConnState::Open
    }

    /// Whether the connection is open to `peer` from the side other than `role`.
    pub open spec fn rivals(self, peer: Seq<u8>, role: Role) -> bool {
        self.state == ConnState::Open && self.peer == Some(peer) && self.role != role
    }

    /// Whether the connection is open to `peer` and carries the probe.
    pub open spec fn probes(self, peer: Seq<u8>) -> bool {
        self.state == ConnState::Open && self.peer == Some(peer) && self.probe is Some
    }

    /// Nothing happens.
    pub open spec fn quiet(self) -> Reaction {
        Reaction { conn: self, events: Seq::empty(), actions: Seq::empty() }
    }

    /// The failure of the attempt, reported if this side dialed.
    pub open spec fn dial_failure(self, reason: DialError) -> Seq<EventModel> {
        if self.role == Role::Dialer {
            seq![EventModel::DialFailure { addr: self.addr, error: reason }]
        } else {
            Seq::empty()
        }
    }

    /// The end of the connection, reported once the peer is known.
    pub open spec fn closure(self, reason: CloseReason) -> Seq<EventModel> {
        match self.peer {
            Some(peer) => seq![EventModel::ConnectionClosed { peer, reason }],
            None => Seq::empty(),
        }
    }

    /// The result of a probe, reported once the peer is known.
    pub open spec fn ping_result(self, result: Result<u64, PingFailure>) -> Seq<EventModel> {
        match self.peer {
            Some(peer) => seq![EventModel::PingResult { peer, result }],
            None => Seq::empty(),
        }
    }

    /// What the engine asks of the transport to end the connection early.
    pub open spec fn teardown(self, reason: DialError) -> Seq<ActionModel> {
        if self.role == Role::Dialer {
            seq![ActionModel::Abort { conn: self.id, reason }]
        } else {
            seq![ActionModel::Close { conn: self.id }]
        }
    }

    /// A withdrawn attempt is given up without a word.
    pub open spec fn withdrawn(self) -> Reaction {
        Reaction {
            conn: ConnModel { state: ConnState::Closing, ..self },
            events: Seq::empty(),
            actions: seq![ActionModel::Abort { conn: self.id, reason: DialError::Cancelled }],
        }
    }

    /// The link stands.
    pub open spec fn connected(self) -> Reaction {
        if self.state == ConnState::Connecting {
            ConnModel { state: ConnState::Authenticating, ..self }.quiet()
        } else {
            self.quiet()
        }
    }

    /// The link could not be made.
    pub open spec fn unreachable(self) -> Reaction {
        if self.state == ConnState::Connecting {
            Reaction {
                conn: ConnModel { state: ConnState::Closed, ..self },
                events: self.dial_failure(DialError::Unreachable),
                actions: Seq::empty(),
            }
        } else {
            self.quiet()
        }
    }

    /// The peer authenticated. If a connection to it from the other side is
    /// open already, this one is superseded and closed; else it is open.
    pub open spec fn authenticated(self, peer: Seq<u8>, rival: bool) -> Reaction {
        if self.state != ConnState::Authenticating {
            self.quiet()
        } else if rival {
            Reaction {
                conn: ConnModel { state: ConnState::Closing, peer: Some(peer), ..self },
                events: if self.role == Role::Dialer {
                    seq![EventModel::DialFailure { addr: self.addr, error: DialError::Superseded }]
                } else {
                    seq![EventModel::ConnectionClosed { peer, reason: CloseReason::Superseded }]
                },
                actions: self.teardown(DialError::Superseded),
            }
        } else {
            Reaction {
                conn: ConnModel { state: ConnState::Open, peer: Some(peer), ..self },
                events: seq![EventModel::ConnectionEstablished { peer, addr: self.addr }],
                actions: Seq::empty(),
            }
        }
    }

    /// The peer did not authenticate.
    pub open spec fn refused(self) -> Reaction {
        if self.state == ConnState::Authenticating {
            Reaction {
                conn: ConnModel { state: ConnState::Closed, ..self },
                events: self.dial_failure(DialError::HandshakeFailed),
                actions: Seq::empty(),
            }
        } else {
            self.quiet()
        }
    }

    /// The peer closed the connection or the link broke.
    pub open spec fn lost(self, reason: CloseReason) -> Reaction {
        match self.state {
            ConnState::Open => Reaction {
                conn: ConnModel { state: ConnState::Closed, ..self },
                events: self.closure(reason),
                actions: Seq::empty(),
            },
            ConnState::Connecting => self.unreachable(),
            ConnState::Authenticating => self.refused(),
            _ => self.quiet(),
        }
    }

    /// A stream was opened. The first stream that this side opens on the first
    /// connection to a peer carries the probe, if `taken` does not say that
    /// another connection to the peer carries it already.
    pub open spec fn stream_opened(
        self,
        now: u64,
        nonce: u64,
        stream: u64,
        inbound: bool,
        taken: bool,
    ) -> Reaction {
        if self.state != ConnState::Open || stream_index(self.streams, stream)
            < self.streams.len() {
            self.quiet()
        } else {
            let streams = self.streams.push(StreamInfo { id: stream, inbound });
            if !inbound && self.probe is None && !taken {
                Reaction {
                    conn: ConnModel {
                        streams,
                        probe: Some(Probe { stream, session: PingSession::opened(now, nonce) }),
                        ..self
                    },
                    events: Seq::empty(),
                    actions: seq![
                        ActionModel::Send { conn: self.id, stream, payload: nonce_payload(nonce) },
                    ],
                }
            } else {
                ConnModel { streams, ..self }.quiet()
            }
        }
    }

    /// A stream ended.
    pub open spec fn stream_closed(self, stream: u64) -> Reaction {
        let i = stream_index(self.streams, stream);
        if self.state == ConnState::Open && i < self.streams.len() {
            ConnModel { streams: self.streams.remove(i), ..self }.quiet()
        } else {
            self.quiet()
        }
    }

    /// A payload arrived on the stream that carries the probe.
    pub open spec fn echoed(
        self,
        cfg: PingConfig,
        now: u64,
        probe: Probe,
        payload: Seq<u8>,
    ) -> Reaction {
        match probe.session.verdict(cfg, now, payload) {
            Ok(rtt) => Reaction {
                conn: ConnModel {
                    probe: Some(
                        Probe {
                            stream: probe.stream,
                            session: probe.session.after_payload(cfg, now, payload),
                        },
                    ),
                    ..self
                },
                events: self.ping_result(Ok(rtt)),
                actions: Seq::empty(),
            },
            Err(error) => Reaction {
                conn: self,
                events: Seq::empty(),
                actions: seq![ActionModel::Report { conn: self.id, error }],
            },
        }
    }

    /// A payload arrived. On a stream that the peer opened it is echoed as it
    /// is; on the stream that carries the probe it is held against the nonce.
    pub open spec fn received(
        self,
        cfg: PingConfig,
        now: u64,
        stream: u64,
        payload: Seq<u8>,
    ) -> Reaction {
        let i = stream_index(self.streams, stream);
        if self.state != ConnState::Open || i >= self.streams.len() {
            self.quiet()
        } else if self.streams[i].inbound {
            Reaction {
                conn: self,
                events: Seq::empty(),
                actions: seq![ActionModel::Send { conn: self.id, stream, payload }],
            }
        } else {
            match self.probe {
                Some(probe) => if probe.stream == stream {
                    self.echoed(cfg, now, probe, payload)
                } else {
                    self.quiet()
                },
                None => self.quiet(),
            }
        }
    }

    /// What an input does to the connection it is about. `rival` says whether
    /// a connection from the other side is open to the peer that authenticated,
    /// `taken` whether another connection to this one's peer carries the probe.
    pub open spec fn react(
        self,
        cfg: SwarmConfig,
        now: u64,
        nonce: u64,
        input: InputModel,
        rival: bool,
        taken: bool,
    ) -> Reaction {
        if self.pending() && self.cancelled {
            self.withdrawn()
        } else {
            match input {
                InputModel::Connected { .. } => self.connected(),
                InputModel::Unreachable { .. } => self.unreachable(),
                InputModel::HandshakeDone { peer, .. } => self.authenticated(peer, rival),
                InputModel::HandshakeFailed { .. } => self.refused(),
                InputModel::StreamOpened { stream, inbound, .. } => self.stream_opened(
                    now,
                    nonce,
                    stream,
                    inbound,
                    taken,
                ),
                InputModel::StreamClosed { stream, .. } => self.stream_closed(stream),
                InputModel::Data { stream, payload, .. } => self.received(
                    cfg.ping,
                    now,
                    stream,
                    payload,
                ),
                InputModel::PeerClosed { .. } => self.lost(CloseReason::PeerClosed),
                InputModel::IoError { .. } => self.lost(CloseReason::IoError),
            }
        }
    }

    /// The attempt has taken too long.
    pub open spec fn overdue(self) -> Reaction {
        Reaction {
            conn: ConnModel { state: ConnState::Closing, ..self },
            events: self.dial_failure(DialError::Timeout),
            actions: self.teardown(DialError::Timeout),
        }
    }

    /// The probe's turn in a pass.
    pub open spec fn probed(self, cfg: PingConfig, now: u64, nonce: u64, probe: Probe) -> Reaction {
        let conn = ConnModel {
            probe: Some(
                Probe { stream: probe.stream, session: probe.session.after_tick(cfg, now, nonce) },
            ),
            ..self
        };
        match probe.session.tick_effect(cfg, now, nonce) {
            Tick::Quiet => conn.quiet(),
            Tick::Probe { nonce: fresh } => Reaction {
                conn,
                events: Seq::empty(),
                actions: seq![
                    ActionModel::Send {
                        conn: self.id,
                        stream: probe.stream,
                        payload: nonce_payload(fresh),
                    },
                ],
            },
            Tick::TimedOut { close } => if close {
                Reaction {
                    conn: ConnModel { state: ConnState::Closing, ..conn },
                    events: self.ping_result(Err(PingFailure::Timeout)) + self.closure(
                        CloseReason::PingFailure,
                    ),
                    actions: seq![ActionModel::Close { conn: self.id }],
                }
            } else {
                Reaction {
                    conn,
                    events: self.ping_result(Err(PingFailure::Timeout)),
                    actions: Seq::empty(),
                }
            },
        }
    }

    /// The time from which the end of a pass has something to do for the
    /// connection, if there is one: at once for a withdrawn attempt and for a
    /// connection that has left the live set, at the end of the time allowed
    /// for an attempt, and at the deadline of the probe.
    pub open spec fn deadline(self, cfg: SwarmConfig) -> Option<u64> {
        if self.pending() {
            if self.cancelled || cfg.dial_timeout == 0 {
                Some(0)
            } else if self.created_at + cfg.dial_timeout <= u64::MAX {
                Some((self.created_at + cfg.dial_timeout) as u64)
            } else {
                None
            }
        } else if self.state == ConnState::Open {
            match self.probe {
                Some(probe) => probe.session.deadline(cfg.ping),
                None => None,
            }
        } else {
            Some(0)
        }
    }

    /// What the end of a pass at `now` does to the connection: a withdrawn or
    /// overdue attempt is given up, and an open connection's probe has its turn.
    pub open spec fn tick(self, cfg: SwarmConfig, now: u64, nonce: u64) -> Reaction {
        if self.pending() {
            if self.cancelled {
                self.withdrawn()
            } else if elapsed(now, self.created_at) >= cfg.dial_timeout {
                self.overdue()
            } else {
                self.quiet()
            }
        } else if self.state == ConnState::Open {
            match self.probe {
                Some(probe) => self.probed(cfg.ping, now, nonce, probe),
                None => self.quiet(),
            }
        } else {
            self.quiet()
        }
    }
}

/// Whether a connection, the events and the actions have changed as the
/// reaction says: the connection is the reaction's, and its events and actions
/// follow those that were there.
pub open spec fn applied(
    r: Reaction,
    conn: ConnModel,
    events_before: Seq<EventModel>,
    events: Seq<EventModel>,
    actions_before: Seq<ActionModel>,
    actions: Seq<ActionModel>,
) -> bool {
    &&& conn =~~= r.conn
    &&& events =~= events_before + r.events
    &&& actions =~= actions_before + r.actions
}

/// Appends an action.
fn ask(actions: &mut Vec<Action>, action: Action)
    ensures
        actions_of(final(actions)@) == actions_of(old(actions)@).push(action@),
{
    actions.push(action);
    assert(actions_of(actions@) =~= actions_of(old(actions)@).push(action@));
}

/// Appends an event.
fn emit(events: &mut Vec<SwarmEvent>, event: SwarmEvent)
    ensures
        events_of(final(events)@) == events_of(old(events)@).push(event@),
{
    events.push(event);
    assert(events_of(events@) =~= events_of(old(events)@).push(event@));
}

/// A connection that the engine holds.
#[derive(Debug)]
pub struct Connection {
    id: u64,
    role: Role,
    addr: Multiaddr,
    peer: Option<PeerIdentity>,
    state: ConnState,
    created_at: u64,
    cancelled: bool,
    streams: Vec<StreamInfo>,
    probe: Option<Probe>,
}

impl View for Connection {
    type V = ConnModel;

    closed spec fn view(&self) -> ConnModel {
        ConnModel {
            id: self.id,
            role: self.role,
            addr: self.addr@,
            peer: match self.peer {
                Some(p) => Some(p@),
                None => None,
            },
            state: self.state,
            created_at: self.created_at,
            cancelled: self.cancelled,
            streams: self.streams@,
            probe: self.probe,
        }
    }
}

impl Connection {
    /// Whether the connection is sound, as every call leaves it.
    pub open spec fn wf(&self) -> bool {
        sound(self@)
    }

    /// A connection that this side opens to `addr` at `now`.
    pub fn outbound(id: u64, addr: Multiaddr, now: u64) -> (r: Connection)
        ensures
            r@ == ConnModel::outbound(id, addr@, now),
            r.wf(),
    {
        Connection {
            id,
            role: Role::Dialer,
            addr,
            peer: None,
            state: ConnState::Connecting,
            created_at: now,
            cancelled: false,
            streams: Vec::new(),
            probe: None,
        }
    }

    /// A connection that a peer opened from `addr` at `now`.
    pub fn inbound(id: u64, addr: Multiaddr, now: u64) -> (r: Connection)
        ensures
            r@ == ConnModel::inbound(id, addr@, now),
            r.wf(),
    {
        Connection {
            id,
            role: Role::Listener,
            addr,
            peer: None,
            state: ConnState::Authenticating,
            created_at: now,
            cancelled: false,
            streams: Vec::new(),
            probe: None,
        }
    }

    /// The number under which the engine handed the connection out.
    pub fn id(&self) -> (r: u64)
        ensures
            r == self@.id,
    {
        self.id
    }

    /// Which side opened the connection.
    pub fn role(&self) -> (r: Role)
        ensures
            r == self@.role,
    {
        self.role
    }

    /// Where the connection stands.
    pub fn state(&self) -> (r: ConnState)
        ensures
            r == self@.state,
    {
        self.state
    }

    /// When the connection was made.
    pub fn created_at(&self) -> (r: u64)
        ensures
            r == self@.created_at,
    {
        self.created_at
    }

    /// The address dialed, or the address the peer came from.
    pub fn addr(&self) -> (r: &Multiaddr)
        ensures
            r@ == self@.addr,
    {
        &self.addr
    }

    /// The peer, once it has authenticated.
    pub fn peer(&self) -> (r: Option<&PeerIdentity>)
        ensures
            r is Some <==> self@.peer is Some,
            r matches Some(p) ==> self@.peer == Some(p@),
    {
        match &self.peer {
            Some(p) => Some(p),
            None => None,
        }
    }

    /// The liveness probe, if this connection carries it.
    pub fn probe(&self) -> (r: Option<Probe>)
        ensures
            r == self@.probe,
    {
        self.probe
    }

    /// The open streams.
    pub fn streams(&self) -> (r: &Vec<StreamInfo>)
        ensures
            r@ == self@.streams,
    {
        &self.streams
    }

    /// Whether the caller has withdrawn the attempt.
    pub fn is_cancelled(&self) -> (r: bool)
        ensures
            r == self@.cancelled,
    {
        self.cancelled
    }

    /// Whether the peer has yet to authenticate.
    pub fn is_pending(&self) -> (r: bool)
        ensures
            r == self@.pending(),
    {
        self.state == ConnState::Connecting || self.state == ConnState::Authenticating
    }

    /// Whether the connection belongs to the live set.
    pub fn is_live(&self) -> (r: bool)
        ensures
            r == self@.live(),
    {
        self.is_pending() || self.state == ConnState::Open
    }

    /// Whether the connection is open to `peer` from the side other than `role`.
    pub fn rivals(&self, peer: &PeerIdentity, role: Role) -> (r: bool)
        ensures
            r == self@.rivals(peer@, role),
    {
        match &self.peer {
            Some(p) => self.state == ConnState::Open && self.role != role && p.same(peer),
            None => false,
        }
    }

    /// Whether the connection is open to `peer` and carries the probe.
    pub fn probes(&self, peer: &PeerIdentity) -> (r: bool)
        ensures
            r == self@.probes(peer@),
    {
        match &self.peer {
            Some(p) => self.state == ConnState::Open && self.probe.is_some() && p.same(peer),
            None => false,
        }
    }

    /// Withdraws the attempt if this side dialed and the peer has yet to
    /// authenticate; the next pass gives it up.
    pub fn withdraw(&mut self)
        ensures
            final(self)@ == (ConnModel {
                cancelled: old(self)@.cancelled || (old(self)@.pending() && old(self)@.role
                    == Role::Dialer),
                ..old(self)@
            }),
            old(self).wf() ==> final(self).wf(),
    {
        if self.is_pending() && self.role == Role::Dialer {
            self.cancelled = true;
        }
    }

    fn find_stream(&self, id: u64) -> (r: usize)
        ensures
            r == stream_index(self@.streams, id),
            r <= self@.streams.len(),
    {
        let mut i: usize = 0;
        while i < self.streams.len() && self.streams[i].id != id
            invariant
                i <= self.streams@.len(),
                forall|j: int| 0 <= j < i ==> !stream_numbered(id)(#[trigger] self.streams@[j]),
            decreases self.streams@.len() - i,
        {
            i += 1;
        }
        proof {
            lemma_first_where(self.streams@, stream_numbered(id), i as int);
        }
        i
    }

    fn report_dial_failure(&self, reason: DialError, events: &mut Vec<SwarmEvent>)
        ensures
            events_of(final(events)@) =~= events_of(old(events)@) + self@.dial_failure(reason),
    {
        if self.role == Role::Dialer {
            emit(events, SwarmEvent::DialFailure { addr: self.addr.clone(), error: reason });
        }
    }

    fn report_closure(&self, reason: CloseReason, events: &mut Vec<SwarmEvent>)
        ensures
            events_of(final(events)@) =~= events_of(old(events)@) + self@.closure(reason),
    {
        match &self.peer {
            Some(peer) => emit(events, SwarmEvent::ConnectionClosed { peer: peer.clone(), reason }),
            None => {},
        }
    }

    fn report_ping(&self, result: Result<u64, PingFailure>, events: &mut Vec<SwarmEvent>)
        ensures
            events_of(final(events)@) =~= events_of(old(events)@) + self@.ping_result(result),
    {
        match &self.peer {
            Some(peer) => emit(events, SwarmEvent::PingResult { peer: peer.clone(), result }),
            None => {},
        }
    }

    fn ask_teardown(&self, reason: DialError, actions: &mut Vec<Action>)
        ensures
            actions_of(final(actions)@) =~= actions_of(old(actions)@) + self@.teardown(reason),
    {
        if self.role == Role::Dialer {
            ask(actions, Action::Abort { conn: self.id, reason });
        } else {
            ask(actions, Action::Close { conn: self.id });
        }
    }

    fn withdrawn(&mut self, events: &mut Vec<SwarmEvent>, actions: &mut Vec<Action>)
        ensures
            applied(
                old(self)@.withdrawn(),
                final(self)@,
                events_of(old(events)@),
                events_of(final(events)@),
                actions_of(old(actions)@),
                actions_of(final(actions)@),
            ),
    {
        self.state = ConnState::Closing;
        ask(actions, Action::Abort { conn: self.id, reason: DialError::Cancelled });
    }

    fn connected(&mut self, events: &mut Vec<SwarmEvent>, actions: &mut Vec<Action>)
        ensures
            applied(
                old(self)@.connected(),
                final(self)@,
                events_of(old(events)@),
                events_of(final(events)@),
                actions_of(old(actions)@),
                actions_of(final(actions)@),
            ),
    {
        if self.state == ConnState::Connecting {
            self.state = ConnState::Authenticating;
        }
    }

    fn unreachable(&mut self, events: &mut Vec<SwarmEvent>, actions: &mut Vec<Action>)
        ensures
            applied(
                old(self)@.unreachable(),
                final(self)@,
                events_of(old(events)@),
                events_of(final(events)@),
                actions_of(old(actions)@),
                actions_of(final(actions)@),
            ),
    {
        if self.state == ConnState::Connecting {
            self.report_dial_failure(DialError::Unreachable, events);
            self.state = ConnState::Closed;
        }
    }

    fn authenticated(
        &mut self,
        peer: &PeerIdentity,
        rival: bool,
        events: &mut Vec<SwarmEvent>,
        actions: &mut Vec<Action>,
    )
        ensures
            applied(
                old(self)@.authenticated(peer@, rival),
                final(self)@,
                events_of(old(events)@),
                events_of(final(events)@),
                actions_of(old(actions)@),
                actions_of(final(actions)@),
            ),
    {
        if self.state != ConnState::Authenticating {
            return ;
        }
        if rival {
            if self.role == Role::Dialer {
                emit(
                    events,
                    SwarmEvent::DialFailure {
                        addr: self.addr.clone(),
                        error: DialError::Superseded,
                    },
                );
            } else {
                emit(
                    events,
                    SwarmEvent::ConnectionClosed {
                        peer: peer.clone(),
                        reason: CloseReason::Superseded,
                    },
                );
            }
            self.ask_teardown(DialError::Superseded, actions);
            self.state = ConnState::Closing;
        } else {
            emit(
                events,
                SwarmEvent::ConnectionEstablished { peer: peer.clone(), addr: self.addr.clone() },
            );
            self.state = ConnState::Open;
        }
        self.peer = Some(peer.clone());
    }

    fn refused(&mut self, events: &mut Vec<SwarmEvent>, actions: &mut Vec<Action>)
        ensures
            applied(
                old(self)@.refused(),
                final(self)@,
                events_of(old(events)@),
                events_of(final(events)@),
                actions_of(old(actions)@),
                actions_of(final(actions)@),
            ),
    {
        if self.state == ConnState::Authenticating {
            self.report_dial_failure(DialError::HandshakeFailed, events);
            self.state = ConnState::Closed;
        }
    }

    fn lost(
        &mut self,
        reason: CloseReason,
        events: &mut Vec<SwarmEvent>,
        actions: &mut Vec<Action>,
    )
        ensures
            applied(
                old(self)@.lost(reason),
                final(self)@,
                events_of(old(events)@),
                events_of(final(events)@),
                actions_of(old(actions)@),
                actions_of(final(actions)@),
            ),
    {
        match self.state {
            ConnState::Open => {
                self.report_closure(reason, events);
                self.state = ConnState::Closed;
            },
            ConnState::Connecting => self.unreachable(events, actions),
            ConnState::Authenticating => self.refused(events, actions),
            _ => {},
        }
    }

    fn stream_opened(
        &mut self,
        now: u64,
        nonce: u64,
        stream: u64,
        inbound: bool,
        taken: bool,
        events: &mut Vec<SwarmEvent>,
        actions: &mut Vec<Action>,
    )
        ensures
            applied(
                old(self)@.stream_opened(now, nonce, stream, inbound, taken),
                final(self)@,
                events_of(old(events)@),
                events_of(final(events)@),
                actions_of(old(actions)@),
                actions_of(final(actions)@),
            ),
    {
        if self.state != ConnState::Open {
            return ;
        }
        let i = self.find_stream(stream);
        if i < self.streams.len() {
            return ;
        }
        self.streams.push(StreamInfo { id: stream, inbound });
        if !inbound && self.probe.is_none() && !taken {
            self.probe = Some(Probe { stream, session: PingSession::open(now, nonce) });
            ask(actions, Action::Send { conn: self.id, stream, payload: encode_nonce(nonce) });
        }
    }

    fn stream_closed(
        &mut self,
        stream: u64,
        events: &mut Vec<SwarmEvent>,
        actions: &mut Vec<Action>,
    )
        ensures
            applied(
                old(self)@.stream_closed(stream),
                final(self)@,
                events_of(old(events)@),
                events_of(final(events)@),
                actions_of(old(actions)@),
                actions_of(final(actions)@),
            ),
    {
        if self.state != ConnState::Open {
            return ;
        }
        let i = self.find_stream(stream);
        if i < self.streams.len() {
            self.streams.remove(i);
        }
    }

    fn received(
        &mut self,
        cfg: &PingConfig,
        now: u64,
        stream: u64,
        payload: &Vec<u8>,
        events: &mut Vec<SwarmEvent>,
        actions: &mut Vec<Action>,
    )
        ensures
            applied(
                old(self)@.received(*cfg, now, stream, payload@),
                final(self)@,
                events_of(old(events)@),
                events_of(final(events)@),
                actions_of(old(actions)@),
                actions_of(final(actions)@),
            ),
    {
        if self.state != ConnState::Open {
            return ;
        }
        let i = self.find_stream(stream);
        if i >= self.streams.len() {
            return ;
        }
        if self.streams[i].inbound {
            ask(
                actions,
                Action::Send { conn: self.id, stream, payload: bytes_copy(payload.as_slice()) },
            );
            return ;
        }
        match self.probe {
            Some(probe) => {
                if probe.stream == stream {
                    let mut session = probe.session;
                    match session.on_payload(cfg, now, payload.as_slice()) {
                        Ok(rtt) => {
                            self.report_ping(Ok(rtt), events);
                            self.probe = Some(Probe { stream: probe.stream, session });
                        },
                        Err(error) => {
                            ask(actions, Action::Report { conn: self.id, error });
                        },
                    }
                }
            },
            None => {},
        }
    }

    /// Takes an input about this connection, reports what follows from it and
    /// asks the transport for what it calls for.
    pub fn react(
        &mut self,
        cfg: &SwarmConfig,
        now: u64,
        nonce: u64,
        input: &TransportEvent,
        rival: bool,
        taken: bool,
        events: &mut Vec<SwarmEvent>,
        actions: &mut Vec<Action>,
    )
        ensures
            applied(
                old(self)@.react(*cfg, now, nonce, input@, rival, taken),
                final(self)@,
                events_of(old(events)@),
                events_of(final(events)@),
                actions_of(old(actions)@),
                actions_of(final(actions)@),
            ),
            old(self).wf() ==> final(self).wf(),
    {
        proof {
            if self.wf() {
                lemma_react_sound(self@, *cfg, now, nonce, input@, rival, taken);
            }
        }
        if self.is_pending() && self.cancelled {
            self.withdrawn(events, actions);
            return ;
        }
        match input {
            TransportEvent::Connected { .. } => self.connected(events, actions),
            TransportEvent::Unreachable { .. } => self.unreachable(events, actions),
            TransportEvent::HandshakeDone { peer, .. } => self.authenticated(
                peer,
                rival,
                events,
                actions,
            ),
            TransportEvent::HandshakeFailed { .. } => self.refused(events, actions),
            TransportEvent::StreamOpened { stream, inbound, .. } => self.stream_opened(
                now,
                nonce,
                *stream,
                *inbound,
                taken,
                events,
                actions,
            ),
            TransportEvent::StreamClosed { stream, .. } => self.stream_closed(
                *stream,
                events,
                actions,
            ),
            TransportEvent::Data { stream, payload, .. } => self.received(
                &cfg.ping,
                now,
                *stream,
                payload,
                events,
                actions,
            ),
            TransportEvent::PeerClosed { .. } => self.lost(CloseReason::PeerClosed, events, actions),
            TransportEvent::IoError { .. } => self.lost(CloseReason::IoError, events, actions),
        }
    }

    fn overdue(&mut self, events: &mut Vec<SwarmEvent>, actions: &mut Vec<Action>)
        ensures
            applied(
                old(self)@.overdue(),
                final(self)@,
                events_of(old(events)@),
                events_of(final(events)@),
                actions_of(old(actions)@),
                actions_of(final(actions)@),
            ),
    {
        self.report_dial_failure(DialError::Timeout, events);
        self.ask_teardown(DialError::Timeout, actions);
        self.state = ConnState::Closing;
    }

    fn probed(
        &mut self,
        cfg: &PingConfig,
        now: u64,
        nonce: u64,
        probe: Probe,
        events: &mut Vec<SwarmEvent>,
        actions: &mut Vec<Action>,
    )
        ensures
            applied(
                old(self)@.probed(*cfg, now, nonce, probe),
                final(self)@,
                events_of(old(events)@),
                events_of(final(events)@),
                actions_of(old(actions)@),
                actions_of(final(actions)@),
            ),
    {
        let mut session = probe.session;
        match session.on_tick(cfg, now, nonce) {
            Tick::Quiet => {},
            Tick::Probe { nonce: fresh } => {
                ask(
                    actions,
                    Action::Send {
                        conn: self.id,
                        stream: probe.stream,
                        payload: encode_nonce(fresh),
                    },
                );
            },
            Tick::TimedOut { close } => {
                self.report_ping(Err(PingFailure::Timeout), events);
                if close {
                    self.report_closure(CloseReason::PingFailure, events);
                    ask(actions, Action::Close { conn: self.id });
                    self.state = ConnState::Closing;
                }
            },
        }
        self.probe = Some(Probe { stream: probe.stream, session });
    }

    /// The time from which the end of a pass has something to do for this
    /// connection.
    pub fn next_deadline(&self, cfg: &SwarmConfig) -> (r: Option<u64>)
        ensures
            r == self@.deadline(*cfg),
    {
        if self.is_pending() {
            if self.cancelled || cfg.dial_timeout == 0 {
                Some(0)
            } else {
                time_after(self.created_at, cfg.dial_timeout)
            }
        } else if self.state == ConnState::Open {
            match self.probe {
                Some(probe) => probe.session.next_deadline(&cfg.ping),
                None => None,
            }
        } else {
            Some(0)
        }
    }

    /// Ends a pass at `now` for this connection.
    pub fn tick(
        &mut self,
        cfg: &SwarmConfig,
        now: u64,
        nonce: u64,
        events: &mut Vec<SwarmEvent>,
        actions: &mut Vec<Action>,
    )
        ensures
            applied(
                old(self)@.tick(*cfg, now, nonce),
                final(self)@,
                events_of(old(events)@),
                events_of(final(events)@),
                actions_of(old(actions)@),
                actions_of(final(actions)@),
            ),
            old(self).wf() ==> final(self).wf(),
    {
        proof {
            if self.wf() {
                lemma_tick_sound(self@, *cfg, now, nonce);
            }
        }
        if self.is_pending() {
            if self.cancelled {
                self.withdrawn(events, actions);
            } else if time_since(now, self.created_at) >= cfg.dial_timeout {
                self.overdue(events, actions);
            }
        } else if self.state == ConnState::Open {
            match self.probe {
                Some(probe) => self.probed(&cfg.ping, now, nonce, probe, events, actions),
                None => {},
            }
        }
    }
}

} // verus!
