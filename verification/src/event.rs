//! What goes into the engine and what comes out of it.

use vstd::prelude::*;
use crate::address::Multiaddr;
use crate::bytes::bytes_copy;
use crate::identity::PeerIdentity;
use crate::ping::{PingFailure, ProtocolError};

verus! {

/// Which side opened a connection.
#[derive(Clone, Copy, Debug, PartialEq, Eq, Structural)]
pub enum Role {
    Dialer,
    Listener,
}

/// Why an outbound attempt came to nothing.
#[derive(Clone, Copy, Debug, PartialEq, Eq, Structural)]
pub enum DialError {
    /// No link to the address could be made.
    Unreachable,
    /// The link was made but the peer did not authenticate.
    HandshakeFailed,
    /// The attempt took longer than the engine allows.
    Timeout,
    /// A connection to the same peer from the other side was there first.
    Superseded,
    /// The caller withdrew the attempt.
    Cancelled,
}

/// Why an established connection ended.
#[derive(Clone, Copy, Debug, PartialEq, Eq, Structural)]
pub enum CloseReason {
    PeerClosed,
    IoError,
    /// The liveness probe failed as often as the engine tolerates.
    PingFailure,
    /// A connection to the same peer from the other side was there first.
    Superseded,
}

/// Why the engine does not listen on an address.
#[derive(Clone, Copy, Debug, PartialEq, Eq, Structural)]
pub enum ListenError {
    AddressUnsupported,
    AlreadyBound,
    PermissionDenied,
}

/// What the system said when the acceptor was bound.
#[derive(Clone, Copy, Debug, PartialEq, Eq, Structural)]
pub enum Bind {
    Bound,
    InUse,
    Denied,
}

/// What the engine reports to its driver.
#[derive(Debug, PartialEq, Eq)]
pub enum SwarmEvent {
    ConnectionEstablished { peer: PeerIdentity, addr: Multiaddr },
    ConnectionClosed { peer: PeerIdentity, reason: CloseReason },
    DialFailure { addr: Multiaddr, error: DialError },
    PingResult { peer: PeerIdentity, result: Result<u64, PingFailure> },
}

/// A `SwarmEvent` with identities and addresses taken by their bytes.
pub enum EventModel {
    ConnectionEstablished { peer: Seq<u8>, addr: Seq<u8> },
    ConnectionClosed { peer: Seq<u8>, reason: CloseReason },
    DialFailure { addr: Seq<u8>, error: DialError },
    PingResult { peer: Seq<u8>, result: Result<u64, PingFailure> },
}

impl View for SwarmEvent {
    type V = EventModel;

    open spec fn view(&self) -> EventModel {
        match *self {
            SwarmEvent::ConnectionEstablished { peer, addr } => EventModel::ConnectionEstablished {
                peer: peer@,
                addr: addr@,
            },
            SwarmEvent::ConnectionClosed { peer, reason } => EventModel::ConnectionClosed {
                peer: peer@,
                reason,
            },
            SwarmEvent::DialFailure { addr, error } => EventModel::DialFailure {
                addr: addr@,
                error,
            },
            SwarmEvent::PingResult { peer, result } => EventModel::PingResult {
                peer: peer@,
                result,
            },
        }
    }
}

impl Clone for SwarmEvent {
    fn clone(&self) -> (r: Self)
        ensures
            r@ == self@,
    {
        match self {
            SwarmEvent::ConnectionEstablished { peer, addr } => SwarmEvent::ConnectionEstablished {
                peer: peer.clone(),
                addr: addr.clone(),
            },
            SwarmEvent::ConnectionClosed { peer, reason } => SwarmEvent::ConnectionClosed {
                peer: peer.clone(),
                reason: *reason,
            },
            SwarmEvent::DialFailure { addr, error } => SwarmEvent::DialFailure {
                addr: addr.clone(),
                error: *error,
            },
            SwarmEvent::PingResult { peer, result } => SwarmEvent::PingResult {
                peer: peer.clone(),
                result: *result,
            },
        }
    }
}

impl SwarmEvent {
    /// The kind of the event as a word, for the log.
    pub fn kind(&self) -> (r: &'static str)
        ensures
            r@ == match self@ {
                EventModel::ConnectionEstablished { .. } => "ConnectionEstablished"@,
                EventModel::ConnectionClosed { .. } => "ConnectionClosed"@,
                EventModel::DialFailure { .. } => "DialFailure"@,
                EventModel::PingResult { .. } => "PingResult"@,
            },
    {
        match self {
            SwarmEvent::ConnectionEstablished { .. } => "ConnectionEstablished",
            SwarmEvent::ConnectionClosed { .. } => "ConnectionClosed",
            SwarmEvent::DialFailure { .. } => "DialFailure",
            SwarmEvent::PingResult { .. } => "PingResult",
        }
    }
}

/// The events in a vector, each by its model.
pub open spec fn events_of(v: Seq<SwarmEvent>) -> Seq<EventModel> {
    Seq::new(v.len(), |i: int| v[i]@)
}

/// What the transport tells the engine about a connection. `conn` is the
/// number under which the engine handed the connection out.
#[derive(Debug, PartialEq, Eq)]
pub enum TransportEvent {
    /// The link of an outbound attempt stands.
    Connected { conn: u64 },
    /// The link of an outbound attempt could not be made.
    Unreachable { conn: u64 },
    /// The peer authenticated as `peer`.
    HandshakeDone { conn: u64, peer: PeerIdentity },
    /// The peer did not authenticate.
    HandshakeFailed { conn: u64 },
    /// A stream was opened, by the peer if `inbound`.
    StreamOpened { conn: u64, stream: u64, inbound: bool },
    /// A stream ended.
    StreamClosed { conn: u64, stream: u64 },
    /// A payload arrived on a stream.
    Data { conn: u64, stream: u64, payload: Vec<u8> },
    /// The peer closed the connection.
    PeerClosed { conn: u64 },
    /// The link broke.
    IoError { conn: u64 },
}

/// A `TransportEvent` with the identity taken by its bytes.
pub enum InputModel {
    Connected { conn: u64 },
    Unreachable { conn: u64 },
    HandshakeDone { conn: u64, peer: Seq<u8> },
    HandshakeFailed { conn: u64 },
    StreamOpened { conn: u64, stream: u64, inbound: bool },
    StreamClosed { conn: u64, stream: u64 },
    Data { conn: u64, stream: u64, payload: Seq<u8> },
    PeerClosed { conn: u64 },
    IoError { conn: u64 },
}

impl InputModel {
    /// The connection that the input is about.
    pub open spec fn conn(self) -> u64 {
        match self {
            InputModel::Connected { conn } => conn,
            InputModel::Unreachable { conn } => conn,
            InputModel::HandshakeDone { conn, .. } => conn,
            InputModel::HandshakeFailed { conn } => conn,
            InputModel::StreamOpened { conn, .. } => conn,
            InputModel::StreamClosed { conn, .. } => conn,
            InputModel::Data { conn, .. } => conn,
            InputModel::PeerClosed { conn } => conn,
            InputModel::IoError { conn } => conn,
        }
    }
}

impl View for TransportEvent {
    type V = InputModel;

    open spec fn view(&self) -> InputModel {
        match *self {
            TransportEvent::Connected { conn } => InputModel::Connected { conn },
            TransportEvent::Unreachable { conn } => InputModel::Unreachable { conn },
            TransportEvent::HandshakeDone { conn, peer } => InputModel::HandshakeDone {
                conn,
                peer: peer@,
            },
            TransportEvent::HandshakeFailed { conn } => InputModel::HandshakeFailed { conn },
            TransportEvent::StreamOpened { conn, stream, inbound } => InputModel::StreamOpened {
                conn,
                stream,
                inbound,
            },
            TransportEvent::StreamClosed { conn, stream } => InputModel::StreamClosed {
                conn,
                stream,
            },
            TransportEvent::Data { conn, stream, payload } => InputModel::Data {
                conn,
                stream,
                payload: payload@,
            },
            TransportEvent::PeerClosed { conn } => InputModel::PeerClosed { conn },
            TransportEvent::IoError { conn } => InputModel::IoError { conn },
        }
    }
}

impl TransportEvent {
    /// The connection that the event is about.
    pub fn conn(&self) -> (r: u64)
        ensures
            r == self@.conn(),
    {
        match self {
            TransportEvent::Connected { conn } => *conn,
            TransportEvent::Unreachable { conn } => *conn,
            TransportEvent::HandshakeDone { conn, .. } => *conn,
            TransportEvent::HandshakeFailed { conn } => *conn,
            TransportEvent::StreamOpened { conn, .. } => *conn,
            TransportEvent::StreamClosed { conn, .. } => *conn,
            TransportEvent::Data { conn, .. } => *conn,
            TransportEvent::PeerClosed { conn } => *conn,
            TransportEvent::IoError { conn } => *conn,
        }
    }
}

/// The inputs in a vector, each by its model.
pub open spec fn inputs_of(v: Seq<TransportEvent>) -> Seq<InputModel> {
    Seq::new(v.len(), |i: int| v[i]@)
}

/// What the engine asks the transport to do.
#[derive(Debug, PartialEq, Eq)]
pub enum Action {
    /// Write the payload to the stream.
    Send { conn: u64, stream: u64, payload: Vec<u8> },
    /// Close the connection.
    Close { conn: u64 },
    /// Give up the outbound attempt.
    Abort { conn: u64, reason: DialError },
    /// Note an error that has no other consequence.
    Report { conn: u64, error: ProtocolError },
}

/// An `Action` with the payload taken by its bytes.
pub enum ActionModel {
    Send { conn: u64, stream: u64, payload: Seq<u8> },
    Close { conn: u64 },
    Abort { conn: u64, reason: DialError },
    Report { conn: u64, error: ProtocolError },
}

impl View for Action {
    type V = ActionModel;

    open spec fn view(&self) -> ActionModel {
        match *self {
            Action::Send { conn, stream, payload } => ActionModel::Send {
                conn,
                stream,
                payload: payload@,
            },
            Action::Close { conn } => ActionModel::Close { conn },
            Action::Abort { conn, reason } => ActionModel::Abort { conn, reason },
            Action::Report { conn, error } => ActionModel::Report { conn, error },
        }
    }
}

impl Clone for Action {
    fn clone(&self) -> (r: Self)
        ensures
            r@ == self@,
    {
        match self {
            Action::Send { conn, stream, payload } => Action::Send {
                conn: *conn,
                stream: *stream,
                payload: bytes_copy(payload.as_slice()),
            },
            Action::Close { conn } => Action::Close { conn: *conn },
            Action::Abort { conn, reason } => Action::Abort { conn: *conn, reason: *reason },
            Action::Report { conn, error } => Action::Report { conn: *conn, error: *error },
        }
    }
}

/// The actions in a vector, each by its model.
pub open spec fn actions_of(v: Seq<Action>) -> Seq<ActionModel> {
    Seq::new(v.len(), |i: int| v[i]@)
}

} // verus!
