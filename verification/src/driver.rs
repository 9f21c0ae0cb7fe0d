//! What the program around the engine decides: whom to dial at startup, when
//! to stop, and how it ends.

use vstd::prelude::*;
use vstd::string::StringSliceAdditionalSpecFns;
use crate::address::{parse_model, Multiaddr};
use crate::event::{
    actions_of, events_of, inputs_of, Action, ListenError, SwarmEvent, TransportEvent,
};
use crate::identity::IdentityError;
use crate::peers::{addresses, IOError};
use crate::swarm::{DialHandle, Swarm, SwarmModel};

verus! {

/// Where the program finds what it starts with.
#[derive(Debug, PartialEq, Eq)]
pub struct Options {
    /// The file that holds the node's identity.
    pub identity: String,
    /// The file that holds the peer list.
    pub peers: String,
    /// The address to listen on, as text.
    pub listen: String,
}

impl Default for Options {
    fn default() -> (r: Options)
        ensures
            r.identity@ == "p2p.id"@,
            r.peers@ == "p2p.peers"@,
            r.listen@ == "/ip4/0.0.0.0/tcp/0"@,
    {
        Options {
            identity: "p2p.id".to_owned(),
            peers: "p2p.peers".to_owned(),
            listen: "/ip4/0.0.0.0/tcp/0".to_owned(),
        }
    }
}

/// The engine after an attempt at each of the addresses, in their order. An
/// address for which no connection number is left is passed over.
pub open spec fn dialed_all(m: SwarmModel, addrs: Seq<Seq<u8>>, now: u64) -> SwarmModel
    decreases addrs.len(),
{
    if addrs.len() == 0 {
        m
    } else {
        let before = dialed_all(m, addrs.drop_last(), now);
        if before.next_id < u64::MAX {
            before.dialed(addrs.last(), now)
        } else {
            before
        }
    }
}

/// The numbers of the attempts that `dialed_all` begins.
pub open spec fn dialed_ids(m: SwarmModel, addrs: Seq<Seq<u8>>, now: u64) -> Seq<u64>
    decreases addrs.len(),
{
    if addrs.len() == 0 {
        Seq::empty()
    } else {
        let before = dialed_all(m, addrs.drop_last(), now);
        let ids = dialed_ids(m, addrs.drop_last(), now);
        if before.next_id < u64::MAX {
            ids.push(before.next_id)
        } else {
            ids
        }
    }
}

/// The connection numbers of the handles in a vector.
pub open spec fn handle_ids(v: Seq<DialHandle>) -> Seq<u64> {
    Seq::new(v.len(), |i: int| v[i].conn)
}

/// Begins an attempt at every peer of the list, in the order of the list, and
/// hands back the handles of the attempts. No attempt is tried again.
pub fn dial_all(swarm: &mut Swarm, peers: Vec<Multiaddr>, now: u64) -> (r: Vec<DialHandle>)
    ensures
        final(swarm)@ == dialed_all(old(swarm)@, addresses(peers@), now),
        handle_ids(r@) == dialed_ids(old(swarm)@, addresses(peers@), now),
        old(swarm).wf() ==> final(swarm).wf(),
{
    let ghost start = swarm@;
    let ghost addrs = addresses(peers@);
    let mut handles: Vec<DialHandle> = Vec::new();
    let mut i: usize = 0;
    assert(handle_ids(handles@) =~= Seq::<u64>::empty());
    while i < peers.len()
        invariant
            i <= peers@.len(),
            addrs == addresses(peers@),
            swarm@ == dialed_all(start, addrs.take(i as int), now),
            handle_ids(handles@) == dialed_ids(start, addrs.take(i as int), now),
            old(swarm).wf() ==> swarm.wf(),
        decreases peers@.len() - i,
    {
        assert(addrs.take(i + 1).drop_last() =~= addrs.take(i as int));
        assert(addrs.take(i + 1).last() == peers@[i as int]@);
        if swarm.has_ids_left() {
            let ghost before = handle_ids(handles@);
            let handle = swarm.dial(peers[i].clone(), now);
            handles.push(handle);
            assert(handle_ids(handles@) =~= before.push(handle.conn));
        }
        i += 1;
    }
    assert(addrs.take(i as int) =~= addrs);
    handles
}

/// What the driver does next.
#[derive(Clone, Copy, Debug, PartialEq, Eq, Structural)]
pub enum DriverStep {
    /// Run another pass.
    Poll,
    /// End the loop.
    Stop,
}

/// Decides whether the driver runs another pass. It stops when it was told to
/// shut down, or when the engine has no listener and no connection left.
pub fn next_step(swarm: &Swarm, shutdown: bool) -> (r: DriverStep)
    ensures
        r == (if shutdown || swarm@.idle() {
            DriverStep::Stop
        } else {
            DriverStep::Poll
        }),
{
    if shutdown || swarm.is_idle() {
        DriverStep::Stop
    } else {
        DriverStep::Poll
    }
}

/// What one turn of the driver's loop yields.
#[derive(Debug)]
pub struct Turn {
    /// What the pass reported, for the log.
    pub events: Vec<SwarmEvent>,
    /// What the transport is asked to do.
    pub actions: Vec<Action>,
    /// Whether the loop goes on.
    pub next: DriverStep,
    /// The time up to which the loop may wait for the transport.
    pub wake: Option<u64>,
}

/// Runs one turn of the driver's loop: a pass of the engine on what the
/// transport told, then what there is to log and to do, whether to go on, and
/// how long the loop may sleep if the transport stays silent.
pub fn turn(
    swarm: &mut Swarm,
    now: u64,
    nonce: u64,
    inputs: Vec<TransportEvent>,
    shutdown: bool,
) -> (r: Turn)
    ensures
        events_of(r.events@) == old(swarm)@.poll(now, nonce, inputs_of(inputs@)).1,
        actions_of(r.actions@) == old(swarm)@.poll(now, nonce, inputs_of(inputs@)).0.outbox,
        final(swarm)@ == (SwarmModel {
            outbox: Seq::empty(),
            ..old(swarm)@.poll(now, nonce, inputs_of(inputs@)).0
        }),
        r.next == (if shutdown || final(swarm)@.idle() {
            DriverStep::Stop
        } else {
            DriverStep::Poll
        }),
        r.wake == final(swarm)@.deadline(),
        old(swarm).wf() ==> final(swarm).wf(),
{
    let events = swarm.poll(now, nonce, inputs);
    let actions = swarm.take_actions();
    let next = next_step(swarm, shutdown);
    let wake = swarm.next_deadline();
    proof {
        lemma_deadline_ignores_outbox(swarm@, old(swarm)@.poll(now, nonce, inputs_of(inputs@)).0);
    }
    Turn { events, actions, next, wake }
}

proof fn lemma_deadline_ignores_outbox(a: SwarmModel, b: SwarmModel)
    requires
        a.conns == b.conns,
        a.config == b.config,
    ensures
        a.deadline() == b.deadline(),
{
    lemma_deadline_upto_ignores_outbox(a, b, a.conns.len());
}

proof fn lemma_deadline_upto_ignores_outbox(a: SwarmModel, b: SwarmModel, k: nat)
    requires
        a.conns == b.conns,
        a.config == b.config,
        k <= a.conns.len(),
    ensures
        a.deadline_upto(k) == b.deadline_upto(k),
    decreases k,
{
    if k > 0 {
        lemma_deadline_upto_ignores_outbox(a, b, (k - 1) as nat);
    }
}

/// Why the program could not start.
#[derive(Clone, Copy, Debug, PartialEq, Eq, Structural)]
pub enum StartupError {
    /// The listen address is no address.
    ListenAddress,
    /// The identity could not be loaded or stored.
    Identity(IdentityError),
    /// The peer list could not be read.
    PeerList(IOError),
    /// The transport could not be set up.
    Transport,
    /// The engine does not listen on the address.
    Listen(ListenError),
}

impl From<IdentityError> for StartupError {
    fn from(error: IdentityError) -> (r: StartupError) {
        StartupError::Identity(error)
    }
}

impl vstd::std_specs::convert::FromSpecImpl<IdentityError> for StartupError {
    open spec fn obeys_from_spec() -> bool {
        true
    }

    open spec fn from_spec(v: IdentityError) -> StartupError {
        StartupError::Identity(v)
    }
}

impl From<IOError> for StartupError {
    fn from(error: IOError) -> (r: StartupError) {
        StartupError::PeerList(error)
    }
}

impl vstd::std_specs::convert::FromSpecImpl<IOError> for StartupError {
    open spec fn obeys_from_spec() -> bool {
        true
    }

    open spec fn from_spec(v: IOError) -> StartupError {
        StartupError::PeerList(v)
    }
}

impl From<ListenError> for StartupError {
    fn from(error: ListenError) -> (r: StartupError) {
        StartupError::Listen(error)
    }
}

impl vstd::std_specs::convert::FromSpecImpl<ListenError> for StartupError {
    open spec fn obeys_from_spec() -> bool {
        true
    }

    open spec fn from_spec(v: ListenError) -> StartupError {
        StartupError::Listen(v)
    }
}

/// Reads the address to listen on from its text. A text that is no address
/// keeps the program from starting.
pub fn listen_address(text: &str) -> (r: Result<Multiaddr, StartupError>)
    ensures
        match parse_model(text.spec_bytes()) {
            Some(bytes) => r matches Ok(a) && a@ == bytes,
            None => r matches Err(e) && e == StartupError::ListenAddress,
        },
{
    match Multiaddr::parse(text) {
        Some(address) => Ok(address),
        None => Err(StartupError::ListenAddress),
    }
}

/// The code with which the program ends: zero after a clean shutdown, one
/// after an error at startup.
pub fn exit_code(outcome: Result<(), StartupError>) -> (r: u8)
    ensures
        r == (if outcome is Ok {
            0u8
        } else {
            1u8
        }),
{
    match outcome {
        Ok(_) => 0,
        Err(_) => 1,
    }
}

} // verus!
