//! The swarm engine: the live connections, the listeners, and the pass that
//! advances them all.

use vstd::prelude::*;
use crate::address::{tcp_over_ip, Multiaddr};
use crate::connection::{ConnModel, Connection, Reaction, SwarmConfig};
use crate::event::{
    actions_of, events_of, inputs_of, Action, ActionModel, Bind, EventModel, InputModel,
    ListenError, Role, SwarmEvent, TransportEvent,
};
use crate::identity::PeerIdentity;
use crate::ping::{earlier, sooner};
use crate::laws::reachable::{
    inv, lemma_cancel_keeps_inv, lemma_close_keeps_inv, lemma_dial_keeps_inv,
    lemma_listen_keeps_inv, lemma_poll_keeps_inv, lemma_step_keeps_inv, settled,
};
use crate::peers::addresses;
use crate::search::{first_where, lemma_first_where};

verus! {

/// The connections with the given number.
pub open spec fn conn_numbered(id: u64) -> spec_fn(ConnModel) -> bool {
    |c: ConnModel| c.id == id
}

/// The addresses equal to the given one.
pub open spec fn address_is(addr: Seq<u8>) -> spec_fn(Seq<u8>) -> bool {
    |a: Seq<u8>| a == addr
}

/// The connections of a sequence that belong to the live set, in their order.
pub open spec fn live_only(conns: Seq<ConnModel>) -> Seq<ConnModel>
    decreases conns.len(),
{
    if conns.len() == 0 {
        conns
    } else {
        let rest = live_only(conns.drop_last());
        if conns.last().live() {
            rest.push(conns.last())
        } else {
            rest
        }
    }
}

/// What the engine is.
#[verifier::ext_equal]
pub struct SwarmModel {
    pub config: SwarmConfig,
    /// The addresses listened on, in the order in which they were bound.
    pub listeners: Seq<Seq<u8>>,
    /// The connections, in the order in which they were made.
    pub conns: Seq<ConnModel>,
    /// The number that the next connection gets.
    pub next_id: u64,
    /// What the transport has been asked to do and has not yet taken.
    pub outbox: Seq<ActionModel>,
}

impl SwarmModel {
    /// An engine without listeners and connections.
    pub open spec fn empty(config: SwarmConfig) -> SwarmModel {
        SwarmModel {
            config,
            listeners: Seq::empty(),
            conns: Seq::empty(),
            next_id: 0,
            outbox: Seq::empty(),
        }
    }

    /// Index of the connection with the given number, or the number of
    /// connections if there is none.
    pub open spec fn position(self, id: u64) -> int {
        first_where(self.conns, conn_numbered(id))
    }

    /// Whether a connection with the given number is held.
    pub open spec fn holds(self, id: u64) -> bool {
        self.position(id) < self.conns.len()
    }

    /// Whether a connection is open to `peer` from the side other than `role`.
    pub open spec fn rival(self, peer: Seq<u8>, role: Role) -> bool {
        exists|j: int| 0 <= j < self.conns.len() && (#[trigger] self.conns[j]).rivals(peer, role)
    }

    /// Whether a connection from the other side is open to the peer that the
    /// input says has authenticated.
    pub open spec fn rival_for(self, input: InputModel, role: Role) -> bool {
        match input {
            InputModel::HandshakeDone { peer, .. } => self.rival(peer, role),
            _ => false,
        }
    }

    /// Whether an open connection to the peer carries the probe.
    pub open spec fn taken(self, peer: Option<Seq<u8>>) -> bool {
        match peer {
            Some(p) => exists|j: int|
                0 <= j < self.conns.len() && (#[trigger] self.conns[j]).probes(p),
            None => false,
        }
    }

    /// The engine after the connection at `i` has reacted.
    pub open spec fn with_reaction(self, i: int, r: Reaction) -> SwarmModel {
        SwarmModel { conns: self.conns.update(i, r.conn), outbox: self.outbox + r.actions, ..self }
    }

    /// What `listen` answers before the system is asked.
    pub open spec fn listen_check(self, addr: Seq<u8>) -> Result<(), ListenError> {
        if !tcp_over_ip(addr) {
            Err(ListenError::AddressUnsupported)
        } else if self.listeners.contains(addr) {
            Err(ListenError::AlreadyBound)
        } else {
            Ok(())
        }
    }

    /// What `listen` answers.
    pub open spec fn listen_result(self, addr: Seq<u8>, bind: Bind) -> Result<(), ListenError> {
        match self.listen_check(addr) {
            Err(e) => Err(e),
            Ok(_) => match bind {
                Bind::Bound => Ok(()),
                Bind::InUse => Err(ListenError::AlreadyBound),
                Bind::Denied => Err(ListenError::PermissionDenied),
            },
        }
    }

    /// The engine after `listen`.
    pub open spec fn listened(self, addr: Seq<u8>, bind: Bind) -> SwarmModel {
        if self.listen_result(addr, bind) is Ok {
            SwarmModel { listeners: self.listeners.push(addr), ..self }
        } else {
            self
        }
    }

    /// The engine after `unlisten`.
    pub open spec fn unlistened(self, addr: Seq<u8>) -> SwarmModel {
        let i = first_where(self.listeners, address_is(addr));
        if i < self.listeners.len() {
            SwarmModel { listeners: self.listeners.remove(i), ..self }
        } else {
            self
        }
    }

    /// The engine after `dial`.
    pub open spec fn dialed(self, addr: Seq<u8>, now: u64) -> SwarmModel {
        SwarmModel {
            conns: self.conns.push(ConnModel::outbound(self.next_id, addr, now)),
            next_id: (self.next_id + 1) as u64,
            ..self
        }
    }

    /// The engine after `accept`.
    pub open spec fn accepted(self, addr: Seq<u8>, now: u64) -> SwarmModel {
        SwarmModel {
            conns: self.conns.push(ConnModel::inbound(self.next_id, addr, now)),
            next_id: (self.next_id + 1) as u64,
            ..self
        }
    }

    /// The engine after `cancel`: an attempt of this side whose peer has yet to
    /// authenticate is marked as withdrawn.
    pub open spec fn cancelled(self, id: u64) -> SwarmModel {
        let i = self.position(id);
        if i < self.conns.len() {
            let c = self.conns[i];
            SwarmModel {
                conns: self.conns.update(
                    i,
                    ConnModel {
                        cancelled: c.cancelled || (c.pending() && c.role == Role::Dialer),
                        ..c
                    },
                ),
                ..self
            }
        } else {
            self
        }
    }

    /// The engine after `close`: the connection is gone, its streams with it,
    /// and the transport is asked to close it.
    pub open spec fn closed(self, id: u64) -> SwarmModel {
        let i = self.position(id);
        if i < self.conns.len() {
            SwarmModel {
                conns: self.conns.remove(i),
                outbox: self.outbox.push(ActionModel::Close { conn: id }),
                ..self
            }
        } else {
            self
        }
    }

    /// What one input does: the connection it is about reacts; an input about
    /// no connection that is held does nothing.
    pub open spec fn step(self, now: u64, nonce: u64, input: InputModel) -> (
        SwarmModel,
        Seq<EventModel>,
    ) {
        let i = self.position(input.conn());
        if i >= self.conns.len() {
            (self, Seq::empty())
        } else {
            let c = self.conns[i];
            let r = c.react(
                self.config,
                now,
                nonce,
                input,
                self.rival_for(input, c.role),
                self.taken(c.peer),
            );
            (self.with_reaction(i, r), r.events)
        }
    }

    /// What a sequence of inputs does, one after the other, with the events in
    /// the order in which they came about.
    pub open spec fn run(self, now: u64, nonce: u64, inputs: Seq<InputModel>) -> (
        SwarmModel,
        Seq<EventModel>,
    )
        decreases inputs.len(),
    {
        if inputs.len() == 0 {
            (self, Seq::empty())
        } else {
            let (m, e) = self.run(now, nonce, inputs.drop_last());
            let (m2, e2) = m.step(now, nonce, inputs.last());
            (m2, e + e2)
        }
    }

    /// What the end of a pass does to the connection at `i`.
    pub open spec fn tick_at(self, now: u64, nonce: u64, i: int) -> (SwarmModel, Seq<EventModel>) {
        let r = self.conns[i].tick(self.config, now, nonce);
        (self.with_reaction(i, r), r.events)
    }

    /// What the end of a pass does to the first `k` connections, in their order.
    pub open spec fn tick_upto(self, now: u64, nonce: u64, k: nat) -> (
        SwarmModel,
        Seq<EventModel>,
    )
        decreases k,
    {
        if k == 0 {
            (self, Seq::empty())
        } else {
            let (m, e) = self.tick_upto(now, nonce, (k - 1) as nat);
            let (m2, e2) = m.tick_at(now, nonce, k - 1);
            (m2, e + e2)
        }
    }

    /// The engine without the connections that have left the live set.
    pub open spec fn swept(self) -> SwarmModel {
        SwarmModel { conns: live_only(self.conns), ..self }
    }

    /// What a pass does: the inputs are taken in their order, then every
    /// connection has its end of the pass, then the connections that have
    /// left the live set are removed.
    pub open spec fn poll(self, now: u64, nonce: u64, inputs: Seq<InputModel>) -> (
        SwarmModel,
        Seq<EventModel>,
    ) {
        let (m1, e1) = self.run(now, nonce, inputs);
        let (m2, e2) = m1.tick_upto(now, nonce, m1.conns.len());
        (m2.swept(), e1 + e2)
    }

    /// The earliest deadline among the first `k` connections.
    pub open spec fn deadline_upto(self, k: nat) -> Option<u64>
        decreases k,
    {
        if k == 0 {
            None
        } else {
            sooner(self.deadline_upto((k - 1) as nat), self.conns[k - 1].deadline(self.config))
        }
    }

    /// The time from which a pass without inputs has something to do, if there
    /// is one: the earliest deadline among the connections.
    pub open spec fn deadline(self) -> Option<u64> {
        self.deadline_upto(self.conns.len())
    }

    /// Whether nothing is left to do: no listener and no connection.
    pub open spec fn idle(self) -> bool {
        self.listeners.len() == 0 && self.conns.len() == 0
    }
}

/// The connections in a vector, each by its model.
pub open spec fn conns_of(v: Seq<Connection>) -> Seq<ConnModel> {
    Seq::new(v.len(), |i: int| v[i]@)
}

/// The handle of an outbound attempt.
#[derive(Clone, Copy, Debug, PartialEq, Eq, Structural)]
pub struct DialHandle {
    /// The number of the connection that the attempt makes.
    pub conn: u64,
}

/// The swarm engine.
#[derive(Debug)]
pub struct Swarm {
    config: SwarmConfig,
    listeners: Vec<Multiaddr>,
    conns: Vec<Connection>,
    next_id: u64,
    outbox: Vec<Action>,
}

impl View for Swarm {
    type V = SwarmModel;

    closed spec fn view(&self) -> SwarmModel {
        SwarmModel {
            config: self.config,
            listeners: addresses(self.listeners@),
            conns: conns_of(self.conns@),
            next_id: self.next_id,
            outbox: actions_of(self.outbox@),
        }
    }
}

impl Swarm {
    /// Whether the engine is as every call leaves it: its connections are
    /// sound, no two of them are at odds, and all of them are live.
    pub open spec fn wf(&self) -> bool {
        inv(self@) && settled(self@)
    }

    /// An engine without listeners and connections.
    pub fn new(config: SwarmConfig) -> (r: Swarm)
        ensures
            r@ == SwarmModel::empty(config),
            r.wf(),
    {
        let r = Swarm {
            config,
            listeners: Vec::new(),
            conns: Vec::new(),
            next_id: 0,
            outbox: Vec::new(),
        };
        assert(r@ =~~= SwarmModel::empty(config));
        r
    }

    /// The engine's settings.
    pub fn config(&self) -> (r: SwarmConfig)
        ensures
            r == self@.config,
    {
        self.config
    }

    /// Number of connections held.
    pub fn connection_count(&self) -> (r: usize)
        ensures
            r == self@.conns.len(),
    {
        self.conns.len()
    }

    /// Number of addresses listened on.
    pub fn listener_count(&self) -> (r: usize)
        ensures
            r == self@.listeners.len(),
    {
        self.listeners.len()
    }

    /// Whether another connection can get a number.
    pub fn has_ids_left(&self) -> (r: bool)
        ensures
            r == (self@.next_id < u64::MAX),
    {
        self.next_id < u64::MAX
    }

    /// Whether nothing is left to do: no listener and no connection.
    pub fn is_idle(&self) -> (r: bool)
        ensures
            r == self@.idle(),
    {
        self.listeners.len() == 0 && self.conns.len() == 0
    }

    /// The time from which a pass has something to do even without inputs. Until
    /// then the driver need not run one unless the transport has something to tell.
    pub fn next_deadline(&self) -> (r: Option<u64>)
        ensures
            r == self@.deadline(),
    {
        let mut soonest: Option<u64> = None;
        let mut i: usize = 0;
        while i < self.conns.len()
            invariant
                i <= self.conns@.len(),
                soonest == self@.deadline_upto(i as nat),
            decreases self.conns@.len() - i,
        {
            soonest = earlier(soonest, self.conns[i].next_deadline(&self.config));
            i += 1;
        }
        soonest
    }

    fn find(&self, id: u64) -> (r: usize)
        ensures
            r == self@.position(id),
            r <= self@.conns.len(),
    {
        let mut i: usize = 0;
        while i < self.conns.len() && self.conns[i].id() != id
            invariant
                i <= self.conns@.len(),
                forall|j: int| 0 <= j < i ==> !conn_numbered(id)(#[trigger] self@.conns[j]),
            decreases self.conns@.len() - i,
        {
            i += 1;
        }
        proof {
            lemma_first_where(self@.conns, conn_numbered(id), i as int);
        }
        i
    }

    /// The connection with the given number, if it is held.
    pub fn connection(&self, id: u64) -> (r: Option<&Connection>)
        ensures
            r is Some <==> self@.holds(id),
            r matches Some(c) ==> c@ == self@.conns[self@.position(id)],
    {
        let i = self.find(id);
        if i < self.conns.len() {
            Some(&self.conns[i])
        } else {
            None
        }
    }

    fn has_rival(&self, peer: &PeerIdentity, role: Role) -> (r: bool)
        ensures
            r == self@.rival(peer@, role),
    {
        let mut i: usize = 0;
        while i < self.conns.len()
            invariant
                i <= self.conns@.len(),
                forall|j: int| 0 <= j < i ==> !(#[trigger] self@.conns[j]).rivals(peer@, role),
            decreases self.conns@.len() - i,
        {
            if self.conns[i].rivals(peer, role) {
                assert(self@.conns[i as int].rivals(peer@, role));
                return true;
            }
            i += 1;
        }
        false
    }

    fn is_taken(&self, peer: &PeerIdentity) -> (r: bool)
        ensures
            r == self@.taken(Some(peer@)),
    {
        let mut i: usize = 0;
        while i < self.conns.len()
            invariant
                i <= self.conns@.len(),
                forall|j: int| 0 <= j < i ==> !(#[trigger] self@.conns[j]).probes(peer@),
            decreases self.conns@.len() - i,
        {
            if self.conns[i].probes(peer) {
                assert(self@.conns[i as int].probes(peer@));
                return true;
            }
            i += 1;
        }
        false
    }

    fn listens_on(&self, addr: &Multiaddr) -> (r: bool)
        ensures
            r == self@.listeners.contains(addr@),
    {
        let mut i: usize = 0;
        while i < self.listeners.len()
            invariant
                i <= self.listeners@.len(),
                forall|j: int| 0 <= j < i ==> (#[trigger] self@.listeners[j]) != addr@,
            decreases self.listeners@.len() - i,
        {
            if self.listeners[i].same(addr) {
                assert(self@.listeners[i as int] == addr@);
                return true;
            }
            i += 1;
        }
        false
    }

    /// Whether the engine would listen on the address if the system binds it.
    pub fn check_listen(&self, addr: &Multiaddr) -> (r: Result<(), ListenError>)
        ensures
            r == self@.listen_check(addr@),
    {
        if !addr.is_tcp_over_ip() {
            Err(ListenError::AddressUnsupported)
        } else if self.listens_on(addr) {
            Err(ListenError::AlreadyBound)
        } else {
            Ok(())
        }
    }

    /// Listens on an address. `bind` is what the system said when the acceptor
    /// was bound; it counts only where the engine itself has no objection.
    pub fn listen(&mut self, addr: Multiaddr, bind: Bind) -> (r: Result<(), ListenError>)
        ensures
            r == old(self)@.listen_result(addr@, bind),
            final(self)@ == old(self)@.listened(addr@, bind),
            old(self).wf() ==> final(self).wf(),
    {
        proof {
            if self.wf() {
                lemma_listen_keeps_inv(self@, addr@, bind);
            }
        }
        match self.check_listen(&addr) {
            Err(e) => Err(e),
            Ok(_) => match bind {
                Bind::Bound => {
                    self.listeners.push(addr);
                    assert(self@.listeners =~= old(self)@.listeners.push(addr@));
                    Ok(())
                },
                Bind::InUse => Err(ListenError::AlreadyBound),
                Bind::Denied => Err(ListenError::PermissionDenied),
            },
        }
    }

    /// Stops listening on an address. Says whether the engine listened on it.
    pub fn unlisten(&mut self, addr: &Multiaddr) -> (r: bool)
        ensures
            r == old(self)@.listeners.contains(addr@),
            final(self)@ == old(self)@.unlistened(addr@),
            old(self).wf() ==> final(self).wf(),
    {
        proof {
            if self.wf() {
                lemma_listen_keeps_inv(self@, addr@, Bind::Bound);
            }
        }
        let mut i: usize = 0;
        while i < self.listeners.len() && !self.listeners[i].same(addr)
            invariant
                i <= self.listeners@.len(),
                forall|j: int| 0 <= j < i ==> !address_is(addr@)(#[trigger] self@.listeners[j]),
            decreases self.listeners@.len() - i,
        {
            i += 1;
        }
        proof {
            lemma_first_where(self@.listeners, address_is(addr@), i as int);
        }
        if i < self.listeners.len() {
            assert(self@.listeners[i as int] == addr@);
            self.listeners.remove(i);
            assert(self@.listeners =~= old(self)@.listeners.remove(i as int));
            true
        } else {
            assert(!old(self)@.listeners.contains(addr@)) by {
                assert forall|j: int| 0 <= j < old(self)@.listeners.len() implies old(
                    self,
                )@.listeners[j] != addr@ by {
                    assert(!address_is(addr@)(old(self)@.listeners[j]));
                }
            }
            false
        }
    }

    /// Begins an outbound attempt to `addr` at `now`. The caller makes the link
    /// and tells the engine how it went, under the number in the handle.
    pub fn dial(&mut self, addr: Multiaddr, now: u64) -> (r: DialHandle)
        requires
            old(self)@.next_id < u64::MAX,
        ensures
            r.conn == old(self)@.next_id,
            final(self)@ == old(self)@.dialed(addr@, now),
            old(self).wf() ==> final(self).wf(),
    {
        proof {
            if self.wf() {
                lemma_dial_keeps_inv(self@, addr@, now);
            }
        }
        let id = self.next_id;
        let ghost made = ConnModel::outbound(id, addr@, now);
        self.conns.push(Connection::outbound(id, addr, now));
        self.next_id = id + 1;
        assert(self@.conns =~= old(self)@.conns.push(made));
        DialHandle { conn: id }
    }

    /// Takes in a link that a peer made from `addr` at `now`. The caller tells
    /// the engine how the handshake went, under the number returned.
    pub fn accept(&mut self, addr: Multiaddr, now: u64) -> (r: u64)
        requires
            old(self)@.next_id < u64::MAX,
        ensures
            r == old(self)@.next_id,
            final(self)@ == old(self)@.accepted(addr@, now),
            old(self).wf() ==> final(self).wf(),
    {
        proof {
            if self.wf() {
                lemma_dial_keeps_inv(self@, addr@, now);
            }
        }
        let id = self.next_id;
        let ghost made = ConnModel::inbound(id, addr@, now);
        self.conns.push(Connection::inbound(id, addr, now));
        self.next_id = id + 1;
        assert(self@.conns =~= old(self)@.conns.push(made));
        id
    }

    /// Withdraws an outbound attempt. If its peer has yet to authenticate, the
    /// next pass gives the attempt up and reports nothing of it.
    pub fn cancel(&mut self, handle: DialHandle)
        ensures
            final(self)@ == old(self)@.cancelled(handle.conn),
            old(self).wf() ==> final(self).wf(),
    {
        proof {
            if self.wf() {
                lemma_cancel_keeps_inv(self@, handle.conn);
            }
        }
        let i = self.find(handle.conn);
        if i < self.conns.len() {
            self.conns[i].withdraw();
            assert(self@.conns =~= old(self)@.conns.update(i as int, self@.conns[i as int]));
        }
    }

    /// Closes a connection at once. Says whether it was held.
    pub fn close(&mut self, id: u64) -> (r: bool)
        ensures
            r == old(self)@.holds(id),
            final(self)@ == old(self)@.closed(id),
            old(self).wf() ==> final(self).wf(),
    {
        proof {
            if self.wf() {
                lemma_close_keeps_inv(self@, id);
            }
        }
        let i = self.find(id);
        if i < self.conns.len() {
            self.conns.remove(i);
            self.outbox.push(Action::Close { conn: id });
            assert(self@.conns =~= old(self)@.conns.remove(i as int));
            assert(self@.outbox =~= old(self)@.outbox.push(ActionModel::Close { conn: id }));
            true
        } else {
            false
        }
    }

    /// Hands out what the transport has been asked to do since the last call.
    pub fn take_actions(&mut self) -> (r: Vec<Action>)
        ensures
            actions_of(r@) == old(self)@.outbox,
            final(self)@ == (SwarmModel { outbox: Seq::empty(), ..old(self)@ }),
            old(self).wf() ==> final(self).wf(),
    {
        let mut out: Vec<Action> = Vec::new();
        core::mem::swap(&mut out, &mut self.outbox);
        assert(self@.outbox =~= Seq::<ActionModel>::empty());
        out
    }

    /// Takes one input. A connection that ends by it is held, no longer live,
    /// until the pass ends.
    pub fn step(
        &mut self,
        now: u64,
        nonce: u64,
        input: &TransportEvent,
        events: &mut Vec<SwarmEvent>,
    )
        ensures
            final(self)@ == old(self)@.step(now, nonce, input@).0,
            events_of(final(events)@) == events_of(old(events)@) + old(self)@.step(
                now,
                nonce,
                input@,
            ).1,
            inv(old(self)@) ==> inv(final(self)@),
    {
        proof {
            if inv(self@) {
                lemma_step_keeps_inv(self@, now, nonce, input@);
            }
        }
        let i = self.find(input.conn());
        if i >= self.conns.len() {
            return ;
        }
        let rival = match input {
            TransportEvent::HandshakeDone { peer, .. } => self.has_rival(peer, self.conns[i].role()),
            _ => false,
        };
        let taken = match self.conns[i].peer() {
            Some(p) => self.is_taken(p),
            None => false,
        };
        let config = self.config;
        self.conns[i].react(&config, now, nonce, input, rival, taken, events, &mut self.outbox);
        assert(self@.conns =~= old(self)@.conns.update(i as int, self@.conns[i as int]));
    }

    fn tick_one(&mut self, now: u64, nonce: u64, i: usize, events: &mut Vec<SwarmEvent>)
        requires
            i < old(self)@.conns.len(),
        ensures
            final(self)@ == old(self)@.tick_at(now, nonce, i as int).0,
            events_of(final(events)@) == events_of(old(events)@) + old(self)@.tick_at(
                now,
                nonce,
                i as int,
            ).1,
    {
        let config = self.config;
        self.conns[i].tick(&config, now, nonce, events, &mut self.outbox);
        assert(self@.conns =~= old(self)@.conns.update(i as int, self@.conns[i as int]));
    }

    fn sweep(&mut self)
        ensures
            final(self)@ == old(self)@.swept(),
    {
        let ghost all = self@.conns;
        let ghost mut done: int = 0;
        let mut i: usize = 0;
        while i < self.conns.len()
            invariant
                0 <= done <= all.len(),
                i == live_only(all.take(done)).len(),
                self@.conns == live_only(all.take(done)) + all.skip(done),
                self@.config == old(self)@.config,
                self@.listeners == old(self)@.listeners,
                self@.next_id == old(self)@.next_id,
                self@.outbox == old(self)@.outbox,
            decreases all.len() - done,
        {
            assert(self@.conns[i as int] == all[done]);
            assert(all.take(done + 1).drop_last() =~= all.take(done));
            assert(all.take(done + 1).last() == all[done]);
            if self.conns[i].is_live() {
                assert(self@.conns =~= live_only(all.take(done + 1)) + all.skip(done + 1));
                i += 1;
            } else {
                let ghost before = self@.conns;
                self.conns.remove(i);
                assert(self@.conns =~= before.remove(i as int));
                assert(self@.conns =~= live_only(all.take(done + 1)) + all.skip(done + 1));
            }
            proof {
                done = done + 1;
            }
        }
        assert(all.take(done) =~= all);
        assert(self@.conns =~= live_only(all));
    }

    /// Runs one pass at `now`: takes the inputs in their order, ends the pass
    /// for every connection, and removes the connections that have left the
    /// live set. `nonce` is the nonce of every probe that the pass starts; it
    /// must come from a secure random source and be new for every pass. The
    /// events are returned in the order in which they came about.
    pub fn poll(&mut self, now: u64, nonce: u64, inputs: Vec<TransportEvent>) -> (r: Vec<
        SwarmEvent,
    >)
        ensures
            final(self)@ == old(self)@.poll(now, nonce, inputs_of(inputs@)).0,
            events_of(r@) == old(self)@.poll(now, nonce, inputs_of(inputs@)).1,
            inv(old(self)@) ==> final(self).wf(),
    {
        proof {
            if inv(self@) {
                lemma_poll_keeps_inv(self@, now, nonce, inputs_of(inputs@));
            }
        }
        let ghost start = self@;
        let ghost ins = inputs_of(inputs@);
        let mut events: Vec<SwarmEvent> = Vec::new();
        let mut k: usize = 0;
        while k < inputs.len()
            invariant
                k <= inputs@.len(),
                ins == inputs_of(inputs@),
                self@ == start.run(now, nonce, ins.take(k as int)).0,
                events_of(events@) == start.run(now, nonce, ins.take(k as int)).1,
            decreases inputs@.len() - k,
        {
            assert(ins.take(k + 1).drop_last() =~= ins.take(k as int));
            assert(ins.take(k + 1).last() == inputs@[k as int]@);
            self.step(now, nonce, &inputs[k], &mut events);
            k += 1;
        }
        assert(ins.take(k as int) =~= ins);
        let ghost mid = self@;
        let ghost first = events_of(events@);
        let n: usize = self.conns.len();
        let mut i: usize = 0;
        while i < n
            invariant
                i <= n,
                n == mid.conns.len(),
                self@.conns.len() == n,
                self@ == mid.tick_upto(now, nonce, i as nat).0,
                events_of(events@) == first + mid.tick_upto(now, nonce, i as nat).1,
            decreases n - i,
        {
            self.tick_one(now, nonce, i, &mut events);
            i += 1;
        }
        self.sweep();
        events
    }
}

} // verus!
