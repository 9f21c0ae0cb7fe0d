//! Two connections to one peer, one from each side.

use vstd::prelude::*;
use crate::connection::{ConnModel, ConnState};
use crate::event::{CloseReason, DialError, EventModel, InputModel, Role};
use crate::swarm::{conn_numbered, live_only, SwarmModel};
use crate::laws::reachable::{carried_on, compatible, inv, lemma_live_only, lemma_ticks_carry_on};
use crate::search::lemma_first_where;

verus! {

/// The closure that tells of a superseded connection: the failure of the
/// attempt if this side dialed, the end of the connection if the peer did.
pub open spec fn superseded_closure(c: ConnModel, peer: Seq<u8>) -> EventModel {
    if c.role == Role::Dialer {
        EventModel::DialFailure { addr: c.addr, error: DialError::Superseded }
    } else {
        EventModel::ConnectionClosed { peer, reason: CloseReason::Superseded }
    }
}

/// Whether the event tells that a connection or an attempt was superseded.
pub open spec fn reports_supersession(e: EventModel) -> bool {
    ||| e matches EventModel::DialFailure { error, .. } && error == DialError::Superseded
    ||| e matches EventModel::ConnectionClosed { reason, .. } && reason == CloseReason::Superseded
}

/// Whether the event tells neither that a connection is established nor that
/// one was superseded.
pub open spec fn settles_nothing(e: EventModel) -> bool {
    !(e is ConnectionEstablished) && !reports_supersession(e)
}

/// The end of a pass establishes no connection and supersedes none.
pub proof fn lemma_ticks_settle_nothing(m: SwarmModel, now: u64, nonce: u64, k: nat)
    requires
        k <= m.conns.len(),
    ensures
        m.tick_upto(now, nonce, k).0.conns.len() == m.conns.len(),
        forall|j: int|
            0 <= j < m.tick_upto(now, nonce, k).1.len() ==> settles_nothing(
                #[trigger] m.tick_upto(now, nonce, k).1[j],
            ),
    decreases k,
{
    if k > 0 {
        lemma_ticks_settle_nothing(m, now, nonce, (k - 1) as nat);
        let (p, e) = m.tick_upto(now, nonce, (k - 1) as nat);
        let r = p.conns[k - 1].tick(p.config, now, nonce);
        let all = e + r.events;
        assert forall|j: int| 0 <= j < all.len() implies settles_nothing(#[trigger] all[j]) by {
            if j < e.len() {
                assert(all[j] == e[j]);
            } else {
                assert(all[j] == r.events[j - e.len()]);
            }
        }
    }
}

/// Two attempts at one peer, one from each side, whose handshakes complete in
/// the same pass, end in exactly one open connection and one superseded
/// closure: the connection whose handshake completed first is established and
/// stays, the other is closed as superseded and is gone after the pass. These
/// are the first two events of the pass, and no other event of the pass tells
/// of a connection established or superseded.
pub proof fn lemma_simultaneous_attempts(
    m: SwarmModel,
    a: int,
    b: int,
    peer: Seq<u8>,
    now: u64,
    nonce: u64,
)
    requires
        inv(m),
        0 <= a < m.conns.len(),
        0 <= b < m.conns.len(),
        m.conns[a].state == ConnState::Authenticating,
        m.conns[b].state == ConnState::Authenticating,
        !m.conns[a].cancelled,
        !m.conns[b].cancelled,
        m.conns[a].role != m.conns[b].role,
        forall|i: int|
            0 <= i < m.conns.len() ==> !((#[trigger] m.conns[i]).state == ConnState::Open
                && m.conns[i].peer == Some(peer)),
    ensures
        ({
            let first = InputModel::HandshakeDone { conn: m.conns[a].id, peer };
            let second = InputModel::HandshakeDone { conn: m.conns[b].id, peer };
            let (after, events) = m.poll(now, nonce, seq![first, second]);
            &&& events.len() >= 2
            &&& events[0] == (EventModel::ConnectionEstablished { peer, addr: m.conns[a].addr })
            &&& events[1] == superseded_closure(m.conns[b], peer)
            &&& forall|j: int| 2 <= j < events.len() ==> settles_nothing(#[trigger] events[j])
            &&& exists|k: int|
                0 <= k < after.conns.len() && (#[trigger] after.conns[k]).id == m.conns[a].id
                    && after.conns[k].state == ConnState::Open && after.conns[k].peer == Some(
                    peer,
                )
            &&& forall|k: int|
                0 <= k < after.conns.len() && (#[trigger] after.conns[k]).state == ConnState::Open
                    && after.conns[k].peer == Some(peer) ==> after.conns[k].id == m.conns[a].id
            &&& forall|k: int|
                0 <= k < after.conns.len() ==> (#[trigger] after.conns[k]).id != m.conns[b].id
        }),
{
    let ca = m.conns[a];
    let cb = m.conns[b];
    let first = InputModel::HandshakeDone { conn: ca.id, peer };
    let second = InputModel::HandshakeDone { conn: cb.id, peer };
    let inputs = seq![first, second];
    assert(a != b);
    assert forall|i: int, j: int| 0 <= i < m.conns.len() && 0 <= j < m.conns.len() && i
        != j implies (#[trigger] m.conns[i]).id != (#[trigger] m.conns[j]).id by {
        if i < j {
            assert(compatible(m.conns[i], m.conns[j]));
        } else {
            assert(compatible(m.conns[j], m.conns[i]));
        }
    }
    // the first handshake
    lemma_first_where(m.conns, conn_numbered(ca.id), a);
    assert(!m.rival(peer, ca.role));
    let (m1, e1) = m.step(now, nonce, first);
    assert(e1 =~= seq![EventModel::ConnectionEstablished { peer, addr: ca.addr }]);
    // the second handshake
    assert forall|j: int| 0 <= j < b implies !conn_numbered(cb.id)(#[trigger] m1.conns[j]) by {
        assert(m1.conns[j].id == m.conns[j].id);
    }
    lemma_first_where(m1.conns, conn_numbered(cb.id), b);
    assert(m1.conns[a].rivals(peer, cb.role));
    assert(m1.rival(peer, cb.role));
    let (m2, e2) = m1.step(now, nonce, second);
    assert(e2 =~= seq![superseded_closure(cb, peer)]);
    // both together
    assert(inputs.drop_last() =~= seq![first]);
    assert(seq![first].drop_last() =~= Seq::<InputModel>::empty());
    assert(inputs.last() == second);
    assert(seq![first].last() == first);
    reveal_with_fuel(SwarmModel::run, 3);
    assert(m.run(now, nonce, Seq::<InputModel>::empty()).0 == m);
    assert(m.run(now, nonce, seq![first]) == (m1, Seq::<EventModel>::empty() + e1));
    assert(m.run(now, nonce, inputs) == (m2, (Seq::<EventModel>::empty() + e1) + e2));
    let e12 = (Seq::<EventModel>::empty() + e1) + e2;
    assert(e12 =~= seq![
        EventModel::ConnectionEstablished { peer, addr: ca.addr },
        superseded_closure(cb, peer),
    ]);
    // the end of the pass
    let n = m2.conns.len() as nat;
    lemma_ticks_carry_on(m2, now, nonce, n);
    let (m3, e3) = m2.tick_upto(now, nonce, n);
    let t = live_only(m3.conns);
    lemma_live_only(m3.conns);
    let (after, events) = m.poll(now, nonce, inputs);
    assert(after.conns == t);
    assert(events == e12 + e3);
    lemma_ticks_settle_nothing(m2, now, nonce, n);
    assert forall|j: int| 2 <= j < events.len() implies settles_nothing(#[trigger] events[j]) by {
        assert(events[j] == e3[j - 2]);
    }
    assert(m3.conns[a] == m2.conns[a]);
    assert(m3.conns[b] == m2.conns[b]);
    assert(t.contains(m3.conns[a]));
    let w = choose|k: int| 0 <= k < t.len() && t[k] == m3.conns[a];
    assert(t[w].id == ca.id);
    assert forall|k: int| 0 <= k < t.len() implies (#[trigger] t[k]).id != cb.id && (t[k].state
        == ConnState::Open && t[k].peer == Some(peer) ==> t[k].id == ca.id) by {
        let i = choose|i: int| k <= i < m3.conns.len() && m3.conns[i] == t[k];
        assert(carried_on(m2.conns[i], m3.conns[i]));
        assert(m2.conns[i].id == m.conns[i].id);
        if i != a && i != b {
            assert(m2.conns[i] == m.conns[i]);
        }
    }
}

} // verus!
