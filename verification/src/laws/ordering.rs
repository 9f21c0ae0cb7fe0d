//! The order of the events of a pass.

use vstd::prelude::*;
use crate::connection::{ConnModel, ConnState, Reaction, SwarmConfig};
use crate::event::{EventModel, InputModel};
use crate::swarm::{conn_numbered, SwarmModel};
use crate::search::lemma_first_where_bounds;

verus! {

/// Whether the event tells that a connection to `peer` is established.
pub open spec fn announces(e: EventModel, peer: Seq<u8>) -> bool {
    e matches EventModel::ConnectionEstablished { peer: q, .. } && q == peer
}

/// Whether the connection is open to `peer`.
pub open spec fn open_to(c: ConnModel, peer: Seq<u8>) -> bool {
    c.state == ConnState::Open && c.peer == Some(peer)
}

/// Whether a connection to `peer` was open in `m`, or one of the first `upto`
/// events tells that one is established.
pub open spec fn heralded(m: SwarmModel, events: Seq<EventModel>, upto: int, peer: Seq<u8>) -> bool {
    ||| exists|i: int| 0 <= i < m.conns.len() && open_to(#[trigger] m.conns[i], peer)
    ||| exists|k: int| 0 <= k < upto && k < events.len() && announces(#[trigger] events[k], peer)
}

/// Whether every result of a probe among the events comes after the event that
/// tells of its connection, unless the connection was open in `m` already.
pub open spec fn in_order(m: SwarmModel, events: Seq<EventModel>) -> bool {
    forall|j: int|
        0 <= j < events.len() && (#[trigger] events[j]) is PingResult ==> heralded(
            m,
            events,
            j,
            events[j]->PingResult_peer,
        )
}

/// Whether every open connection of `now` was open in `m` or is told of by
/// one of the events.
pub open spec fn accounted(m: SwarmModel, now: SwarmModel, events: Seq<EventModel>) -> bool {
    forall|i: int|
        0 <= i < now.conns.len() && (#[trigger] now.conns[i]).state == ConnState::Open
            && now.conns[i].peer is Some ==> heralded(
            m,
            events,
            events.len() as int,
            now.conns[i].peer->0,
        )
}

proof fn lemma_heralded_grows(
    m: SwarmModel,
    events: Seq<EventModel>,
    more: Seq<EventModel>,
    upto: int,
    later: int,
    peer: Seq<u8>,
)
    requires
        heralded(m, events, upto, peer),
        upto <= later,
    ensures
        heralded(m, events + more, later, peer),
{
    if !(exists|i: int| 0 <= i < m.conns.len() && open_to(#[trigger] m.conns[i], peer)) {
        let k = choose|k: int|
            0 <= k < upto && k < events.len() && announces(#[trigger] events[k], peer);
        assert((events + more)[k] == events[k]);
    }
}

/// What a connection reports: the result of a probe only if it is open, and
/// then for its own peer; and where it opens, that it is established.
pub open spec fn reports_in_order(c: ConnModel, r: Reaction) -> bool {
    &&& forall|j: int|
        0 <= j < r.events.len() && (#[trigger] r.events[j]) is PingResult ==> open_to(
            c,
            r.events[j]->PingResult_peer,
        )
    &&& r.conn.state == ConnState::Open && r.conn.peer is Some ==> {
        ||| open_to(c, r.conn.peer->0)
        ||| r.events.len() == 1 && announces(r.events[0], r.conn.peer->0)
    }
}

proof fn lemma_react_reports(
    c: ConnModel,
    cfg: SwarmConfig,
    now: u64,
    nonce: u64,
    input: InputModel,
    rival: bool,
    taken: bool,
)
    ensures
        reports_in_order(c, c.react(cfg, now, nonce, input, rival, taken)),
{
}

proof fn lemma_tick_reports(c: ConnModel, cfg: SwarmConfig, now: u64, nonce: u64)
    ensures
        reports_in_order(c, c.tick(cfg, now, nonce)),
{
}

proof fn lemma_reaction_in_order(
    start: SwarmModel,
    m: SwarmModel,
    events: Seq<EventModel>,
    i: int,
    r: Reaction,
)
    requires
        in_order(start, events),
        accounted(start, m, events),
        0 <= i < m.conns.len(),
        reports_in_order(m.conns[i], r),
    ensures
        in_order(start, events + r.events),
        accounted(start, m.with_reaction(i, r), events + r.events),
{
    let c = m.conns[i];
    let all = events + r.events;
    let n = m.with_reaction(i, r);
    assert forall|j: int| 0 <= j < all.len() && (#[trigger] all[j]) is PingResult implies heralded(
        start,
        all,
        j,
        all[j]->PingResult_peer,
    ) by {
        let peer = all[j]->PingResult_peer;
        if j < events.len() {
            assert(all[j] == events[j]);
            lemma_heralded_grows(start, events, r.events, j, j, peer);
        } else {
            assert(all[j] == r.events[j - events.len()]);
            assert(open_to(c, peer));
            lemma_heralded_grows(start, events, r.events, events.len() as int, j, peer);
        }
    }
    assert forall|k: int|
        0 <= k < n.conns.len() && (#[trigger] n.conns[k]).state == ConnState::Open
            && n.conns[k].peer is Some implies heralded(
        start,
        all,
        all.len() as int,
        n.conns[k].peer->0,
    ) by {
        let peer = n.conns[k].peer->0;
        if k != i || open_to(c, peer) {
            assert(open_to(m.conns[k], peer));
            lemma_heralded_grows(
                start,
                events,
                r.events,
                events.len() as int,
                all.len() as int,
                peer,
            );
        } else {
            assert(all[events.len() as int] == r.events[0]);
            assert(announces(all[events.len() as int], peer));
        }
    }
}

proof fn lemma_run_in_order(m: SwarmModel, now: u64, nonce: u64, inputs: Seq<InputModel>)
    ensures
        in_order(m, m.run(now, nonce, inputs).1),
        accounted(m, m.run(now, nonce, inputs).0, m.run(now, nonce, inputs).1),
    decreases inputs.len(),
{
    if inputs.len() == 0 {
        assert forall|i: int|
            0 <= i < m.conns.len() && (#[trigger] m.conns[i]).state == ConnState::Open
                && m.conns[i].peer is Some implies heralded(
            m,
            Seq::<EventModel>::empty(),
            0,
            m.conns[i].peer->0,
        ) by {
            assert(open_to(m.conns[i], m.conns[i].peer->0));
        }
    } else {
        lemma_run_in_order(m, now, nonce, inputs.drop_last());
        let (p, e) = m.run(now, nonce, inputs.drop_last());
        let input = inputs.last();
        let i = p.position(input.conn());
        lemma_first_where_bounds(p.conns, conn_numbered(input.conn()));
        if i < p.conns.len() {
            let c = p.conns[i];
            let rival = p.rival_for(input, c.role);
            let taken = p.taken(c.peer);
            lemma_react_reports(c, p.config, now, nonce, input, rival, taken);
            lemma_reaction_in_order(m, p, e, i, c.react(p.config, now, nonce, input, rival, taken));
        } else {
            assert(e + Seq::<EventModel>::empty() =~= e);
        }
    }
}

proof fn lemma_ticks_in_order(
    start: SwarmModel,
    events: Seq<EventModel>,
    m: SwarmModel,
    now: u64,
    nonce: u64,
    k: nat,
)
    requires
        in_order(start, events),
        accounted(start, m, events),
        k <= m.conns.len(),
    ensures
        m.tick_upto(now, nonce, k).0.conns.len() == m.conns.len(),
        in_order(start, events + m.tick_upto(now, nonce, k).1),
        accounted(start, m.tick_upto(now, nonce, k).0, events + m.tick_upto(now, nonce, k).1),
    decreases k,
{
    if k == 0 {
        assert(events + Seq::<EventModel>::empty() =~= events);
    } else {
        lemma_ticks_in_order(start, events, m, now, nonce, (k - 1) as nat);
        let (p, e) = m.tick_upto(now, nonce, (k - 1) as nat);
        let c = p.conns[k - 1];
        let r = c.tick(p.config, now, nonce);
        lemma_tick_reports(c, p.config, now, nonce);
        lemma_reaction_in_order(start, p, events + e, k - 1, r);
        assert((events + e) + r.events =~= events + (e + r.events));
    }
}

/// Among the events of one pass, the result of a probe comes after the event
/// that tells that a connection to its peer is established, unless such a
/// connection was open before the pass.
pub proof fn lemma_established_before_ping(
    m: SwarmModel,
    now: u64,
    nonce: u64,
    inputs: Seq<InputModel>,
)
    ensures
        in_order(m, m.poll(now, nonce, inputs).1),
{
    lemma_run_in_order(m, now, nonce, inputs);
    let (m1, e1) = m.run(now, nonce, inputs);
    lemma_ticks_in_order(m, e1, m1, now, nonce, m1.conns.len());
}

/// Inputs can be handed over in one batch or in two: the engine ends in the
/// same state, and the events of the second batch follow those of the first.
pub proof fn lemma_run_splits(
    m: SwarmModel,
    now: u64,
    nonce: u64,
    first: Seq<InputModel>,
    second: Seq<InputModel>,
)
    ensures
        ({
            let (m1, e1) = m.run(now, nonce, first);
            let (m2, e2) = m1.run(now, nonce, second);
            m.run(now, nonce, first + second) == (m2, e1 + e2)
        }),
    decreases second.len(),
{
    let (m1, e1) = m.run(now, nonce, first);
    if second.len() == 0 {
        assert(first + second =~= first);
        assert(e1 + Seq::<EventModel>::empty() =~= e1);
    } else {
        assert((first + second).drop_last() =~= first + second.drop_last());
        assert((first + second).last() == second.last());
        lemma_run_splits(m, now, nonce, first, second.drop_last());
        let (p, d) = m1.run(now, nonce, second.drop_last());
        let (q, e) = p.step(now, nonce, second.last());
        assert((e1 + d) + e =~= e1 + (d + e));
    }
}

} // verus!
