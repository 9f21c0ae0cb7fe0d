//! What holds of the engine in every state that it can reach.

use vstd::prelude::*;
use crate::connection::{ConnModel, ConnState, Reaction, SwarmConfig};
use crate::event::{Bind, InputModel, Role};
use crate::swarm::{conn_numbered, live_only, SwarmModel};
use crate::search::{lemma_first_where, lemma_first_where_bounds};

verus! {

/// What holds of every connection by itself: the peer of an open connection
/// is known, a connection whose peer has yet to authenticate carries no probe,
/// and only this side's attempts wait for their link.
pub open spec fn sound(c: ConnModel) -> bool {
    &&& c.state == ConnState::Open ==> c.peer is Some
    &&& c.pending() ==> c.probe is None
    &&& c.state == ConnState::Connecting ==> c.role == Role::Dialer
}

/// What holds of every two connections: their numbers differ, and if both are
/// open to the same peer, they were opened from the same side and at most one
/// of them carries the probe.
pub open spec fn compatible(a: ConnModel, b: ConnModel) -> bool {
    &&& a.id != b.id
    &&& a.state == ConnState::Open && b.state == ConnState::Open && a.peer == b.peer ==> {
        &&& a.role == b.role
        &&& !(a.probe is Some && b.probe is Some)
    }
}

/// What holds of the engine at every moment.
pub open spec fn inv(m: SwarmModel) -> bool {
    &&& forall|i: int| 0 <= i < m.conns.len() ==> sound(#[trigger] m.conns[i])
    &&& forall|i: int| 0 <= i < m.conns.len() ==> (#[trigger] m.conns[i]).id < m.next_id
    &&& forall|i: int, j: int|
        0 <= i < j < m.conns.len() ==> compatible(#[trigger] m.conns[i], #[trigger] m.conns[j])
}

/// What holds of the engine between two calls: every connection it holds
/// belongs to the live set.
pub open spec fn settled(m: SwarmModel) -> bool {
    forall|i: int| 0 <= i < m.conns.len() ==> (#[trigger] m.conns[i]).live()
}

/// How a connection can change: it keeps its number, its side and its address,
/// it is open afterwards only if it was open before, and it carries the probe
/// afterwards only if it did before.
pub open spec fn carried_on(c: ConnModel, d: ConnModel) -> bool {
    &&& d.id == c.id
    &&& d.role == c.role
    &&& d.addr == c.addr
    &&& d.state == ConnState::Open ==> c.state == ConnState::Open && d.peer == c.peer
    &&& d.state == ConnState::Open && d.probe is Some ==> c.probe is Some
}

/// An input leaves a sound connection sound. The connection is carried on,
/// but for two changes: it opens to the peer that authenticated where no
/// rival is open, and it takes the probe where no other connection has it.
pub proof fn lemma_react_sound(
    c: ConnModel,
    cfg: SwarmConfig,
    now: u64,
    nonce: u64,
    input: InputModel,
    rival: bool,
    taken: bool,
)
    requires
        sound(c),
    ensures
        ({
            let d = c.react(cfg, now, nonce, input, rival, taken).conn;
            &&& sound(d)
            &&& d.id == c.id
            &&& d.role == c.role
            &&& d.addr == c.addr
            &&& d.state == ConnState::Open ==> {
                ||| c.state == ConnState::Open && d.peer == c.peer
                ||| {
                    &&& c.state == ConnState::Authenticating
                    &&& !rival
                    &&& input matches InputModel::HandshakeDone { peer, .. }
                    &&& d.peer == Some(peer)
                    &&& d.probe is None
                }
            }
            &&& d.state == ConnState::Open && d.probe is Some ==> {
                ||| c.probe is Some
                ||| c.state == ConnState::Open && !taken
            }
        }),
{
}

/// The end of a pass leaves a sound connection sound and carries it on.
pub proof fn lemma_tick_sound(c: ConnModel, cfg: SwarmConfig, now: u64, nonce: u64)
    requires
        sound(c),
    ensures
        sound(c.tick(cfg, now, nonce).conn),
        carried_on(c, c.tick(cfg, now, nonce).conn),
{
}

/// Replacing a connection by one that carries it on keeps what holds of the
/// engine.
pub proof fn lemma_carried_on_keeps_inv(m: SwarmModel, i: int, r: Reaction)
    requires
        inv(m),
        0 <= i < m.conns.len(),
        sound(r.conn),
        carried_on(m.conns[i], r.conn),
    ensures
        inv(m.with_reaction(i, r)),
{
    let n = m.with_reaction(i, r);
    assert forall|a: int, b: int| 0 <= a < b < n.conns.len() implies compatible(
        #[trigger] n.conns[a],
        #[trigger] n.conns[b],
    ) by {
        assert(compatible(m.conns[a], m.conns[b]));
    }
}

/// One input keeps what holds of the engine.
pub proof fn lemma_step_keeps_inv(m: SwarmModel, now: u64, nonce: u64, input: InputModel)
    requires
        inv(m),
    ensures
        inv(m.step(now, nonce, input).0),
        m.step(now, nonce, input).0.conns.len() == m.conns.len(),
        m.step(now, nonce, input).0.next_id == m.next_id,
{
    let i = m.position(input.conn());
    if i < m.conns.len() {
        lemma_first_where_bounds(m.conns, conn_numbered(input.conn()));
        let c = m.conns[i];
        let rival = m.rival_for(input, c.role);
        let taken = m.taken(c.peer);
        let r = c.react(m.config, now, nonce, input, rival, taken);
        lemma_react_sound(c, m.config, now, nonce, input, rival, taken);
        let n = m.with_reaction(i, r);
        let d = r.conn;
        assert forall|a: int, b: int| 0 <= a < b < n.conns.len() implies compatible(
            #[trigger] n.conns[a],
            #[trigger] n.conns[b],
        ) by {
            assert(compatible(m.conns[a], m.conns[b]));
            if a == i || b == i {
                let o = if a == i { b } else { a };
                let other = m.conns[o];
                assert(n.conns[o] == other);
                if d.state == ConnState::Open && other.state == ConnState::Open && d.peer
                    == other.peer {
                    if c.state == ConnState::Open {
                        if d.probe is Some && other.probe is Some && c.probe is None {
                            assert(other.probes(c.peer->0));
                            assert(taken);
                        }
                    } else {
                        assert(!rival);
                        if other.role != c.role {
                            assert(other.rivals(d.peer->0, c.role));
                        }
                    }
                }
            }
        }
    }
}

/// A sequence of inputs keeps what holds of the engine.
pub proof fn lemma_run_keeps_inv(m: SwarmModel, now: u64, nonce: u64, inputs: Seq<InputModel>)
    requires
        inv(m),
    ensures
        inv(m.run(now, nonce, inputs).0),
        m.run(now, nonce, inputs).0.conns.len() == m.conns.len(),
        m.run(now, nonce, inputs).0.next_id == m.next_id,
    decreases inputs.len(),
{
    if inputs.len() > 0 {
        lemma_run_keeps_inv(m, now, nonce, inputs.drop_last());
        lemma_step_keeps_inv(m.run(now, nonce, inputs.drop_last()).0, now, nonce, inputs.last());
    }
}

/// The end of a pass keeps what holds of the engine.
pub proof fn lemma_ticks_keep_inv(m: SwarmModel, now: u64, nonce: u64, k: nat)
    requires
        inv(m),
        k <= m.conns.len(),
    ensures
        inv(m.tick_upto(now, nonce, k).0),
        m.tick_upto(now, nonce, k).0.conns.len() == m.conns.len(),
        m.tick_upto(now, nonce, k).0.next_id == m.next_id,
    decreases k,
{
    if k > 0 {
        lemma_ticks_keep_inv(m, now, nonce, (k - 1) as nat);
        let p = m.tick_upto(now, nonce, (k - 1) as nat).0;
        let c = p.conns[k - 1];
        lemma_tick_sound(c, p.config, now, nonce);
        lemma_carried_on_keeps_inv(p, k - 1, c.tick(p.config, now, nonce));
    }
}

/// The connections that are kept are live, stand in the order they stood in,
/// and are all the live ones.
pub proof fn lemma_live_only(s: Seq<ConnModel>)
    ensures
        live_only(s).len() <= s.len(),
        forall|k: int| 0 <= k < live_only(s).len() ==> (#[trigger] live_only(s)[k]).live(),
        forall|k: int|
            0 <= k < live_only(s).len() ==> exists|i: int|
                k <= i < s.len() && s[i] == #[trigger] live_only(s)[k],
        forall|k: int, l: int|
            0 <= k < l < live_only(s).len() ==> exists|i: int, j: int|
                0 <= i < j < s.len() && s[i] == #[trigger] live_only(s)[k] && s[j]
                    == #[trigger] live_only(s)[l],
        forall|i: int| 0 <= i < s.len() && (#[trigger] s[i]).live() ==> live_only(s).contains(s[i]),
    decreases s.len(),
{
    if s.len() > 0 {
        let head = s.drop_last();
        let rest = live_only(head);
        let t = live_only(s);
        lemma_live_only(head);
        assert forall|k: int| 0 <= k < t.len() implies exists|i: int|
            k <= i < s.len() && s[i] == #[trigger] t[k] by {
            if k < rest.len() {
                let i = choose|i: int| k <= i < head.len() && head[i] == rest[k];
                assert(s[i] == t[k]);
            } else {
                assert(s[s.len() - 1] == t[k]);
            }
        }
        assert forall|k: int, l: int| 0 <= k < l < t.len() implies exists|i: int, j: int|
            0 <= i < j < s.len() && s[i] == #[trigger] t[k] && s[j] == #[trigger] t[l] by {
            if l < rest.len() {
                let (i, j) = choose|i: int, j: int|
                    0 <= i < j < head.len() && head[i] == rest[k] && head[j] == rest[l];
                assert(s[i] == t[k] && s[j] == t[l]);
            } else {
                let i = choose|i: int| k <= i < head.len() && head[i] == rest[k];
                assert(s[i] == t[k] && s[s.len() - 1] == t[l]);
            }
        }
        assert forall|i: int| 0 <= i < s.len() && (#[trigger] s[i]).live() implies t.contains(
            s[i],
        ) by {
            if i < head.len() {
                assert(head[i] == s[i]);
                assert(rest.contains(s[i]));
                let k = choose|k: int| 0 <= k < rest.len() && rest[k] == s[i];
                assert(t[k] == s[i]);
            } else {
                assert(t[t.len() - 1] == s[i]);
            }
        }
    }
}

/// Removing the connections that have left the live set keeps what holds of
/// the engine, and leaves only live connections.
pub proof fn lemma_sweep_keeps_inv(m: SwarmModel)
    requires
        inv(m),
    ensures
        inv(m.swept()),
        settled(m.swept()),
{
    let t = live_only(m.conns);
    lemma_live_only(m.conns);
    assert forall|k: int| 0 <= k < t.len() implies sound(#[trigger] t[k]) && t[k].id
        < m.next_id by {
        let i = choose|i: int| k <= i < m.conns.len() && m.conns[i] == t[k];
        assert(sound(m.conns[i]));
    }
    assert forall|k: int, l: int| 0 <= k < l < t.len() implies compatible(
        #[trigger] t[k],
        #[trigger] t[l],
    ) by {
        let (i, j) = choose|i: int, j: int|
            0 <= i < j < m.conns.len() && m.conns[i] == t[k] && m.conns[j] == t[l];
        assert(compatible(m.conns[i], m.conns[j]));
    }
}

/// A pass keeps what holds of the engine, and after it every connection that
/// the engine holds is live: no later event is about a connection that has
/// ended.
pub proof fn lemma_poll_keeps_inv(m: SwarmModel, now: u64, nonce: u64, inputs: Seq<InputModel>)
    requires
        inv(m),
    ensures
        inv(m.poll(now, nonce, inputs).0),
        settled(m.poll(now, nonce, inputs).0),
        m.poll(now, nonce, inputs).0.next_id == m.next_id,
{
    lemma_run_keeps_inv(m, now, nonce, inputs);
    let m1 = m.run(now, nonce, inputs).0;
    lemma_ticks_keep_inv(m1, now, nonce, m1.conns.len());
    lemma_sweep_keeps_inv(m1.tick_upto(now, nonce, m1.conns.len()).0);
}

/// An engine without connections is as it should be.
pub proof fn lemma_empty_is_sound(config: SwarmConfig)
    ensures
        inv(SwarmModel::empty(config)),
        settled(SwarmModel::empty(config)),
{
}

/// Listening and ceasing to listen keep what holds of the engine.
pub proof fn lemma_listen_keeps_inv(m: SwarmModel, addr: Seq<u8>, bind: Bind)
    requires
        inv(m),
        settled(m),
    ensures
        inv(m.listened(addr, bind)) && settled(m.listened(addr, bind)),
        inv(m.unlistened(addr)) && settled(m.unlistened(addr)),
{
}

/// A new connection, made by this side or taken in from a peer, keeps what
/// holds of the engine: its number is one that no connection has.
pub proof fn lemma_dial_keeps_inv(m: SwarmModel, addr: Seq<u8>, now: u64)
    requires
        inv(m),
        settled(m),
        m.next_id < u64::MAX,
    ensures
        inv(m.dialed(addr, now)) && settled(m.dialed(addr, now)),
        inv(m.accepted(addr, now)) && settled(m.accepted(addr, now)),
{
    let d = m.dialed(addr, now);
    assert forall|a: int, b: int| 0 <= a < b < d.conns.len() implies compatible(
        #[trigger] d.conns[a],
        #[trigger] d.conns[b],
    ) by {
        if b < m.conns.len() {
            assert(compatible(m.conns[a], m.conns[b]));
        } else {
            assert(m.conns[a].id < m.next_id);
        }
    }
    let e = m.accepted(addr, now);
    assert forall|a: int, b: int| 0 <= a < b < e.conns.len() implies compatible(
        #[trigger] e.conns[a],
        #[trigger] e.conns[b],
    ) by {
        if b < m.conns.len() {
            assert(compatible(m.conns[a], m.conns[b]));
        } else {
            assert(m.conns[a].id < m.next_id);
        }
    }
}

/// Withdrawing an attempt keeps what holds of the engine.
pub proof fn lemma_cancel_keeps_inv(m: SwarmModel, id: u64)
    requires
        inv(m),
        settled(m),
    ensures
        inv(m.cancelled(id)) && settled(m.cancelled(id)),
{
    let i = m.position(id);
    lemma_first_where_bounds(m.conns, conn_numbered(id));
    if i < m.conns.len() {
        let n = m.cancelled(id);
        assert forall|a: int, b: int| 0 <= a < b < n.conns.len() implies compatible(
            #[trigger] n.conns[a],
            #[trigger] n.conns[b],
        ) by {
            assert(compatible(m.conns[a], m.conns[b]));
        }
    }
}

/// Closing a connection keeps what holds of the engine.
pub proof fn lemma_close_keeps_inv(m: SwarmModel, id: u64)
    requires
        inv(m),
        settled(m),
    ensures
        inv(m.closed(id)) && settled(m.closed(id)),
{
    let i = m.position(id);
    lemma_first_where_bounds(m.conns, conn_numbered(id));
    if i < m.conns.len() {
        let q = m.closed(id);
        assert forall|a: int| 0 <= a < q.conns.len() implies sound(#[trigger] q.conns[a])
            && q.conns[a].id < q.next_id && q.conns[a].live() by {
            let o = if a < i { a } else { a + 1 };
            assert(q.conns[a] == m.conns[o]);
        }
        assert forall|a: int, b: int| 0 <= a < b < q.conns.len() implies compatible(
            #[trigger] q.conns[a],
            #[trigger] q.conns[b],
        ) by {
            let oa = if a < i { a } else { a + 1 };
            let ob = if b < i { b } else { b + 1 };
            assert(q.conns[a] == m.conns[oa] && q.conns[b] == m.conns[ob]);
            assert(compatible(m.conns[oa], m.conns[ob]));
        }
    }
}

/// The end of a pass carries every connection on. It leaves alone an open
/// connection without probe, and a connection that has left the live set.
pub proof fn lemma_ticks_carry_on(m: SwarmModel, now: u64, nonce: u64, k: nat)
    requires
        k <= m.conns.len(),
    ensures
        m.tick_upto(now, nonce, k).0.conns.len() == m.conns.len(),
        forall|i: int|
            0 <= i < m.conns.len() ==> {
                let c = m.conns[i];
                let d = #[trigger] m.tick_upto(now, nonce, k).0.conns[i];
                &&& carried_on(c, d)
                &&& c.state == ConnState::Open && c.probe is None ==> d == c
                &&& !c.live() ==> d == c
                &&& i >= k ==> d == c
            },
    decreases k,
{
    if k > 0 {
        lemma_ticks_carry_on(m, now, nonce, (k - 1) as nat);
        let p = m.tick_upto(now, nonce, (k - 1) as nat).0;
        let q = m.tick_upto(now, nonce, k).0;
        assert forall|i: int| 0 <= i < m.conns.len() implies {
            let c = m.conns[i];
            let d = #[trigger] q.conns[i];
            &&& carried_on(c, d)
            &&& c.state == ConnState::Open && c.probe is None ==> d == c
            &&& !c.live() ==> d == c
            &&& i >= k ==> d == c
        } by {
            assert(carried_on(m.conns[i], p.conns[i]));
        }
    }
}

/// Under its number the engine finds the connection that has it.
pub proof fn lemma_position(m: SwarmModel, i: int)
    requires
        inv(m),
        0 <= i < m.conns.len(),
    ensures
        m.position(m.conns[i].id) == i,
{
    assert forall|j: int| 0 <= j < i implies !conn_numbered(m.conns[i].id)(
        #[trigger] m.conns[j],
    ) by {
        assert(compatible(m.conns[j], m.conns[i]));
    }
    lemma_first_where(m.conns, conn_numbered(m.conns[i].id), i);
}

/// Whether both are the same link: the same number, side, address and time
/// of making.
pub open spec fn same_link(a: ConnModel, b: ConnModel) -> bool {
    a.id == b.id && a.role == b.role && a.addr == b.addr && a.created_at == b.created_at
}

/// Whether the engine holds a connection that is the same link as `c`.
pub open spec fn holds_link(m: SwarmModel, c: ConnModel) -> bool {
    exists|i: int| 0 <= i < m.conns.len() && same_link(#[trigger] m.conns[i], c)
}

proof fn lemma_run_keeps_links(m: SwarmModel, now: u64, nonce: u64, inputs: Seq<InputModel>)
    ensures
        ({
            let after = m.run(now, nonce, inputs).0;
            &&& after.conns.len() == m.conns.len()
            &&& after.next_id == m.next_id
            &&& after.listeners == m.listeners
            &&& after.config == m.config
            &&& forall|i: int|
                0 <= i < m.conns.len() ==> same_link(m.conns[i], #[trigger] after.conns[i])
        }),
    decreases inputs.len(),
{
    if inputs.len() > 0 {
        lemma_run_keeps_links(m, now, nonce, inputs.drop_last());
        let p = m.run(now, nonce, inputs.drop_last()).0;
        lemma_first_where_bounds(p.conns, conn_numbered(inputs.last().conn()));
        let after = m.run(now, nonce, inputs).0;
        assert forall|i: int| 0 <= i < m.conns.len() implies same_link(
            m.conns[i],
            #[trigger] after.conns[i],
        ) by {
            assert(same_link(m.conns[i], p.conns[i]));
        }
    }
}

proof fn lemma_ticks_keep_links(m: SwarmModel, now: u64, nonce: u64, k: nat)
    requires
        k <= m.conns.len(),
    ensures
        ({
            let after = m.tick_upto(now, nonce, k).0;
            &&& after.conns.len() == m.conns.len()
            &&& after.next_id == m.next_id
            &&& after.listeners == m.listeners
            &&& after.config == m.config
            &&& forall|i: int|
                0 <= i < m.conns.len() ==> same_link(m.conns[i], #[trigger] after.conns[i])
        }),
    decreases k,
{
    if k > 0 {
        lemma_ticks_keep_links(m, now, nonce, (k - 1) as nat);
        let p = m.tick_upto(now, nonce, (k - 1) as nat).0;
        let after = m.tick_upto(now, nonce, k).0;
        assert forall|i: int| 0 <= i < m.conns.len() implies same_link(
            m.conns[i],
            #[trigger] after.conns[i],
        ) by {
            assert(same_link(m.conns[i], p.conns[i]));
        }
    }
}

/// A pass makes no connection and no listener: every connection held after it
/// is a link that was held before it, and the next connection gets the number
/// it would have got. An attempt that failed is not made again.
pub proof fn lemma_poll_makes_no_connection(
    m: SwarmModel,
    now: u64,
    nonce: u64,
    inputs: Seq<InputModel>,
)
    ensures
        ({
            let after = m.poll(now, nonce, inputs).0;
            &&& after.conns.len() <= m.conns.len()
            &&& after.next_id == m.next_id
            &&& after.listeners == m.listeners
            &&& after.config == m.config
            &&& forall|k: int|
                0 <= k < after.conns.len() ==> holds_link(m, #[trigger] after.conns[k])
        }),
{
    lemma_run_keeps_links(m, now, nonce, inputs);
    let m1 = m.run(now, nonce, inputs).0;
    lemma_ticks_keep_links(m1, now, nonce, m1.conns.len());
    let m2 = m1.tick_upto(now, nonce, m1.conns.len()).0;
    lemma_live_only(m2.conns);
    let after = m.poll(now, nonce, inputs).0;
    assert forall|k: int| 0 <= k < after.conns.len() implies holds_link(
        m,
        #[trigger] after.conns[k],
    ) by {
        let i = choose|i: int| k <= i < m2.conns.len() && m2.conns[i] == after.conns[k];
        assert(same_link(m.conns[i], m1.conns[i]));
        assert(same_link(m1.conns[i], m2.conns[i]));
        assert(same_link(m.conns[i], after.conns[k]));
    }
}

} // verus!
