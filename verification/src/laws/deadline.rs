//! When a pass has something to do.

use vstd::prelude::*;
use crate::connection::{ConnModel, ConnState, SwarmConfig};
use crate::event::{EventModel, InputModel};
use crate::ping::{before, lemma_session_rests_until_deadline};
use crate::swarm::{live_only, SwarmModel};
use crate::laws::reachable::settled;

verus! {

/// Whether the nonce is other than the nonce of the connection's last probe.
pub open spec fn fresh_for(c: ConnModel, nonce: u64) -> bool {
    c.probe matches Some(probe) ==> probe.session.nonce != nonce
}

/// Before its deadline the end of a pass leaves a live connection as it is,
/// and reports and asks for nothing. From its deadline on it does not, if
/// only the pass brings a nonce other than that of the last probe.
pub proof fn lemma_connection_rests_until_deadline(
    c: ConnModel,
    cfg: SwarmConfig,
    now: u64,
    nonce: u64,
)
    requires
        c.live(),
    ensures
        before(now, c.deadline(cfg)) ==> c.tick(cfg, now, nonce) == c.quiet(),
        !before(now, c.deadline(cfg)) && fresh_for(c, nonce) ==> c.tick(cfg, now, nonce)
            != c.quiet(),
{
    if c.state == ConnState::Open && c.probe is Some {
        let probe = c.probe->0;
        lemma_session_rests_until_deadline(probe.session, cfg.ping, now, nonce);
        let r = c.tick(cfg, now, nonce);
        if probe.session.rests(cfg.ping, now, nonce) {
            assert(r.conn =~~= c);
            assert(r =~~= c.quiet());
        } else {
            if r == c.quiet() {
                assert(r.conn.probe->0.session == probe.session);
                assert(r.actions.len() == 0 && r.events.len() == 0);
            }
        }
    }
}

proof fn lemma_before_earliest(m: SwarmModel, now: u64, k: nat)
    requires
        k <= m.conns.len(),
        before(now, m.deadline_upto(k)),
    ensures
        forall|i: int| 0 <= i < k ==> before(now, (#[trigger] m.conns[i]).deadline(m.config)),
    decreases k,
{
    if k > 0 {
        lemma_before_earliest(m, now, (k - 1) as nat);
    }
}

proof fn lemma_live_only_keeps_live(s: Seq<ConnModel>)
    requires
        forall|i: int| 0 <= i < s.len() ==> (#[trigger] s[i]).live(),
    ensures
        live_only(s) == s,
    decreases s.len(),
{
    if s.len() > 0 {
        let head = s.drop_last();
        assert forall|i: int| 0 <= i < head.len() implies (#[trigger] head[i]).live() by {
            assert(head[i] == s[i]);
        }
        lemma_live_only_keeps_live(head);
        assert(s.last() == s[s.len() - 1]);
        assert(head.push(s.last()) =~= s);
    }
}

proof fn lemma_ticks_rest(m: SwarmModel, now: u64, nonce: u64, k: nat)
    requires
        k <= m.conns.len(),
        forall|i: int|
            0 <= i < k ==> (#[trigger] m.conns[i]).tick(m.config, now, nonce) == m.conns[i].quiet(),
    ensures
        m.tick_upto(now, nonce, k) == (m, Seq::<EventModel>::empty()),
    decreases k,
{
    if k > 0 {
        lemma_ticks_rest(m, now, nonce, (k - 1) as nat);
        let c = m.conns[k - 1];
        let n = m.with_reaction(k - 1, c.quiet());
        assert(n.conns =~= m.conns);
        assert(n.outbox =~= m.outbox);
        assert(n == m);
        assert(Seq::<EventModel>::empty() + c.quiet().events =~= Seq::<EventModel>::empty());
    }
}

/// Before the engine's deadline a pass without inputs does nothing: the
/// engine stays as it is and there is no event. So the driver can wait for
/// the deadline, or for the transport, without missing anything.
pub proof fn lemma_nothing_before_deadline(m: SwarmModel, now: u64, nonce: u64)
    requires
        before(now, m.deadline()),
    ensures
        m.poll(now, nonce, Seq::empty()) == (m, Seq::<EventModel>::empty()),
{
    let n = m.conns.len();
    lemma_before_earliest(m, now, n);
    assert forall|i: int| 0 <= i < n implies (#[trigger] m.conns[i]).live() && m.conns[i].tick(
        m.config,
        now,
        nonce,
    ) == m.conns[i].quiet() by {
        let c = m.conns[i];
        assert(before(now, c.deadline(m.config)));
        lemma_connection_rests_until_deadline(c, m.config, now, nonce);
    }
    lemma_ticks_rest(m, now, nonce, n);
    lemma_live_only_keeps_live(m.conns);
    assert(m.run(now, nonce, Seq::<InputModel>::empty()) == (m, Seq::<EventModel>::empty()));
    assert(Seq::<EventModel>::empty() + Seq::<EventModel>::empty() =~= Seq::<EventModel>::empty());
    assert(m.swept() == m);
}

/// From the engine's deadline on a pass has something to do, if only it
/// brings a nonce that no connection used for its last probe: the connection
/// whose deadline has come does not stay as it is, or something is reported
/// or asked for.
pub proof fn lemma_deadline_is_due(m: SwarmModel, now: u64, nonce: u64)
    requires
        settled(m),
        !before(now, m.deadline()),
        forall|i: int| 0 <= i < m.conns.len() ==> fresh_for(#[trigger] m.conns[i], nonce),
    ensures
        exists|i: int|
            0 <= i < m.conns.len() && (#[trigger] m.conns[i]).tick(m.config, now, nonce)
                != m.conns[i].quiet(),
{
    lemma_some_deadline_due(m, now, m.conns.len());
    let i = choose|i: int|
        0 <= i < m.conns.len() && !before(now, (#[trigger] m.conns[i]).deadline(m.config));
    assert(fresh_for(m.conns[i], nonce));
    lemma_connection_rests_until_deadline(m.conns[i], m.config, now, nonce);
}

proof fn lemma_some_deadline_due(m: SwarmModel, now: u64, k: nat)
    requires
        k <= m.conns.len(),
        !before(now, m.deadline_upto(k)),
    ensures
        exists|i: int| 0 <= i < k && !before(now, (#[trigger] m.conns[i]).deadline(m.config)),
    decreases k,
{
    if k > 0 {
        if !before(now, m.conns[k - 1].deadline(m.config)) {
        } else {
            lemma_some_deadline_due(m, now, (k - 1) as nat);
        }
    }
}

} // verus!
