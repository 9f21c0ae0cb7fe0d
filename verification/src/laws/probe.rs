//! The liveness probe as the engine runs it.

use vstd::prelude::*;
use crate::connection::{
    stream_index, stream_numbered, ConnModel, ConnState, Reaction, StreamInfo, SwarmConfig,
};
use crate::event::{ActionModel, CloseReason, EventModel, InputModel};
use crate::ping::{
    elapsed, must_close, nonce_payload, one_more, PingFailure, PingState, ProtocolError,
};
use crate::swarm::{conn_numbered, live_only, SwarmModel};
use crate::laws::reachable::{compatible, inv, lemma_live_only, lemma_position, sound};
use crate::search::{lemma_first_where, lemma_first_where_bounds};

verus! {

/// A probe and its echo between two engines. The first engine opens a
/// stream on an open connection that is the first to its peer, and so sends
/// the nonce; the second engine, which has the stream as one that its peer
/// opened, sends the payload back as it is; and the first engine, on getting
/// it before the timeout, reports the round-trip time for the peer and is
/// idle again.
pub proof fn lemma_ping_exchange(
    a: SwarmModel,
    i: int,
    b: SwarmModel,
    j: int,
    stream: u64,
    peer_stream: u64,
    sent: u64,
    echoed: u64,
    now: u64,
    nonce: u64,
    other: u64,
)
    requires
        inv(a),
        inv(b),
        0 <= i < a.conns.len(),
        0 <= j < b.conns.len(),
        a.conns[i].state == ConnState::Open,
        a.conns[i].probe is None,
        !a.taken(a.conns[i].peer),
        stream_index(a.conns[i].streams, stream) == a.conns[i].streams.len(),
        b.conns[j].state == ConnState::Open,
        stream_index(b.conns[j].streams, peer_stream) < b.conns[j].streams.len(),
        b.conns[j].streams[stream_index(b.conns[j].streams, peer_stream)].inbound,
        sent <= now,
        now - sent < a.config.ping.timeout,
    ensures
        ({
            let ca = a.conns[i];
            let cb = b.conns[j];
            let (a1, e1) = a.step(
                sent,
                nonce,
                InputModel::StreamOpened { conn: ca.id, stream, inbound: false },
            );
            let (b1, f1) = b.step(
                echoed,
                other,
                InputModel::Data {
                    conn: cb.id,
                    stream: peer_stream,
                    payload: nonce_payload(nonce),
                },
            );
            let (a2, e2) = a1.step(
                now,
                other,
                InputModel::Data { conn: ca.id, stream, payload: nonce_payload(nonce) },
            );
            &&& e1 == Seq::<EventModel>::empty()
            &&& a1.outbox == a.outbox.push(
                ActionModel::Send { conn: ca.id, stream, payload: nonce_payload(nonce) },
            )
            &&& f1 == Seq::<EventModel>::empty()
            &&& b1.conns == b.conns
            &&& b1.outbox == b.outbox.push(
                ActionModel::Send {
                    conn: cb.id,
                    stream: peer_stream,
                    payload: nonce_payload(nonce),
                },
            )
            &&& ca.peer is Some
            &&& e2 == seq![
                EventModel::PingResult { peer: ca.peer->0, result: Ok((now - sent) as u64) },
            ]
            &&& a2.conns[i].probe is Some
            &&& a2.conns[i].probe->0.session.state == PingState::Idle
            &&& a2.outbox == a1.outbox
        }),
{
    let ca = a.conns[i];
    let cb = b.conns[j];
    lemma_position(a, i);
    lemma_position(b, j);
    assert(sound(ca));
    let opened = InputModel::StreamOpened { conn: ca.id, stream, inbound: false };
    let (a1, e1) = a.step(sent, nonce, opened);
    assert(e1 =~= Seq::<EventModel>::empty());
    assert(a1.outbox =~= a.outbox.push(
        ActionModel::Send { conn: ca.id, stream, payload: nonce_payload(nonce) },
    ));
    let (b1, f1) = b.step(
        echoed,
        other,
        InputModel::Data { conn: cb.id, stream: peer_stream, payload: nonce_payload(nonce) },
    );
    assert(f1 =~= Seq::<EventModel>::empty());
    assert(b1.conns =~= b.conns);
    assert(b1.outbox =~= b.outbox.push(
        ActionModel::Send { conn: cb.id, stream: peer_stream, payload: nonce_payload(nonce) },
    ));
    // the first engine after the stream was opened
    let c1 = a1.conns[i];
    assert(c1.streams == ca.streams.push(StreamInfo { id: stream, inbound: false }));
    lemma_first_where_bounds(ca.streams, stream_numbered(stream));
    assert forall|k: int| 0 <= k < ca.streams.len() implies !stream_numbered(stream)(
        #[trigger] c1.streams[k],
    ) by {
        assert(c1.streams[k] == ca.streams[k]);
    }
    lemma_first_where(c1.streams, stream_numbered(stream), ca.streams.len() as int);
    assert forall|k: int| 0 <= k < i implies !conn_numbered(ca.id)(#[trigger] a1.conns[k]) by {
        assert(a1.conns[k] == a.conns[k]);
        assert(compatible(a.conns[k], a.conns[i]));
    }
    lemma_first_where(a1.conns, conn_numbered(ca.id), i);
    let echo = InputModel::Data { conn: ca.id, stream, payload: nonce_payload(nonce) };
    let (a2, e2) = a1.step(now, other, echo);
    assert(e2 =~= seq![
        EventModel::PingResult { peer: ca.peer->0, result: Ok((now - sent) as u64) },
    ]);
    assert(a2.outbox =~= a1.outbox);
}

/// A payload other than the outstanding nonce, arriving on the stream that
/// carries the probe, gives no event and leaves every connection as it was,
/// the session still awaiting its echo; the mismatch is only noted.
pub proof fn lemma_mismatched_echo_changes_nothing(
    m: SwarmModel,
    i: int,
    now: u64,
    nonce: u64,
    payload: Seq<u8>,
)
    requires
        inv(m),
        0 <= i < m.conns.len(),
        m.conns[i].state == ConnState::Open,
        m.conns[i].probe is Some,
        m.conns[i].probe->0.session.state == PingState::AwaitingEcho,
        payload != nonce_payload(m.conns[i].probe->0.session.nonce),
        stream_index(m.conns[i].streams, m.conns[i].probe->0.stream) < m.conns[i].streams.len(),
        !m.conns[i].streams[stream_index(m.conns[i].streams, m.conns[i].probe->0.stream)].inbound,
    ensures
        ({
            let c = m.conns[i];
            let (after, events) = m.step(
                now,
                nonce,
                InputModel::Data { conn: c.id, stream: c.probe->0.stream, payload },
            );
            &&& events == Seq::<EventModel>::empty()
            &&& after.conns == m.conns
            &&& after.conns[i].probe->0.session.state == PingState::AwaitingEcho
            &&& after.outbox == m.outbox.push(
                ActionModel::Report { conn: c.id, error: ProtocolError::EchoMismatch },
            )
        }),
{
    let c = m.conns[i];
    lemma_position(m, i);
    let (after, events) = m.step(
        now,
        nonce,
        InputModel::Data { conn: c.id, stream: c.probe->0.stream, payload },
    );
    assert(events =~= Seq::<EventModel>::empty());
    assert(after.conns =~= m.conns);
    assert(after.outbox =~= m.outbox.push(
        ActionModel::Report { conn: c.id, error: ProtocolError::EchoMismatch },
    ));
}

/// How often an event stands among the events.
pub open spec fn occurrences(events: Seq<EventModel>, e: EventModel) -> nat
    decreases events.len(),
{
    if events.len() == 0 {
        0
    } else {
        occurrences(events.drop_last(), e) + if events.last() == e {
            1nat
        } else {
            0nat
        }
    }
}

proof fn lemma_occurrences_add(a: Seq<EventModel>, b: Seq<EventModel>, e: EventModel)
    ensures
        occurrences(a + b, e) == occurrences(a, e) + occurrences(b, e),
    decreases b.len(),
{
    if b.len() == 0 {
        assert(a + b =~= a);
    } else {
        assert((a + b).drop_last() =~= a + b.drop_last());
        assert((a + b).last() == b.last());
        lemma_occurrences_add(a, b.drop_last(), e);
    }
}

proof fn lemma_occurrences_short(events: Seq<EventModel>, e: EventModel)
    requires
        events.len() <= 2,
    ensures
        occurrences(events, e) == (if events.len() >= 1 && events[0] == e {
            1nat
        } else {
            0nat
        }) + (if events.len() >= 2 && events[1] == e {
            1nat
        } else {
            0nat
        }),
{
    reveal_with_fuel(occurrences, 3);
    if events.len() == 2 {
        assert(events.drop_last().drop_last().len() == 0);
        assert(events.drop_last().last() == events[0]);
    } else if events.len() == 1 {
        assert(events.drop_last().len() == 0);
    }
}

proof fn lemma_timeout_counted(m: SwarmModel, i: int, now: u64, nonce: u64, k: nat)
    requires
        inv(m),
        0 <= i < m.conns.len(),
        k <= m.conns.len(),
        m.conns[i].state == ConnState::Open,
        m.conns[i].probe is Some,
        m.conns[i].probe->0.session.awaiting(),
        elapsed(now, m.conns[i].probe->0.session.sent_at) >= m.config.ping.timeout,
        must_close(m.config.ping, one_more(m.conns[i].probe->0.session.failures)),
    ensures
        ({
            let peer = m.conns[i].peer->0;
            let (p, e) = m.tick_upto(now, nonce, k);
            let timeout = EventModel::PingResult { peer, result: Err(PingFailure::Timeout) };
            let closed = EventModel::ConnectionClosed { peer, reason: CloseReason::PingFailure };
            &&& p.config == m.config
            &&& p.conns.len() == m.conns.len()
            &&& forall|x: int| k <= x < m.conns.len() ==> #[trigger] p.conns[x] == m.conns[x]
            &&& forall|x: int|
                0 <= x < m.conns.len() ==> (#[trigger] p.conns[x]).id == m.conns[x].id
            &&& occurrences(e, timeout) == (if k > i {
                1nat
            } else {
                0nat
            })
            &&& occurrences(e, closed) == (if k > i {
                1nat
            } else {
                0nat
            })
            &&& k > i ==> p.conns[i].state == ConnState::Closing
        }),
    decreases k,
{
    if k > 0 {
        lemma_timeout_counted(m, i, now, nonce, (k - 1) as nat);
        let peer = m.conns[i].peer->0;
        let timeout = EventModel::PingResult { peer, result: Err(PingFailure::Timeout) };
        let closed = EventModel::ConnectionClosed { peer, reason: CloseReason::PingFailure };
        let (p, e) = m.tick_upto(now, nonce, (k - 1) as nat);
        let c = p.conns[k - 1];
        assert(c == m.conns[k - 1]);
        assert(sound(m.conns[i]));
        let r = c.tick(p.config, now, nonce);
        lemma_occurrences_add(e, r.events, timeout);
        lemma_occurrences_add(e, r.events, closed);
        lemma_occurrences_short(r.events, timeout);
        lemma_occurrences_short(r.events, closed);
        if k - 1 == i {
            assert(r.events =~= seq![timeout, closed]);
        } else {
            if k - 1 < i {
                assert(compatible(m.conns[k - 1], m.conns[i]));
            } else {
                assert(compatible(m.conns[i], m.conns[k - 1]));
            }
        }
        let q = p.with_reaction(k - 1, r);
        assert forall|x: int| 0 <= x < m.conns.len() implies (#[trigger] q.conns[x]).id
            == m.conns[x].id by {
            assert(p.conns[x].id == m.conns[x].id);
        }
    }
}

/// A probe that has been without echo for the whole timeout, on a connection
/// whose failures thereby reach the count at which it is closed, is reported
/// as timed out exactly once in the next pass; the end of the connection is
/// reported once; and after the pass the connection is gone.
pub proof fn lemma_probe_timeout_closes(m: SwarmModel, i: int, now: u64, nonce: u64)
    requires
        inv(m),
        0 <= i < m.conns.len(),
        m.conns[i].state == ConnState::Open,
        m.conns[i].probe is Some,
        m.conns[i].probe->0.session.awaiting(),
        elapsed(now, m.conns[i].probe->0.session.sent_at) >= m.config.ping.timeout,
        must_close(m.config.ping, one_more(m.conns[i].probe->0.session.failures)),
    ensures
        ({
            let peer = m.conns[i].peer->0;
            let (after, events) = m.poll(now, nonce, Seq::empty());
            &&& occurrences(
                events,
                EventModel::PingResult { peer, result: Err(PingFailure::Timeout) },
            ) == 1
            &&& occurrences(
                events,
                EventModel::ConnectionClosed { peer, reason: CloseReason::PingFailure },
            ) == 1
            &&& forall|k: int|
                0 <= k < after.conns.len() ==> (#[trigger] after.conns[k]).id != m.conns[i].id
        }),
{
    let n = m.conns.len();
    assert(m.run(now, nonce, Seq::<InputModel>::empty()) == (m, Seq::<EventModel>::empty()));
    lemma_timeout_counted(m, i, now, nonce, n);
    let (p, e) = m.tick_upto(now, nonce, n);
    assert(Seq::<EventModel>::empty() + e =~= e);
    let t = live_only(p.conns);
    lemma_live_only(p.conns);
    assert forall|k: int| 0 <= k < t.len() implies (#[trigger] t[k]).id != m.conns[i].id by {
        let x = choose|x: int| k <= x < p.conns.len() && p.conns[x] == t[k];
        assert(p.conns[x].id == m.conns[x].id);
        if x < i {
            assert(compatible(m.conns[x], m.conns[i]));
        } else if x > i {
            assert(compatible(m.conns[i], m.conns[x]));
        }
    }
}

/// Whatever arrives on a stream that the peer opened goes back as it came:
/// the same bytes, on the same stream, with no event and no change to the
/// connection.
pub proof fn lemma_responder_echoes_verbatim(
    c: ConnModel,
    cfg: SwarmConfig,
    now: u64,
    nonce: u64,
    conn: u64,
    stream: u64,
    payload: Seq<u8>,
    rival: bool,
    taken: bool,
)
    requires
        c.state == ConnState::Open,
        stream_index(c.streams, stream) < c.streams.len(),
        c.streams[stream_index(c.streams, stream)].inbound,
    ensures
        c.react(cfg, now, nonce, InputModel::Data { conn, stream, payload }, rival, taken) == (
            Reaction {
                conn: c,
                events: Seq::empty(),
                actions: seq![ActionModel::Send { conn: c.id, stream, payload }],
            }
        ),
{
}

} // verus!
