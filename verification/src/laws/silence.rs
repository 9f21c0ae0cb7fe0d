//! What the engine does without a word, and what it never does.

use vstd::prelude::*;
use crate::connection::{ConnModel, SwarmConfig};
use crate::event::{ActionModel, EventModel, InputModel};
use crate::laws::reachable::{lemma_live_only, settled};
use crate::swarm::SwarmModel;

verus! {

/// Whether the action ends a connection or an attempt.
pub open spec fn ends_link(a: ActionModel) -> bool {
    a is Close || a is Abort
}

/// An attempt that the caller has withdrawn is given up at the next thing
/// that happens to it, be it an input or the end of a pass: nothing is
/// reported, the transport is asked to abandon the attempt, and the
/// connection has left the live set.
pub proof fn lemma_withdrawn_attempt_is_silent(
    c: ConnModel,
    cfg: SwarmConfig,
    now: u64,
    nonce: u64,
    input: InputModel,
    rival: bool,
    taken: bool,
)
    requires
        c.pending(),
        c.cancelled,
    ensures
        c.react(cfg, now, nonce, input, rival, taken) == c.withdrawn(),
        c.tick(cfg, now, nonce) == c.withdrawn(),
        c.withdrawn().events.len() == 0,
        !c.withdrawn().conn.live(),
{
}

/// A payload never ends a connection: whatever arrives, on whatever stream,
/// the connection stays in its state and the transport is not asked to close
/// it. The side that echoes never closes.
pub proof fn lemma_payload_never_closes(
    c: ConnModel,
    cfg: SwarmConfig,
    now: u64,
    nonce: u64,
    conn: u64,
    stream: u64,
    payload: Seq<u8>,
    rival: bool,
    taken: bool,
)
    requires
        !(c.pending() && c.cancelled),
    ensures
        ({
            let r = c.react(
                cfg,
                now,
                nonce,
                InputModel::Data { conn, stream, payload },
                rival,
                taken,
            );
            &&& r.conn.state == c.state
            &&& r.conn.streams == c.streams
            &&& forall|k: int| 0 <= k < r.actions.len() ==> !ends_link(#[trigger] r.actions[k])
        }),
{
}

/// An input about a connection that the engine does not hold does nothing.
/// Since a pass leaves no connection behind that has ended, nothing that the
/// transport tells later of an ended connection leads to an event.
pub proof fn lemma_ended_connection_is_ignored(
    m: SwarmModel,
    now: u64,
    nonce: u64,
    inputs: Seq<InputModel>,
    later: u64,
    other: u64,
    input: InputModel,
)
    ensures
        ({
            let after = m.poll(now, nonce, inputs).0;
            &&& settled(after)
            &&& !after.holds(input.conn()) ==> after.step(later, other, input) == (
                after,
                Seq::<EventModel>::empty(),
            )
        }),
{
    let m1 = m.run(now, nonce, inputs).0;
    let m2 = m1.tick_upto(now, nonce, m1.conns.len()).0;
    lemma_live_only(m2.conns);
}

} // verus!
