//! The liveness probe: a state machine that sends a nonce over a stream, waits
//! for its echo and reports the round-trip time or a timeout.

use vstd::prelude::*;
use vstd::bytes::{lemma_auto_spec_u64_to_from_le_bytes, spec_u64_to_le_bytes, u64_to_le_bytes};
use crate::bytes::bytes_equal;

verus! {

/// How the probe is timed and when its failures close a connection.
#[derive(Clone, Copy, Debug, PartialEq, Eq, Structural)]
pub struct PingConfig {
    /// Time units after which a probe without echo has failed.
    pub timeout: u64,
    /// Time units between the end of one probe and the start of the next.
    pub interval: u64,
    /// Whether a next probe is scheduled at all.
    pub keep_alive: bool,
    /// Number of consecutive failures at which the connection is closed.
    pub max_failures: u32,
    /// Whether failures never close the connection.
    pub tolerant: bool,
}

impl Default for PingConfig {
    fn default() -> (r: PingConfig)
        ensures
            r == (PingConfig {
                timeout: 20,
                interval: 0,
                keep_alive: true,
                max_failures: 1,
                tolerant: false,
            }),
    {
        PingConfig { timeout: 20, interval: 0, keep_alive: true, max_failures: 1, tolerant: false }
    }
}

/// Where a probe stands.
#[derive(Clone, Copy, Debug, PartialEq, Eq, Structural)]
pub enum PingState {
    /// No probe is under way.
    Idle,
    /// A probe was queued for sending during the current pass.
    ProbeSent,
    /// A probe is on the wire and its echo is outstanding.
    AwaitingEcho,
    /// The last probe timed out.
    Failed,
}

/// A payload that is not the echo of an outstanding probe: another payload, or
/// an echo that comes when its probe has timed out. It is reported and
/// otherwise ignored.
#[derive(Clone, Copy, Debug, PartialEq, Eq, Structural)]
pub enum ProtocolError {
    EchoMismatch,
}

/// Why a probe failed.
#[derive(Clone, Copy, Debug, PartialEq, Eq, Structural)]
pub enum PingFailure {
    Timeout,
}

/// What a pass over a session calls for.
#[derive(Clone, Copy, Debug, PartialEq, Eq, Structural)]
pub enum Tick {
    /// Nothing to report.
    Quiet,
    /// A new probe with this nonce is to be written to the stream.
    Probe { nonce: u64 },
    /// The outstanding probe timed out; `close` tells whether the failures have
    /// reached the count at which the connection is closed.
    TimedOut { close: bool },
}

/// The probe's state on one connection.
#[derive(Clone, Copy, Debug, PartialEq, Eq, Structural)]
pub struct PingSession {
    pub state: PingState,
    /// Nonce of the last probe; outstanding while an echo is awaited.
    pub nonce: u64,
    /// When the last probe was sent.
    pub sent_at: u64,
    /// Failures since the last success.
    pub failures: u32,
    /// When the next probe is due, if one is.
    pub next_due: Option<u64>,
}

/// The payload that carries a nonce over the wire: its eight bytes, the lowest
/// first.
pub open spec fn nonce_payload(nonce: u64) -> Seq<u8> {
    spec_u64_to_le_bytes(nonce)
}

/// Computes `nonce_payload`.
pub fn encode_nonce(nonce: u64) -> (r: Vec<u8>)
    ensures
        r@ == nonce_payload(nonce),
{
    u64_to_le_bytes(nonce)
}

/// The payload tells the nonce: it is eight bytes long, and two nonces have
/// the same payload only if they are the same.
pub proof fn lemma_payload_tells_nonce(a: u64, b: u64)
    ensures
        nonce_payload(a).len() == 8,
        nonce_payload(a) == nonce_payload(b) <==> a == b,
{
    lemma_auto_spec_u64_to_from_le_bytes();
}

/// Time from `since` to `now`; none if the clock went back.
pub open spec fn elapsed(now: u64, since: u64) -> u64 {
    if now >= since {
        (now - since) as u64
    } else {
        0
    }
}

/// The time `interval` after `now`, or the end of time.
pub open spec fn due_after(now: u64, interval: u64) -> u64 {
    if now + interval > u64::MAX {
        u64::MAX
    } else {
        (now + interval) as u64
    }
}

/// One more failure, up to what the counter holds.
pub open spec fn one_more(failures: u32) -> u32 {
    if failures == u32::MAX {
        u32::MAX
    } else {
        (failures + 1) as u32
    }
}

/// When the next probe is due after one ended at `now`.
pub open spec fn next_probe(cfg: PingConfig, now: u64) -> Option<u64> {
    if cfg.keep_alive {
        Some(due_after(now, cfg.interval))
    } else {
        None
    }
}

/// Whether this many consecutive failures close the connection.
pub open spec fn must_close(cfg: PingConfig, failures: u32) -> bool {
    !cfg.tolerant && failures >= cfg.max_failures
}

/// Computes `elapsed`.
pub fn time_since(now: u64, since: u64) -> (r: u64)
    ensures
        r == elapsed(now, since),
{
    if now >= since {
        now - since
    } else {
        0
    }
}

fn schedule(cfg: &PingConfig, now: u64) -> (r: Option<u64>)
    ensures
        r == next_probe(*cfg, now),
{
    if cfg.keep_alive {
        if now > u64::MAX - cfg.interval {
            Some(u64::MAX)
        } else {
            Some(now + cfg.interval)
        }
    } else {
        None
    }
}

impl PingSession {
    /// The session that a newly opened stream starts: its first probe, with
    /// the given nonce, is queued at `now`.
    pub open spec fn opened(now: u64, nonce: u64) -> PingSession {
        PingSession { state: PingState::ProbeSent, nonce, sent_at: now, failures: 0, next_due: None }
    }

    /// Whether a probe is outstanding.
    pub open spec fn awaiting(self) -> bool {
        self.state == PingState::ProbeSent || self.state == PingState::AwaitingEcho
    }

    /// Whether the outstanding probe has been without echo for the whole timeout.
    pub open spec fn timed_out(self, cfg: PingConfig, now: u64) -> bool {
        self.awaiting() && elapsed(now, self.sent_at) >= cfg.timeout
    }

    /// Whether the payload, received at `now`, is the echo of the outstanding
    /// probe and comes before the probe's timeout.
    pub open spec fn is_echo(self, cfg: PingConfig, now: u64, payload: Seq<u8>) -> bool {
        self.awaiting() && !self.timed_out(cfg, now) && payload == nonce_payload(self.nonce)
    }

    /// What a received payload is taken for at `now`: the round-trip time if it
    /// is the echo in time, a mismatch if it is not.
    pub open spec fn verdict(self, cfg: PingConfig, now: u64, payload: Seq<u8>) -> Result<
        u64,
        ProtocolError,
    > {
        if self.is_echo(cfg, now, payload) {
            Ok(elapsed(now, self.sent_at))
        } else {
            Err(ProtocolError::EchoMismatch)
        }
    }

    /// The session after a payload was received at `now`. The echo in time ends
    /// the probe and schedules the next; anything else changes nothing, and an
    /// echo that comes too late leaves the timeout to the end of the pass.
    pub open spec fn after_payload(
        self,
        cfg: PingConfig,
        now: u64,
        payload: Seq<u8>,
    ) -> PingSession {
        if self.is_echo(cfg, now, payload) {
            PingSession {
                state: PingState::Idle,
                failures: 0,
                next_due: next_probe(cfg, now),
                ..self
            }
        } else {
            self
        }
    }

    /// Whether a new probe is due and can be sent with the given nonce. A probe
    /// never carries the nonce of the probe before it: where the nonce at hand
    /// is that nonce, the probe waits for a pass that brings another.
    pub open spec fn probe_due(self, now: u64, nonce: u64) -> bool {
        &&& self.state == PingState::Idle || self.state == PingState::Failed
        &&& self.next_due matches Some(t)
        &&& now >= t
        &&& nonce != self.nonce
    }

    /// What a pass at `now` calls for.
    pub open spec fn tick_effect(self, cfg: PingConfig, now: u64, nonce: u64) -> Tick {
        if self.timed_out(cfg, now) {
            Tick::TimedOut { close: must_close(cfg, one_more(self.failures)) }
        } else if self.probe_due(now, nonce) {
            Tick::Probe { nonce }
        } else {
            Tick::Quiet
        }
    }

    /// The session after a pass at `now`: a probe that timed out has failed, a
    /// probe that is due is on the wire with the given nonce, and a probe that
    /// was queued during the pass is on the wire.
    pub open spec fn after_tick(self, cfg: PingConfig, now: u64, nonce: u64) -> PingSession {
        if self.timed_out(cfg, now) {
            PingSession {
                state: PingState::Failed,
                failures: one_more(self.failures),
                next_due: next_probe(cfg, now),
                ..self
            }
        } else if self.probe_due(now, nonce) {
            PingSession { state: PingState::AwaitingEcho, nonce, sent_at: now, next_due: None, ..self }
        } else if self.state == PingState::ProbeSent {
            PingSession { state: PingState::AwaitingEcho, ..self }
        } else {
            self
        }
    }

    /// The time from which a pass has something to do for the session, if
    /// there is one: at once for a probe that is queued, at the end of the
    /// timeout for a probe on the wire, and when the next probe is due.
    pub open spec fn deadline(self, cfg: PingConfig) -> Option<u64> {
        if self.state == PingState::ProbeSent || (self.awaiting() && cfg.timeout == 0) {
            Some(0)
        } else if self.awaiting() {
            if self.sent_at + cfg.timeout <= u64::MAX {
                Some((self.sent_at + cfg.timeout) as u64)
            } else {
                None
            }
        } else {
            self.next_due
        }
    }

    /// Whether a pass at `now` leaves the session as it is and calls for nothing.
    pub open spec fn rests(self, cfg: PingConfig, now: u64, nonce: u64) -> bool {
        self.after_tick(cfg, now, nonce) == self && self.tick_effect(cfg, now, nonce) == Tick::Quiet
    }

    /// Starts a session on a newly opened stream. The caller writes `nonce` to
    /// the stream.
    pub fn open(now: u64, nonce: u64) -> (r: PingSession)
        ensures
            r == PingSession::opened(now, nonce),
    {
        PingSession { state: PingState::ProbeSent, nonce, sent_at: now, failures: 0, next_due: None }
    }

    /// Takes a payload received on the probe's stream at `now`.
    pub fn on_payload(&mut self, cfg: &PingConfig, now: u64, payload: &[u8]) -> (r: Result<
        u64,
        ProtocolError,
    >)
        ensures
            r == old(self).verdict(*cfg, now, payload@),
            *final(self) == old(self).after_payload(*cfg, now, payload@),
    {
        let awaiting = self.state == PingState::ProbeSent || self.state == PingState::AwaitingEcho;
        let in_time = time_since(now, self.sent_at) < cfg.timeout;
        if awaiting && in_time && bytes_equal(payload, encode_nonce(self.nonce).as_slice()) {
            let rtt = time_since(now, self.sent_at);
            self.state = PingState::Idle;
            self.failures = 0;
            self.next_due = schedule(cfg, now);
            Ok(rtt)
        } else {
            Err(ProtocolError::EchoMismatch)
        }
    }

    /// The time from which a pass has something to do for the session.
    pub fn next_deadline(&self, cfg: &PingConfig) -> (r: Option<u64>)
        ensures
            r == self.deadline(*cfg),
    {
        let awaiting = self.state == PingState::ProbeSent || self.state == PingState::AwaitingEcho;
        if self.state == PingState::ProbeSent || (awaiting && cfg.timeout == 0) {
            Some(0)
        } else if awaiting {
            time_after(self.sent_at, cfg.timeout)
        } else {
            self.next_due
        }
    }

    /// Advances the session at the end of a pass at `now`. `nonce` is the nonce
    /// of the probe that is started if one is due.
    pub fn on_tick(&mut self, cfg: &PingConfig, now: u64, nonce: u64) -> (r: Tick)
        ensures
            r == old(self).tick_effect(*cfg, now, nonce),
            *final(self) == old(self).after_tick(*cfg, now, nonce),
    {
        let awaiting = self.state == PingState::ProbeSent || self.state == PingState::AwaitingEcho;
        if awaiting && time_since(now, self.sent_at) >= cfg.timeout {
            let failures: u32 = if self.failures == u32::MAX {
                u32::MAX
            } else {
                self.failures + 1
            };
            self.state = PingState::Failed;
            self.failures = failures;
            self.next_due = schedule(cfg, now);
            return Tick::TimedOut { close: !cfg.tolerant && failures >= cfg.max_failures };
        }
        let resting = self.state == PingState::Idle || self.state == PingState::Failed;
        let due = match self.next_due {
            Some(t) => resting && now >= t && nonce != self.nonce,
            None => false,
        };
        if due {
            self.state = PingState::AwaitingEcho;
            self.nonce = nonce;
            self.sent_at = now;
            self.next_due = None;
            return Tick::Probe { nonce };
        }
        if self.state == PingState::ProbeSent {
            self.state = PingState::AwaitingEcho;
        }
        Tick::Quiet
    }
}

/// Whether `now` is before the deadline, if there is one.
pub open spec fn before(now: u64, deadline: Option<u64>) -> bool {
    match deadline {
        Some(d) => now < d,
        None => true,
    }
}

/// The earlier of two deadlines.
pub open spec fn sooner(a: Option<u64>, b: Option<u64>) -> Option<u64> {
    match (a, b) {
        (None, _) => b,
        (_, None) => a,
        (Some(x), Some(y)) => if x <= y {
            a
        } else {
            b
        },
    }
}

/// Computes `sooner`.
pub fn earlier(a: Option<u64>, b: Option<u64>) -> (r: Option<u64>)
    ensures
        r == sooner(a, b),
{
    match (a, b) {
        (None, _) => b,
        (_, None) => a,
        (Some(x), Some(y)) => if x <= y {
            a
        } else {
            b
        },
    }
}

/// The time `span` after `since`, if time goes so far.
pub fn time_after(since: u64, span: u64) -> (r: Option<u64>)
    ensures
        r == (if since + span <= u64::MAX {
            Some((since + span) as u64)
        } else {
            None
        }),
{
    if since > u64::MAX - span {
        None
    } else {
        Some(since + span)
    }
}

/// A pass has nothing to do for a session before its deadline, and something
/// from its deadline on, if only it brings a nonce other than that of the
/// last probe.
pub proof fn lemma_session_rests_until_deadline(
    s: PingSession,
    cfg: PingConfig,
    now: u64,
    nonce: u64,
)
    ensures
        before(now, s.deadline(cfg)) ==> s.rests(cfg, now, nonce),
        !before(now, s.deadline(cfg)) && nonce != s.nonce ==> !s.rests(cfg, now, nonce),
{
}

/// The echo of a probe is not taken for the echo of the next: the probe that
/// follows carries another nonce, so a payload that repeats the old one is a
/// mismatch.
pub proof fn lemma_stale_echo_is_rejected(
    s: PingSession,
    cfg: PingConfig,
    now: u64,
    nonce: u64,
    later: u64,
)
    requires
        !s.awaiting(),
        s.tick_effect(cfg, now, nonce) is Probe,
    ensures
        s.after_tick(cfg, now, nonce).awaiting(),
        s.after_tick(cfg, now, nonce).nonce == nonce,
        nonce != s.nonce,
        s.after_tick(cfg, now, nonce).verdict(cfg, later, nonce_payload(s.nonce)) == Err::<
            u64,
            ProtocolError,
        >(ProtocolError::EchoMismatch),
{
    lemma_payload_tells_nonce(s.nonce, nonce);
}

/// The echo of the outstanding nonce, if it comes before the timeout, ends the
/// probe with its round-trip time, whether it arrives in the pass that sent
/// the probe or after a later pass.
pub proof fn lemma_echo_ends_probe(
    cfg: PingConfig,
    sent: u64,
    nonce: u64,
    pass: u64,
    other: u64,
    now: u64,
)
    requires
        sent <= pass <= now,
        now - sent < cfg.timeout,
    ensures
        ({
            let s = PingSession::opened(sent, nonce);
            let w = s.after_tick(cfg, pass, other);
            &&& s.verdict(cfg, now, nonce_payload(nonce)) == Ok::<u64, ProtocolError>(
                (now - sent) as u64,
            )
            &&& w.state == PingState::AwaitingEcho
            &&& w.verdict(cfg, now, nonce_payload(nonce)) == Ok::<u64, ProtocolError>(
                (now - sent) as u64,
            )
            &&& w.after_payload(cfg, now, nonce_payload(nonce)).state == PingState::Idle
            &&& w.after_payload(cfg, now, nonce_payload(nonce)).failures == 0
            &&& w.after_payload(cfg, now, nonce_payload(nonce)).next_due == next_probe(cfg, now)
        }),
{
}

/// An echo that comes when the timeout has passed is no success, however
/// long no pass has looked: the session stays as it was, and the end of the
/// pass reports the timeout.
pub proof fn lemma_late_echo_is_no_result(s: PingSession, cfg: PingConfig, now: u64, nonce: u64)
    requires
        s.awaiting(),
        elapsed(now, s.sent_at) >= cfg.timeout,
    ensures
        s.verdict(cfg, now, nonce_payload(s.nonce)) == Err::<u64, ProtocolError>(
            ProtocolError::EchoMismatch,
        ),
        s.after_payload(cfg, now, nonce_payload(s.nonce)) == s,
        s.tick_effect(cfg, now, nonce) is TimedOut,
{
}

/// A probe that stays without echo for the whole timeout fails at the next
/// pass, and the failure is reported at that pass only: no later pass reports
/// it again unless a new probe was sent.
pub proof fn lemma_timeout_reported_once(
    s: PingSession,
    cfg: PingConfig,
    now: u64,
    nonce: u64,
    later: u64,
    other: u64,
)
    requires
        s.awaiting(),
        elapsed(now, s.sent_at) >= cfg.timeout,
    ensures
        s.tick_effect(cfg, now, nonce) == (Tick::TimedOut {
            close: must_close(cfg, one_more(s.failures)),
        }),
        s.after_tick(cfg, now, nonce).state == PingState::Failed,
        s.after_tick(cfg, now, nonce).failures == one_more(s.failures),
        !(s.after_tick(cfg, now, nonce).tick_effect(cfg, later, other) is TimedOut),
        cfg == (PingConfig {
            timeout: 20,
            interval: 0,
            keep_alive: true,
            max_failures: 1,
            tolerant: false,
        })
            ==> s.tick_effect(cfg, now, nonce) == (Tick::TimedOut { close: true }),
{
}

/// A payload other than that of the outstanding nonce is no result: it is
/// reported as a mismatch and the session stays as it was, still awaiting the
/// echo.
pub proof fn lemma_mismatch_ignored(s: PingSession, cfg: PingConfig, now: u64, payload: Seq<u8>)
    requires
        payload != nonce_payload(s.nonce),
    ensures
        s.verdict(cfg, now, payload) == Err::<u64, ProtocolError>(ProtocolError::EchoMismatch),
        s.after_payload(cfg, now, payload) == s,
        s.state == PingState::AwaitingEcho ==> s.after_payload(cfg, now, payload).state
            == PingState::AwaitingEcho,
{
}

} // verus!
