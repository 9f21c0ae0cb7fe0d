use p2p_swarm::ping::{
    earlier, encode_nonce, time_after, time_since, PingConfig, PingSession, PingState,
    ProtocolError, Tick,
};

/// The payload that carries a nonce.
fn p(nonce: u64) -> Vec<u8> {
    nonce.to_le_bytes().to_vec()
}

#[test]
fn default_policy() {
    let cfg = PingConfig::default();
    assert_eq!(cfg.timeout, 20);
    assert_eq!(cfg.interval, 0);
    assert!(cfg.keep_alive);
    assert_eq!(cfg.max_failures, 1);
    assert!(!cfg.tolerant);
}

#[test]
fn open_queues_the_first_probe() {
    let s = PingSession::open(100, 0xabcd);
    assert_eq!(s.state, PingState::ProbeSent);
    assert_eq!(s.nonce, 0xabcd);
    assert_eq!(s.sent_at, 100);
    assert_eq!(s.failures, 0);
    assert_eq!(s.next_due, None);
}

#[test]
fn echo_gives_the_round_trip_time() {
    let cfg = PingConfig::default();
    let mut s = PingSession::open(100, 7);
    assert_eq!(s.on_tick(&cfg, 100, 8), Tick::Quiet);
    assert_eq!(s.state, PingState::AwaitingEcho);
    assert_eq!(s.on_payload(&cfg, 112, &p(7)), Ok(12));
    assert_eq!(s.state, PingState::Idle);
    assert_eq!(s.failures, 0);
    assert_eq!(s.next_due, Some(112));
}

#[test]
fn echo_in_the_same_pass_is_accepted() {
    let cfg = PingConfig::default();
    let mut s = PingSession::open(5, 9);
    assert_eq!(s.on_payload(&cfg, 5, &p(9)), Ok(0));
    assert_eq!(s.state, PingState::Idle);
}

#[test]
fn mismatch_is_ignored() {
    let cfg = PingConfig::default();
    let mut s = PingSession::open(100, 7);
    s.on_tick(&cfg, 100, 0);
    let before = s;
    assert_eq!(s.on_payload(&cfg, 105, &p(8)), Err(ProtocolError::EchoMismatch));
    assert_eq!(s, before);
    assert_eq!(s.state, PingState::AwaitingEcho);
    assert_eq!(s.on_payload(&cfg, 106, &p(7)), Ok(6));
}

#[test]
fn payload_without_outstanding_probe_is_a_mismatch() {
    let cfg = PingConfig { keep_alive: false, ..PingConfig::default() };
    let mut s = PingSession::open(1, 7);
    assert_eq!(s.on_payload(&cfg, 2, &p(7)), Ok(1));
    assert_eq!(s.next_due, None);
    assert_eq!(s.on_payload(&cfg, 3, &p(7)), Err(ProtocolError::EchoMismatch));
    assert_eq!(s.state, PingState::Idle);
}

#[test]
fn timeout_is_reported_once_and_closes_by_default() {
    let cfg = PingConfig::default();
    let mut s = PingSession::open(100, 7);
    assert_eq!(s.on_tick(&cfg, 119, 1), Tick::Quiet);
    assert_eq!(s.on_tick(&cfg, 120, 2), Tick::TimedOut { close: true });
    assert_eq!(s.state, PingState::Failed);
    assert_eq!(s.failures, 1);
    assert_eq!(s.next_due, Some(120));
    assert_eq!(s.on_tick(&cfg, 120, 3), Tick::Probe { nonce: 3 });
    assert_eq!(s.state, PingState::AwaitingEcho);
    assert_eq!(s.sent_at, 120);
}

#[test]
fn late_echo_after_timeout_is_a_mismatch() {
    let cfg = PingConfig { keep_alive: false, ..PingConfig::default() };
    let mut s = PingSession::open(0, 7);
    assert_eq!(s.on_tick(&cfg, 20, 1), Tick::TimedOut { close: true });
    assert_eq!(s.next_due, None);
    assert_eq!(s.on_payload(&cfg, 21, &p(7)), Err(ProtocolError::EchoMismatch));
    assert_eq!(s.state, PingState::Failed);
    assert_eq!(s.on_tick(&cfg, 1000, 2), Tick::Quiet);
}

#[test]
fn failures_count_up_to_the_threshold() {
    let cfg = PingConfig { max_failures: 3, interval: 5, ..PingConfig::default() };
    let mut s = PingSession::open(0, 1);
    assert_eq!(s.on_tick(&cfg, 20, 2), Tick::TimedOut { close: false });
    assert_eq!(s.next_due, Some(25));
    assert_eq!(s.on_tick(&cfg, 24, 2), Tick::Quiet);
    assert_eq!(s.on_tick(&cfg, 25, 2), Tick::Probe { nonce: 2 });
    assert_eq!(s.on_tick(&cfg, 45, 3), Tick::TimedOut { close: false });
    assert_eq!(s.failures, 2);
    assert_eq!(s.on_tick(&cfg, 50, 3), Tick::Probe { nonce: 3 });
    assert_eq!(s.on_tick(&cfg, 70, 4), Tick::TimedOut { close: true });
    assert_eq!(s.failures, 3);
}

#[test]
fn success_resets_the_failure_count() {
    let cfg = PingConfig { max_failures: 2, ..PingConfig::default() };
    let mut s = PingSession::open(0, 1);
    assert_eq!(s.on_tick(&cfg, 20, 2), Tick::TimedOut { close: false });
    assert_eq!(s.on_tick(&cfg, 21, 2), Tick::Probe { nonce: 2 });
    assert_eq!(s.on_payload(&cfg, 22, &p(2)), Ok(1));
    assert_eq!(s.failures, 0);
}

#[test]
fn tolerant_mode_never_closes() {
    let cfg = PingConfig { tolerant: true, ..PingConfig::default() };
    let mut s = PingSession::open(0, 1);
    assert_eq!(s.on_tick(&cfg, 20, 2), Tick::TimedOut { close: false });
}

#[test]
fn next_probe_waits_for_the_interval() {
    let cfg = PingConfig { interval: 15, ..PingConfig::default() };
    let mut s = PingSession::open(0, 1);
    assert_eq!(s.on_payload(&cfg, 3, &p(1)), Ok(3));
    assert_eq!(s.next_due, Some(18));
    assert_eq!(s.on_tick(&cfg, 17, 2), Tick::Quiet);
    assert_eq!(s.state, PingState::Idle);
    assert_eq!(s.on_tick(&cfg, 18, 2), Tick::Probe { nonce: 2 });
    assert_eq!(s.nonce, 2);
}

#[test]
fn due_time_saturates() {
    let cfg = PingConfig { interval: 10, ..PingConfig::default() };
    let mut s = PingSession::open(u64::MAX - 3, 1);
    assert_eq!(s.on_payload(&cfg, u64::MAX - 2, &p(1)), Ok(1));
    assert_eq!(s.next_due, Some(u64::MAX));
}

#[test]
fn clock_going_back_counts_as_no_time() {
    assert_eq!(time_since(5, 9), 0);
    assert_eq!(time_since(9, 5), 4);
    let cfg = PingConfig::default();
    let mut s = PingSession::open(100, 1);
    assert_eq!(s.on_payload(&cfg, 90, &p(1)), Ok(0));
}

#[test]
fn session_deadlines() {
    let cfg = PingConfig { interval: 5, ..PingConfig::default() };
    let mut s = PingSession::open(100, 1);
    assert_eq!(s.next_deadline(&cfg), Some(0));
    s.on_tick(&cfg, 100, 2);
    assert_eq!(s.next_deadline(&cfg), Some(120));
    assert_eq!(s.on_payload(&cfg, 103, &p(1)), Ok(3));
    assert_eq!(s.next_deadline(&cfg), Some(108));
    let never = PingConfig { keep_alive: false, ..cfg };
    let mut t = PingSession::open(100, 1);
    assert_eq!(t.on_payload(&never, 103, &p(1)), Ok(3));
    assert_eq!(t.next_deadline(&never), None);
    let hasty = PingConfig { timeout: 0, ..cfg };
    let mut u = PingSession::open(100, 1);
    u.state = PingState::AwaitingEcho;
    assert_eq!(u.next_deadline(&hasty), Some(0));
    u.sent_at = u64::MAX;
    assert_eq!(u.next_deadline(&cfg), None);
    assert_eq!(earlier(None, Some(3)), Some(3));
    assert_eq!(earlier(Some(4), None), Some(4));
    assert_eq!(earlier(Some(4), Some(3)), Some(3));
    assert_eq!(earlier(Some(3), Some(4)), Some(3));
    assert_eq!(earlier(None, None), None);
    assert_eq!(time_after(3, 4), Some(7));
    assert_eq!(time_after(u64::MAX, 1), None);
    assert_eq!(time_after(u64::MAX - 1, 1), Some(u64::MAX));
}

#[test]
fn probe_never_repeats_the_last_nonce() {
    let cfg = PingConfig::default();
    let mut s = PingSession::open(0, 7);
    assert_eq!(s.on_payload(&cfg, 1, &p(7)), Ok(1));
    assert_eq!(s.next_deadline(&cfg), Some(1));
    assert_eq!(s.on_tick(&cfg, 1, 7), Tick::Quiet);
    assert_eq!(s.state, PingState::Idle);
    assert_eq!(s.on_tick(&cfg, 1, 8), Tick::Probe { nonce: 8 });
    assert_eq!(s.on_payload(&cfg, 2, &p(7)), Err(ProtocolError::EchoMismatch));
    assert_eq!(s.state, PingState::AwaitingEcho);
    assert_eq!(s.on_payload(&cfg, 2, &p(8)), Ok(1));
}

#[test]
fn probe_after_a_timeout_carries_another_nonce() {
    let cfg = PingConfig { tolerant: true, ..PingConfig::default() };
    let mut s = PingSession::open(0, 7);
    assert_eq!(s.on_tick(&cfg, 20, 7), Tick::TimedOut { close: false });
    assert_eq!(s.on_tick(&cfg, 21, 7), Tick::Quiet);
    assert_eq!(s.state, PingState::Failed);
    assert_eq!(s.on_tick(&cfg, 22, 9), Tick::Probe { nonce: 9 });
    assert_eq!(s.on_payload(&cfg, 23, &p(7)), Err(ProtocolError::EchoMismatch));
}

#[test]
fn nonce_goes_over_the_wire_as_eight_bytes_lowest_first() {
    assert_eq!(encode_nonce(0x0102_0304_0506_0708), vec![8u8, 7, 6, 5, 4, 3, 2, 1]);
    assert_eq!(encode_nonce(0), vec![0u8; 8]);
    assert_eq!(encode_nonce(u64::MAX), vec![0xffu8; 8]);
    assert_eq!(encode_nonce(258), vec![2u8, 1, 0, 0, 0, 0, 0, 0]);
}

#[test]
fn payload_of_another_length_is_a_mismatch() {
    let cfg = PingConfig::default();
    let mut s = PingSession::open(0, 7);
    assert_eq!(s.on_payload(&cfg, 1, &[7]), Err(ProtocolError::EchoMismatch));
    assert_eq!(s.on_payload(&cfg, 1, &[]), Err(ProtocolError::EchoMismatch));
    assert_eq!(
        s.on_payload(&cfg, 1, &[7, 0, 0, 0, 0, 0, 0, 0, 0]),
        Err(ProtocolError::EchoMismatch)
    );
    assert_eq!(s.on_payload(&cfg, 1, &[0, 0, 0, 0, 0, 0, 0, 7]), Err(ProtocolError::EchoMismatch));
    assert_eq!(s.on_payload(&cfg, 1, &[7, 0, 0, 0, 0, 0, 0, 0]), Ok(1));
}

#[test]
fn echo_after_the_timeout_is_no_success() {
    let cfg = PingConfig::default();
    let mut s = PingSession::open(100, 7);
    assert_eq!(s.on_payload(&cfg, 200, &p(7)), Err(ProtocolError::EchoMismatch));
    assert_eq!(s.state, PingState::ProbeSent);
    assert_eq!(s.on_payload(&cfg, 120, &p(7)), Err(ProtocolError::EchoMismatch));
    assert_eq!(s.on_tick(&cfg, 120, 8), Tick::TimedOut { close: true });
    let mut t = PingSession::open(100, 7);
    assert_eq!(t.on_payload(&cfg, 119, &p(7)), Ok(19));
}

#[test]
fn with_no_timeout_at_all_every_echo_is_late() {
    let cfg = PingConfig { timeout: 0, ..PingConfig::default() };
    let mut s = PingSession::open(100, 7);
    assert_eq!(s.on_payload(&cfg, 100, &p(7)), Err(ProtocolError::EchoMismatch));
    assert_eq!(s.on_tick(&cfg, 100, 8), Tick::TimedOut { close: true });
}
