use cloudflare_speedtest_slave::ping::{
    latency_from_connect, probe_timeout_ms, ConnectOutcome, NOISE_FLOOR_MS,
};

#[test]
fn slow_enough_connect_is_a_latency() {
    let r = latency_from_connect(ConnectOutcome::Connected { elapsed_ms: 42 }, NOISE_FLOOR_MS);
    assert_eq!(r, Some(42));
    let r = latency_from_connect(ConnectOutcome::Connected { elapsed_ms: 11 }, NOISE_FLOOR_MS);
    assert_eq!(r, Some(11));
}

#[test]
fn connect_within_noise_floor_is_unreachable() {
    let r = latency_from_connect(ConnectOutcome::Connected { elapsed_ms: 10 }, NOISE_FLOOR_MS);
    assert_eq!(r, None);
    let r = latency_from_connect(ConnectOutcome::Connected { elapsed_ms: 0 }, NOISE_FLOOR_MS);
    assert_eq!(r, None);
}

#[test]
fn failures_and_timeouts_are_unreachable() {
    assert_eq!(latency_from_connect(ConnectOutcome::Failed, NOISE_FLOOR_MS), None);
    assert_eq!(latency_from_connect(ConnectOutcome::TimedOut, NOISE_FLOOR_MS), None);
}

#[test]
fn noise_floor_is_configurable() {
    let r = latency_from_connect(ConnectOutcome::Connected { elapsed_ms: 3 }, 0);
    assert_eq!(r, Some(3));
}

#[test]
fn timeout_follows_the_ceiling() {
    assert_eq!(probe_timeout_ms(300), 300);
    assert_eq!(probe_timeout_ms(0), 0);
    assert_eq!(probe_timeout_ms(-5), 0);
}
