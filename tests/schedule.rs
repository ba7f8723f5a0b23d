use cloudflare_speedtest_slave::schedule::{
    probe_order, Assignment, Phase, ProbeReport, ProbeScheduler, SchedulerAction,
};

fn assignment(ranges: &[&str], minimum_mbps: i32, maximum_ping: i32) -> Assignment {
    Assignment {
        ip_ranges: ranges.iter().map(|s| s.to_string()).collect(),
        speed_url: "https://speed.example.com/__down".to_string(),
        minimum_mbps,
        maximum_ping,
    }
}

fn probe_address(s: &ProbeScheduler) -> Option<(String, u64)> {
    match s.next_action() {
        SchedulerAction::ProbeBandwidth { address, latency_ms } => Some((address, latency_ms)),
        SchedulerAction::Report(_) => None,
    }
}

fn report(s: &ProbeScheduler) -> ProbeReport {
    match s.next_action() {
        SchedulerAction::Report(r) => r,
        SchedulerAction::ProbeBandwidth { address, .. } => panic!("still probing {}", address),
    }
}

#[test]
fn order_is_by_latency_then_position_and_drops_slow_ones() {
    let addrs: Vec<String> = (0..6).map(|i| format!("10.0.0.{}", i)).collect();
    let lat = vec![Some(50), None, Some(20), Some(300), Some(20), Some(299)];
    assert_eq!(probe_order(&addrs, &lat, 300), vec![(20, 2), (20, 4), (50, 0), (299, 5)]);
    assert_eq!(probe_order(&addrs, &lat, 0), vec![]);
    assert_eq!(probe_order(&addrs, &lat, -1), vec![]);
}

#[test]
fn repeated_address_is_a_candidate_once() {
    let addrs: Vec<String> =
        ["10.0.0.1", "10.0.0.2", "10.0.0.1", "10.0.0.3", "10.0.0.2"].iter().map(|s| s.to_string()).collect();
    let lat = vec![None, Some(70), Some(30), Some(40), Some(10)];
    // 10.0.0.1 enters at its first reachable position (2), 10.0.0.2 at position 1
    assert_eq!(probe_order(&addrs, &lat, 100), vec![(30, 2), (40, 3), (70, 1)]);
}

#[test]
fn overlapping_ranges_probe_each_address_once() {
    let mut s = ProbeScheduler::start(assignment(&["10.0.0.0/31", "10.0.0.1/32"], 1000, 200)).unwrap();
    assert_eq!(s.addresses, vec!["10.0.0.0", "10.0.0.1", "10.0.0.1"]);
    s.record_latency(0, None);
    s.record_latency(1, Some(50));
    s.record_latency(2, Some(20));
    s.finish_latency();
    let mut probed = Vec::new();
    while let Some((address, _)) = probe_address(&s) {
        probed.push(address);
        s.record_bandwidth(Some(1));
    }
    assert_eq!(probed, vec!["10.0.0.1"]);
    assert_eq!(report(&s).ip_address, "");
}

#[test]
fn start_expands_and_waits_for_latencies() {
    let s = ProbeScheduler::start(assignment(&["10.0.0.0/31", "10.0.1.0/32"], 10, 200)).unwrap();
    assert_eq!(s.addresses, vec!["10.0.0.0", "10.0.0.1", "10.0.1.0"]);
    assert_eq!(s.latencies, vec![None, None, None]);
    assert_eq!(s.phase, Phase::ProbingLatency);
    assert_eq!(s.speed_url, "https://speed.example.com/__down");
}

#[test]
fn malformed_range_abandons_the_assignment() {
    let e = ProbeScheduler::start(assignment(&["10.0.0.0/31", "10.0.0.0/40"], 10, 200)).unwrap_err();
    assert_eq!(e.index, 1);
}

#[test]
fn nothing_below_the_ceiling_reports_sentinels_without_probing() {
    let mut s = ProbeScheduler::start(assignment(&["10.0.0.0/30"], 10, 100)).unwrap();
    s.record_latency(0, Some(100));
    s.record_latency(1, None);
    s.record_latency(2, Some(250));
    s.record_latency(3, None);
    s.finish_latency();
    assert_eq!(s.phase, Phase::Done);
    assert!(probe_address(&s).is_none());
    let r = report(&s);
    assert_eq!(r.ip_address, "");
    assert_eq!(r.latency, -1);
    assert_eq!(r.speed, -1);
}

#[test]
fn first_qualifying_candidate_ends_the_probing() {
    let mut s = ProbeScheduler::start(assignment(&["10.0.0.0/30"], 50, 200)).unwrap();
    s.record_latency(0, Some(80));
    s.record_latency(1, Some(40));
    s.record_latency(2, Some(60));
    s.record_latency(3, None);
    s.finish_latency();
    let mut probes = 0;
    while let Some((address, _)) = probe_address(&s) {
        probes += 1;
        // the fake probe qualifies every candidate at 75 Mbps
        assert_eq!(address, "10.0.0.1");
        s.record_bandwidth(Some(75));
    }
    assert_eq!(probes, 1);
    let r = report(&s);
    assert_eq!(r.ip_address, "10.0.0.1");
    assert_eq!(r.latency, 40);
    assert_eq!(r.speed, 75);
}

#[test]
fn slow_candidates_are_skipped_in_latency_order() {
    let mut s = ProbeScheduler::start(assignment(&["10.0.0.0/30"], 50, 200)).unwrap();
    s.record_latency(0, Some(80));
    s.record_latency(1, Some(40));
    s.record_latency(2, Some(60));
    s.record_latency(3, None);
    s.finish_latency();
    let mut seen = Vec::new();
    let measured = [Some(10), None, Some(50)];
    while let Some((address, latency)) = probe_address(&s) {
        seen.push((address, latency));
        s.record_bandwidth(measured[seen.len() - 1]);
    }
    assert_eq!(
        seen,
        vec![
            ("10.0.0.1".to_string(), 40),
            ("10.0.0.2".to_string(), 60),
            ("10.0.0.0".to_string(), 80)
        ]
    );
    let r = report(&s);
    assert_eq!((r.ip_address.as_str(), r.latency, r.speed), ("10.0.0.0", 80, 50));
}

#[test]
fn exhausted_candidates_report_sentinels() {
    let mut s = ProbeScheduler::start(assignment(&["10.0.0.0/31"], 1000, 200)).unwrap();
    s.record_latency(0, Some(30));
    s.record_latency(1, Some(20));
    s.finish_latency();
    s.record_bandwidth(Some(999));
    s.record_bandwidth(None);
    assert_eq!(s.phase, Phase::Done);
    let r = report(&s);
    assert_eq!((r.ip_address.as_str(), r.latency, r.speed), ("", -1, -1));
}

#[test]
fn huge_throughput_saturates_in_the_report() {
    let mut s = ProbeScheduler::start(assignment(&["10.0.0.0/32"], 0, 200)).unwrap();
    s.record_latency(0, Some(30));
    s.finish_latency();
    s.record_bandwidth(Some(u64::MAX));
    assert_eq!(report(&s).speed, i32::MAX);
}

#[test]
fn none_found_report() {
    let r = ProbeReport::none_found();
    assert_eq!((r.ip_address.as_str(), r.latency, r.speed), ("", -1, -1));
}
