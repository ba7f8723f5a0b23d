use cloudflare_speedtest_slave::speed::{
    download_target, http_get_request, plan_download, throughput_mbps, BandwidthError,
    DownloadMeter, PROBE_BUDGET_SECS,
};

#[test]
fn one_megabyte_in_one_second_is_eight_mbps() {
    assert_eq!(throughput_mbps(1_000_000, 1_000_000), Some(8));
}

#[test]
fn nothing_read_is_a_failure() {
    assert_eq!(throughput_mbps(0, 1_000_000), None);
    assert_eq!(throughput_mbps(0, 0), None);
}

#[test]
fn zero_duration_uses_the_timing_floor() {
    assert_eq!(throughput_mbps(1, 0), Some(8));
    assert_eq!(throughput_mbps(1_000, 0), Some(8_000));
}

#[test]
fn throughput_rounds_to_nearest() {
    // 8 bits over 3 us is 2.67 Mbps
    assert_eq!(throughput_mbps(1, 3), Some(3));
    // 8 bits over 16 us is 0.5 Mbps
    assert_eq!(throughput_mbps(1, 16), Some(1));
    // 8 bits over 17 us is 0.47 Mbps
    assert_eq!(throughput_mbps(1, 17), Some(0));
    // 125 MB over 10 s is 100 Mbps
    assert_eq!(throughput_mbps(125_000_000, 10_000_000), Some(100));
}

#[test]
fn request_is_a_minimal_get() {
    assert_eq!(
        http_get_request("/__down", "speed.example.com"),
        "GET /__down HTTP/1.1\r\nHost: speed.example.com\r\nConnection: close\r\n\r\n"
    );
}

#[test]
fn plan_uses_domain_default_port_and_path() {
    let t = plan_download("https://speed.example.com/__down?bytes=200000000").unwrap();
    assert_eq!(t.host, "speed.example.com");
    assert_eq!(t.port, 443);
    assert_eq!(t.path, "/__down");
    assert_eq!(
        t.request,
        "GET /__down HTTP/1.1\r\nHost: speed.example.com\r\nConnection: close\r\n\r\n"
    );
}

#[test]
fn plan_keeps_explicit_port() {
    let t = plan_download("https://speed.example.com:8443/file.bin").unwrap();
    assert_eq!(t.port, 8443);
    assert_eq!(t.path, "/file.bin");
}

#[test]
fn plan_refuses_bad_url_and_ip_host() {
    assert_eq!(plan_download("not a url").unwrap_err(), BandwidthError::BadUrl);
    assert_eq!(plan_download("https://1.2.3.4/x").unwrap_err(), BandwidthError::NoDomain);
    assert_eq!(plan_download("").unwrap_err(), BandwidthError::BadUrl);
    assert_eq!(plan_download("/relative/path").unwrap_err(), BandwidthError::BadUrl);
}

#[test]
fn target_from_parts() {
    assert_eq!(download_target(None, None, "/").unwrap_err(), BandwidthError::NoDomain);
    let t = download_target(Some("a.example"), Some(444), "/p").unwrap();
    assert_eq!(t.host, "a.example");
    assert_eq!(t.port, 444);
    assert_eq!(t.request, "GET /p HTTP/1.1\r\nHost: a.example\r\nConnection: close\r\n\r\n");
}

#[test]
fn meter_stops_at_end_of_stream() {
    let mut m = DownloadMeter::new(PROBE_BUDGET_SECS);
    assert_eq!(m.budget_us, 10_000_000);
    assert!(m.on_read(500_000, 400_000));
    assert!(!m.on_read(0, 500_000));
    assert_eq!(m.bytes, 500_000);
    assert!(m.finished);
    assert_eq!(m.throughput(500_000), Ok(8));
}

#[test]
fn meter_stops_when_budget_is_spent() {
    let mut m = DownloadMeter::new(1);
    assert!(m.on_read(600_000, 999_999));
    assert!(!m.on_read(400_000, 1_000_000));
    assert_eq!(m.bytes, 1_000_000);
    assert_eq!(m.throughput(1_000_000), Ok(8));
}

#[test]
fn meter_with_nothing_read_fails() {
    let mut m = DownloadMeter::new(1);
    assert!(!m.on_read(0, 10));
    assert_eq!(m.throughput(10), Err(BandwidthError::Empty));
}
