use cloudflare_speedtest_slave::install::service_unit;
use cloudflare_speedtest_slave::session::BootstrapRequest;
use cloudflare_speedtest_slave::upgrade::upgrade_download_url;
use cloudflare_speedtest_slave::{return_default_bootstrap_token, return_default_server, Args, S};

fn args(debug: bool, max_mbps: i32) -> Args {
    Args {
        server: "backend.example.com:2333".to_string(),
        token: "tok".to_string(),
        max_mbps,
        debug,
        install: true,
        disable_auto_upgrade: false,
    }
}

#[test]
fn defaults() {
    assert_eq!(return_default_server(), "47.238.130.86:2333");
    assert_eq!(return_default_bootstrap_token(), "cfst1234");
}

#[test]
fn coordinator_accepts_one_bootstrap() {
    let mut s = S::new("0.3.1".to_string());
    let req = |v: &str| BootstrapRequest {
        maximum_mbps: 100,
        client_version: v.to_string(),
        bootstrap_token: "secret".to_string(),
        node_id: "n".to_string(),
    };
    let r = s.bootstrap(req("0.3.0"));
    assert!(r.success);
    assert!(r.should_upgrade);
    assert_eq!(r.message, "Done");
    assert_eq!(r.session_token, "secret");
    let r = s.bootstrap(req("0.3.1"));
    assert!(!r.success);
    assert_eq!(r.message, "You have already bootstrapped");
    assert_eq!(r.session_token, "");
    let mut s = S::new("0.3.1".to_string());
    assert!(!s.bootstrap(req("0.3.1")).should_upgrade);
    assert_eq!(s.speedtest().ip_ranges.len(), 0);
    assert!(!s.upgrade().success);
}

#[test]
fn upgrade_url_names_the_platform() {
    assert_eq!(
        upgrade_download_url("https://dl.example.com/agent", "linux", "x86_64"),
        "https://dl.example.com/agent-linux-x86_64"
    );
}

#[test]
fn service_unit_text() {
    let u = service_unit(&args(false, 500));
    assert!(u.starts_with("[Unit]\nDescription=Cloudflare Speedtest Slave\n"));
    assert!(u.contains(
        "ExecStart=/usr/bin/CloudflareSpeedtest-Slave -s backend.example.com:2333 -t tok -m 500\nRestart=always\n"
    ));
    let u = service_unit(&args(true, -7));
    assert!(u.contains("-t tok -m -7 --debug\nRestart=always\n"));
}

#[test]
fn session_config_from_args() {
    let c = args(false, 321).session_config("1.0.0".to_string());
    assert_eq!(c.max_mbps, 321);
    assert_eq!(c.client_version, "1.0.0");
    assert_eq!(c.bootstrap_token, "tok");
    assert!(c.auto_upgrade);
}
