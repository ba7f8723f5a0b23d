use cloudflare_speedtest_slave::expand::{expand_block, MalformedRangeError, NetBlock};
use cloudflare_speedtest_slave::ip_cidr_to_ips;

fn strings(v: &[&str]) -> Vec<String> {
    v.iter().map(|s| s.to_string()).collect()
}

#[test]
fn slash_30_yields_four_addresses_with_network_and_broadcast() {
    let r = ip_cidr_to_ips(strings(&["192.168.1.0/30"])).unwrap();
    assert_eq!(r, strings(&["192.168.1.0", "192.168.1.1", "192.168.1.2", "192.168.1.3"]));
}

#[test]
fn unaligned_address_expands_its_whole_block() {
    let r = ip_cidr_to_ips(strings(&["10.0.0.5/30"])).unwrap();
    assert_eq!(r, strings(&["10.0.0.4", "10.0.0.5", "10.0.0.6", "10.0.0.7"]));
}

#[test]
fn slash_32_and_bare_address_yield_one() {
    assert_eq!(ip_cidr_to_ips(strings(&["1.2.3.4/32"])).unwrap(), strings(&["1.2.3.4"]));
    assert_eq!(ip_cidr_to_ips(strings(&["1.2.3.4"])).unwrap(), strings(&["1.2.3.4"]));
}

#[test]
fn slash_24_count_and_ends() {
    let r = ip_cidr_to_ips(strings(&["104.16.0.0/24"])).unwrap();
    assert_eq!(r.len(), 256);
    assert_eq!(r[0], "104.16.0.0");
    assert_eq!(r[255], "104.16.0.255");
    let mut sorted = r.clone();
    sorted.dedup();
    assert_eq!(sorted.len(), 256);
}

#[test]
fn ranges_keep_order_and_repeats() {
    let r = ip_cidr_to_ips(strings(&["10.0.0.2/31", "10.0.0.0/31", "10.0.0.2/32"])).unwrap();
    assert_eq!(r, strings(&["10.0.0.2", "10.0.0.3", "10.0.0.0", "10.0.0.1", "10.0.0.2"]));
}

#[test]
fn ipv6_block_expands() {
    let r = ip_cidr_to_ips(strings(&["2001:db8::/126"])).unwrap();
    assert_eq!(r, strings(&["2001:db8::", "2001:db8::1", "2001:db8::2", "2001:db8::3"]));
}

#[test]
fn empty_list_expands_to_nothing() {
    assert_eq!(ip_cidr_to_ips(Vec::new()).unwrap(), Vec::<String>::new());
}

#[test]
fn malformed_entry_fails_without_partial_output() {
    let r = ip_cidr_to_ips(strings(&["10.0.0.0/30", "not-a-range", "10.0.1.0/30"]));
    match r {
        Err(MalformedRangeError { index, entry }) => {
            assert_eq!(index, 1);
            assert_eq!(entry, "not-a-range");
        }
        Ok(v) => panic!("expected an error, got {:?}", v),
    }
}

#[test]
fn prefix_too_long_is_malformed() {
    let e = ip_cidr_to_ips(strings(&["10.0.0.0/33"])).unwrap_err();
    assert_eq!(e.index, 0);
    let e = ip_cidr_to_ips(strings(&["2001:db8::/129"])).unwrap_err();
    assert_eq!(e.index, 0);
    let e = ip_cidr_to_ips(strings(&["10.0.0.0/8/8"])).unwrap_err();
    assert_eq!(e.entry, "10.0.0.0/8/8");
}

#[test]
fn high_octets_print_in_full() {
    let r = ip_cidr_to_ips(strings(&["255.255.255.254/31"])).unwrap();
    assert_eq!(r, strings(&["255.255.255.254", "255.255.255.255"]));
}

#[test]
fn block_expands_on_its_own() {
    let r = expand_block(&NetBlock::V4 { addr: 0x0A00_0001, prefix: 31 });
    assert_eq!(r, strings(&["10.0.0.0", "10.0.0.1"]));
    let r = expand_block(&NetBlock::V6 { addr: 1, prefix: 128 });
    assert_eq!(r, strings(&["::1"]));
}
