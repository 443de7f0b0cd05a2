use deepdash::network::{
    ipv4_to_text, is_private_lan_address, is_private_lan_ip, lan_discovery_failed, lan_hosts, parse_ipv4_text,
    selected_lan_host, InterfaceAddress,
};
use deepdash::models::LanHost;

#[test]
fn accepts_private_ipv4_addresses() {
    assert!(is_private_lan_address("192.168.2.9"));
    assert!(is_private_lan_address("10.0.0.12"));
    assert!(is_private_lan_address("172.16.0.1"));
}

#[test]
fn rejects_public_and_special_addresses() {
    assert!(!is_private_lan_address("127.0.0.1"));
    assert!(!is_private_lan_address("0.0.0.0"));
    assert!(!is_private_lan_address("8.8.8.8"));
    assert!(!is_private_lan_address("169.254.1.2"));
}

#[test]
fn parses_dotted_decimal_like_std() {
    assert_eq!(parse_ipv4_text("0.0.0.0"), Some((0, 0, 0, 0)));
    assert_eq!(parse_ipv4_text("255.255.255.255"), Some((255, 255, 255, 255)));
    assert_eq!(parse_ipv4_text("192.168.2.9"), Some((192, 168, 2, 9)));
    assert_eq!(parse_ipv4_text("1.22.133.4"), Some((1, 22, 133, 4)));
    for text in ["", "1.2.3", "1.2.3.4.5", "256.1.1.1", "01.2.3.4", "1..2.3", "1.2.3.4.", "a.b.c.d", " 1.2.3.4", "1.2.3.1000"] {
        assert_eq!(parse_ipv4_text(text), None, "{text}");
    }
    assert!(!is_private_lan_address("192.168.001.1"));
    assert!(!is_private_lan_address("172.32.0.1"));
    assert!(is_private_lan_address("172.31.255.254"));
}

#[test]
fn private_lan_excludes_special_ranges() {
    assert!(is_private_lan_ip((192, 168, 0, 1)));
    assert!(!is_private_lan_ip((192, 169, 0, 1)));
    assert!(!is_private_lan_ip((224, 0, 0, 1)));
    assert!(!is_private_lan_ip((255, 255, 255, 255)));
    assert!(!is_private_lan_ip((172, 15, 0, 1)));
    assert_eq!(ipv4_to_text((192, 168, 0, 10)), "192.168.0.10");
    assert_eq!(ipv4_to_text((0, 0, 0, 0)), "0.0.0.0");
}

fn iface(name: &str, ip: Option<(u8, u8, u8, u8)>) -> InterfaceAddress {
    InterfaceAddress { name: name.to_string(), ipv4: ip }
}

#[test]
fn lists_private_hosts_sorted_without_repeats() {
    let hosts = lan_hosts(vec![
        iface("wlan", Some((192, 168, 2, 9))),
        iface("eth", Some((10, 0, 0, 12))),
        iface("lo", Some((127, 0, 0, 1))),
        iface("eth", Some((8, 8, 8, 8))),
        iface("v6", None),
        iface("eth", Some((10, 0, 0, 2))),
        iface("eth", Some((10, 0, 0, 2))),
        iface("alpha", Some((172, 16, 0, 1))),
    ]);
    let pairs: Vec<(String, String)> = hosts.into_iter().map(|h| (h.name, h.address)).collect();
    assert_eq!(
        pairs,
        vec![
            ("alpha".to_string(), "172.16.0.1".to_string()),
            ("eth".to_string(), "10.0.0.12".to_string()),
            ("eth".to_string(), "10.0.0.2".to_string()),
            ("wlan".to_string(), "192.168.2.9".to_string()),
        ]
    );
    assert!(lan_hosts(vec![]).is_empty());
}

#[test]
fn dedup_only_drops_adjacent_repeated_addresses() {
    let hosts = lan_hosts(vec![
        iface("b", Some((10, 0, 0, 1))),
        iface("a", Some((10, 0, 0, 1))),
        iface("c", Some((10, 0, 0, 2))),
    ]);
    let names: Vec<String> = hosts.into_iter().map(|h| h.name).collect();
    assert_eq!(names, vec!["a".to_string(), "c".to_string()]);
}

#[test]
fn selects_an_offered_host_or_fails() {
    let hosts = vec![
        LanHost { name: "eth".to_string(), address: "10.0.0.12".to_string() },
        LanHost { name: "wlan".to_string(), address: "192.168.2.9".to_string() },
    ];
    let host = selected_lan_host("192.168.2.9", hosts.clone()).unwrap();
    assert_eq!(host.name, "wlan");
    let error = selected_lan_host("192.168.2.10", hosts).unwrap_err();
    assert_eq!(error.kind, "lanHostUnavailable");
    assert_eq!(error.message, "所选局域网地址当前不可用。");
    assert_eq!(error.action.as_deref(), Some("确认电脑已连接到可信 Wi-Fi，然后重新选择地址并重启 DSH。"));
    let error = lan_discovery_failed("no interfaces");
    assert_eq!(error.kind, "lanDiscoveryFailed");
    assert_eq!(error.detail.as_deref(), Some("no interfaces"));
}

#[test]
fn address_text_parses_back() {
    for ip in [(0, 0, 0, 0), (10, 0, 0, 12), (172, 31, 255, 9), (192, 168, 100, 200), (255, 255, 255, 255), (1, 10, 100, 99)] {
        assert_eq!(parse_ipv4_text(&ipv4_to_text(ip)), Some(ip));
    }
}

#[test]
fn offered_addresses_pass_the_check() {
    let hosts = lan_hosts(vec![
        iface("eth0", Some((192, 168, 0, 7))),
        iface("wlan", Some((10, 1, 2, 3))),
        iface("lo", Some((127, 0, 0, 1))),
    ]);
    assert_eq!(hosts.len(), 2);
    for host in &hosts {
        assert!(is_private_lan_address(&host.address));
    }
}
