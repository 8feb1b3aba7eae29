use eos_control::netcore::{
    netcfg_value, netmask_to_prefix, parse_addr_list, parse_default_gateway, parse_net_mode,
    prefix_to_netmask, valid_iface, valid_ipv4, valid_prefix, NetMode, NET_MODE_PATH,
};

#[test]
fn addr_list_parses_cidr() {
    assert_eq!(parse_addr_list("10.0.2.15/24"), Some(("10.0.2.15".to_string(), 24)));
    assert_eq!(parse_addr_list("  10.0.2.15 / 24 \n"), Some(("10.0.2.15".to_string(), 24)));
    assert_eq!(parse_addr_list("192.168.1.7/+8"), Some(("192.168.1.7".to_string(), 8)));
    assert_eq!(parse_addr_list("0.0.0.0/0"), Some(("0.0.0.0".to_string(), 0)));
}

#[test]
fn addr_list_rejects_non_cidr() {
    assert_eq!(parse_addr_list("Not configured"), None);
    assert_eq!(parse_addr_list("Device not found"), None);
    assert_eq!(parse_addr_list(""), None);
    assert_eq!(parse_addr_list("10.0.2.15"), None);
    assert_eq!(parse_addr_list("10.0.2.15/33"), None);
    assert_eq!(parse_addr_list("10.0.2.15/256"), None);
    assert_eq!(parse_addr_list("10.0.2.015/24"), None);
    assert_eq!(parse_addr_list("10.0.2/24"), None);
    assert_eq!(parse_addr_list("10.0.2.15/-1"), None);
    assert_eq!(parse_addr_list("10.0.2.15/24/8"), None);
}

#[test]
fn prefix_to_netmask_values() {
    assert_eq!(prefix_to_netmask(24), "255.255.255.0");
    assert_eq!(prefix_to_netmask(0), "0.0.0.0");
    assert_eq!(prefix_to_netmask(1), "128.0.0.0");
    assert_eq!(prefix_to_netmask(20), "255.255.240.0");
    assert_eq!(prefix_to_netmask(32), "255.255.255.255");
    assert_eq!(prefix_to_netmask(40), "255.255.255.255");
}

#[test]
fn netmask_to_prefix_values() {
    assert_eq!(netmask_to_prefix("255.255.255.0"), Some(24));
    assert_eq!(netmask_to_prefix(" 255.255.240.0 \n"), Some(20));
    assert_eq!(netmask_to_prefix("0.0.0.0"), Some(0));
    assert_eq!(netmask_to_prefix("255.255.255.255"), Some(32));
    assert_eq!(netmask_to_prefix("255.0.255.0"), None);
    assert_eq!(netmask_to_prefix("255.255.255.1"), None);
    assert_eq!(netmask_to_prefix("garbage"), None);
    assert_eq!(netmask_to_prefix(""), None);
}

#[test]
fn netmask_prefix_roundtrip_every_length() {
    for p in 0u8..=32 {
        assert_eq!(netmask_to_prefix(&prefix_to_netmask(p)), Some(p));
    }
}

#[test]
fn ipv4_validity() {
    assert!(valid_ipv4("1.2.3.4"));
    assert!(valid_ipv4(" 10.0.2.2\t"));
    assert!(valid_ipv4("255.255.255.255"));
    assert!(!valid_ipv4("1.2.3"));
    assert!(!valid_ipv4("1.2.3.4.5"));
    assert!(!valid_ipv4("256.1.1.1"));
    assert!(!valid_ipv4("01.2.3.4"));
    assert!(!valid_ipv4("1..3.4"));
    assert!(!valid_ipv4("1.2.3.+4"));
    assert!(!valid_ipv4(""));
    assert!(!valid_ipv4("1234.1.1.1"));
}

#[test]
fn prefix_validity() {
    assert!(valid_prefix(0));
    assert!(valid_prefix(32));
    assert!(!valid_prefix(-1));
    assert!(!valid_prefix(33));
}

#[test]
fn iface_validity() {
    assert!(valid_iface("eth0"));
    assert!(valid_iface("wlan_1-x"));
    assert!(!valid_iface("  wlan_1-x "));
    assert!(valid_iface("abcdefghijklmno"));
    assert!(!valid_iface("abcdefghijklmnop"));
    assert!(!valid_iface(""));
    assert!(!valid_iface("   "));
    assert!(!valid_iface("eth0/../x"));
    assert!(!valid_iface("eth 0"));
    assert!(!valid_iface("eth.0"));
    assert!(!valid_iface("éth0"));
}

#[test]
fn default_gateway_from_route_list() {
    let routes = "default  via 10.0.2.2 dev eth0 src 10.0.2.15\n10.0.2.0/24 dev eth0 src 10.0.2.15\n";
    assert_eq!(parse_default_gateway(routes), Some("10.0.2.2".to_string()));
    assert_eq!(parse_default_gateway("10.0.2.0/24 dev eth0\n"), None);
    assert_eq!(parse_default_gateway(""), None);
    assert_eq!(
        parse_default_gateway("default dev eth0\n  default via 1.1.1.1\r\n"),
        Some("1.1.1.1".to_string())
    );
    assert_eq!(parse_default_gateway("default dev eth0 via\ndefault via 9.9.9.9"), None);
    assert_eq!(parse_default_gateway("defaulted via 5.5.5.5"), Some("5.5.5.5".to_string()));
}

#[test]
fn net_mode_parsing() {
    assert_eq!(parse_net_mode("static"), NetMode::Static);
    assert_eq!(parse_net_mode(" STATIC \n"), NetMode::Static);
    assert_eq!(parse_net_mode("Static"), NetMode::Static);
    assert_eq!(parse_net_mode("dhcp"), NetMode::Dhcp);
    assert_eq!(parse_net_mode(""), NetMode::Dhcp);
    assert_eq!(parse_net_mode("statics"), NetMode::Dhcp);
    assert_eq!(parse_net_mode("garbled\u{0}"), NetMode::Dhcp);
}

#[test]
fn net_mode_tokens_and_labels() {
    assert_eq!(NetMode::Dhcp.as_str(), "dhcp");
    assert_eq!(NetMode::Static.as_str(), "static");
    assert_eq!(NetMode::Dhcp.label(), "Automatyczna (DHCP)");
    assert_eq!(NetMode::Static.label(), "Statyczna");
    assert_eq!(NetMode::default(), NetMode::Dhcp);
    assert_eq!(NET_MODE_PATH, "/etc/net/mode");
}

#[test]
fn net_mode_marker_roundtrip() {
    for m in [NetMode::Dhcp, NetMode::Static] {
        assert_eq!(parse_net_mode(m.as_str()), m);
        assert_eq!(parse_net_mode(&format!("{}\n", m.as_str())), m);
    }
}

#[test]
fn netcfg_placeholders_are_none() {
    assert_eq!(netcfg_value("  10.0.2.15\n"), Some("10.0.2.15".to_string()));
    assert_eq!(netcfg_value("Not configured\n"), None);
    assert_eq!(netcfg_value("Device not found"), None);
    assert_eq!(netcfg_value(" \n"), None);
    assert_eq!(netcfg_value("Not configured yet"), Some("Not configured yet".to_string()));
}

#[test]
fn interface_names_cannot_leave_their_node() {
    assert!(!valid_iface(".."));
    assert!(!valid_iface("../../sys"));
    assert!(!valid_iface("eth0/addr"));
    assert!(!valid_iface("eth.0"));
    assert!(!valid_iface(" eth0 "));
    assert!(!valid_iface("eth0\n"));
    assert!(!valid_iface("eth0:1"));
    assert!(valid_iface("wlan_1-a"));
}
