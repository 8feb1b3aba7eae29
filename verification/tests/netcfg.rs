use eos_control::netcfg::{
    dhcp_prepare, dhcpd_result, files_to_scheme, lease_writes, mirror_plan, parse_args,
    static_plan, write_failed, Action, ArgsError, Cfg, Write,
};
use eos_control::sys::ShimOutcome;

fn args(a: &[&str]) -> Vec<String> {
    a.iter().map(|s| s.to_string()).collect()
}

fn triples(ws: &[Write]) -> Vec<(String, String, Option<String>)> {
    ws.iter().map(|w| (w.path.clone(), w.data.clone(), w.fail_label.clone())).collect()
}

fn t(p: &str, d: &str, l: Option<&str>) -> (String, String, Option<String>) {
    (p.to_string(), d.to_string(), l.map(|s| s.to_string()))
}

#[test]
fn command_shapes() {
    assert!(matches!(parse_args(&args(&["boot"])), Ok(Action::Boot)));
    match parse_args(&args(&["dhcp", "eth0"])) {
        Ok(Action::Dhcp { iface }) => assert_eq!(iface, "eth0"),
        other => panic!("unexpected {other:?}"),
    }
    match parse_args(&args(&["static", "eth0", "10.0.2.30", "24", "10.0.2.2", "-"])) {
        Ok(Action::Static(c)) => {
            assert_eq!(c.iface, "eth0");
            assert_eq!(c.ip, (10, 0, 2, 30));
            assert_eq!(c.prefix, 24);
            assert_eq!(c.gateway, Some((10, 0, 2, 2)));
            assert_eq!(c.dns, None);
        }
        other => panic!("unexpected {other:?}"),
    }
    assert!(matches!(parse_args(&args(&[])), Err(ArgsError::Usage)));
    assert!(matches!(parse_args(&args(&["boot", "x"])), Err(ArgsError::Usage)));
    assert!(matches!(parse_args(&args(&["static", "eth0"])), Err(ArgsError::Usage)));
    assert!(matches!(parse_args(&args(&["reboot"])), Err(ArgsError::Usage)));
}

fn invalid(a: &[&str]) -> String {
    match parse_args(&args(a)) {
        Err(ArgsError::Invalid(m)) => m,
        other => panic!("unexpected {other:?}"),
    }
}

#[test]
fn invalid_fields_are_named() {
    assert_eq!(invalid(&["dhcp", "eth/0"]), "nieprawidłowa nazwa interfejsu: eth/0");
    assert_eq!(
        invalid(&["static", "eth0", "10.0.2", "24", "-", "-"]),
        "nieprawidłowy adres IP: 10.0.2"
    );
    assert_eq!(
        invalid(&["static", "eth0", " 10.0.2.1", "24", "-", "-"]),
        "nieprawidłowy adres IP:  10.0.2.1"
    );
    assert_eq!(
        invalid(&["static", "eth0", "10.0.2.1", "33", "-", "-"]),
        "prefiks poza zakresem 0–32: 33"
    );
    assert_eq!(
        invalid(&["static", "eth0", "10.0.2.1", "x", "-", "-"]),
        "prefiks poza zakresem 0–32: x"
    );
    assert_eq!(
        invalid(&["static", "eth0", "10.0.2.1", "24", "gw", "dns"]),
        "nieprawidłowy adres bramy: gw"
    );
    assert_eq!(
        invalid(&["static", "eth0", "10.0.2.1", "24", "-", "dns"]),
        "nieprawidłowy adres DNS: dns"
    );
}

#[test]
fn static_configuration_writes() {
    let cfg = Cfg {
        iface: "eth0".into(),
        ip: (10, 0, 2, 30),
        prefix: 24,
        gateway: Some((10, 0, 2, 2)),
        dns: Some((1, 1, 1, 1)),
    };
    assert_eq!(
        triples(&static_plan(&cfg)),
        vec![
            t("/etc/net/mode", "static\n", Some("/etc/net/mode")),
            t(
                "/scheme/netcfg/ifaces/eth0/addr/set",
                "10.0.2.30/24\n",
                Some("/scheme/netcfg/ifaces/eth0/addr/set")
            ),
            t("/scheme/netcfg/route/rm", "0.0.0.0/0\n", None),
            t("/scheme/netcfg/route/add", "default via 10.0.2.2\n", Some("route/add")),
            t("/scheme/netcfg/resolv/nameserver", "1.1.1.1\n", Some("resolv/nameserver")),
            t("/etc/net/ip", "10.0.2.30\n", None),
            t("/etc/net/ip_subnet", "255.255.255.0\n", None),
            t("/etc/net/ip_router", "10.0.2.2\n", None),
            t("/etc/net/dns", "1.1.1.1\n", None),
        ]
    );
    let cfg = Cfg { iface: "eth1".into(), ip: (192, 168, 1, 5), prefix: 16, gateway: None, dns: None };
    assert_eq!(
        triples(&static_plan(&cfg)),
        vec![
            t("/etc/net/mode", "static\n", Some("/etc/net/mode")),
            t(
                "/scheme/netcfg/ifaces/eth1/addr/set",
                "192.168.1.5/16\n",
                Some("/scheme/netcfg/ifaces/eth1/addr/set")
            ),
            t("/etc/net/ip", "192.168.1.5\n", None),
            t("/etc/net/ip_subnet", "255.255.0.0\n", None),
        ]
    );
}

#[test]
fn boot_pushes_persisted_files() {
    let ws = files_to_scheme(&"eth0".to_string(), "10.0.2.30\n", "255.255.255.0\n", "10.0.2.2\n", "")
        .unwrap();
    assert_eq!(
        triples(&ws),
        vec![
            t(
                "/scheme/netcfg/ifaces/eth0/addr/set",
                "10.0.2.30/24\n",
                Some("/scheme/netcfg/ifaces/eth0/addr/set")
            ),
            t("/scheme/netcfg/route/rm", "0.0.0.0/0\n", None),
            t("/scheme/netcfg/route/add", "default via 10.0.2.2\n", Some("route/add")),
        ]
    );
    let ws = files_to_scheme(&"eth0".to_string(), "10.0.2.30", "weird", "", "9.9.9.9").unwrap();
    assert_eq!(ws[0].data, "10.0.2.30/24\n");
    assert_eq!(ws[1].data, "9.9.9.9\n");
    let ws = files_to_scheme(&"eth0".to_string(), "10.0.2.30", "255.255.0.0", "", "").unwrap();
    assert_eq!(ws[0].data, "10.0.2.30/16\n");
    assert_eq!(
        files_to_scheme(&"eth0".to_string(), " \n", "", "", "").unwrap_err(),
        "/etc/net/ip jest puste — brak konfiguracji statycznej"
    );
}

#[test]
fn mirroring_the_live_stack() {
    let (ip, ws) = mirror_plan(
        Some("10.0.2.15/24\n"),
        Some("default via 10.0.2.2 dev eth0"),
        Some("10.0.2.3"),
    )
    .unwrap();
    assert_eq!(ip, "10.0.2.15");
    assert_eq!(
        triples(&ws),
        vec![
            t("/etc/net/ip", "10.0.2.15\n", None),
            t("/etc/net/ip_subnet", "255.255.255.0\n", None),
            t("/etc/net/ip_router", "10.0.2.2\n", None),
            t("/etc/net/dns", "10.0.2.3\n", None),
        ]
    );
    assert!(mirror_plan(Some("Not configured"), None, None).is_none());
    assert!(mirror_plan(None, Some("default via 1.2.3.4"), None).is_none());
    let ws = lease_writes(Some("10.0.2.15/24"), None, Some("Not configured")).unwrap();
    assert_eq!(ws.len(), 2);
    assert_eq!(
        lease_writes(None, None, None).unwrap_err(),
        "DHCP: dzierżawa nie przyniosła adresu"
    );
}

#[test]
fn dhcp_preparation_and_client_result() {
    assert_eq!(
        triples(&dhcp_prepare()),
        vec![
            t("/etc/net/mode", "dhcp\n", Some("/etc/net/mode")),
            t("/scheme/netcfg/route/rm", "0.0.0.0/0\n", None),
        ]
    );
    assert_eq!(dhcpd_result(ShimOutcome::Exited(true)), Ok(()));
    assert_eq!(
        dhcpd_result(ShimOutcome::Exited(false)),
        Err("DHCP: serwer nie odpowiedział (dhcpd)".to_string())
    );
    assert_eq!(
        dhcpd_result(ShimOutcome::SpawnFailed("no such file".into())),
        Err("nie można uruchomić dhcpd: no such file".to_string())
    );
    assert_eq!(
        dhcpd_result(ShimOutcome::WaitFailed("EINTR".into())),
        Err("dhcpd: EINTR".to_string())
    );
}

#[test]
fn static_apply_is_replayed_at_boot() {
    let cfg = Cfg {
        iface: "eth0".to_string(),
        ip: (192, 168, 1, 40),
        prefix: 20,
        gateway: Some((192, 168, 1, 1)),
        dns: Some((1, 1, 1, 1)),
    };
    let applied = triples(&static_plan(&cfg));
    let file = |p: &str| applied.iter().find(|w| w.0 == p).map(|w| w.1.clone()).unwrap();
    assert_eq!(file("/etc/net/ip").trim(), "192.168.1.40");
    assert_eq!(file("/etc/net/ip_subnet").trim(), "255.255.240.0");
    assert_eq!(file("/etc/net/ip_router").trim(), "192.168.1.1");
    assert_eq!(file("/etc/net/dns").trim(), "1.1.1.1");
    let boot = files_to_scheme(
        &"eth0".to_string(),
        &file("/etc/net/ip"),
        &file("/etc/net/ip_subnet"),
        &file("/etc/net/ip_router"),
        &file("/etc/net/dns"),
    )
    .unwrap();
    let live: Vec<_> = applied[1..applied.len() - 4].to_vec();
    assert_eq!(triples(&boot), live);
}

#[test]
fn mirrored_files_read_back_as_the_live_values() {
    let (ip, ws) = mirror_plan(
        Some("10.0.2.15/24\n"),
        Some("10.0.2.0/24 dev eth0\ndefault  via 10.0.2.2 dev eth0 src 10.0.2.15\n"),
        Some(" 9.9.9.9 \n"),
    )
    .unwrap();
    assert_eq!(ip, "10.0.2.15");
    let shown: Vec<(String, String)> =
        ws.iter().map(|w| (w.path.clone(), w.data.trim().to_string())).collect();
    assert_eq!(
        shown,
        vec![
            ("/etc/net/ip".to_string(), "10.0.2.15".to_string()),
            ("/etc/net/ip_subnet".to_string(), "255.255.255.0".to_string()),
            ("/etc/net/ip_router".to_string(), "10.0.2.2".to_string()),
            ("/etc/net/dns".to_string(), "9.9.9.9".to_string()),
        ]
    );
}

#[test]
fn failed_writes_stop_only_required_steps() {
    let req = Write {
        path: "/scheme/netcfg/route/add".to_string(),
        data: "default via 10.0.2.2\n".to_string(),
        fail_label: Some("route/add".to_string()),
    };
    assert_eq!(write_failed(&req, "EACCES"), Some("route/add: EACCES".to_string()));
    let best = Write { path: "/etc/net/ip".to_string(), data: "x\n".to_string(), fail_label: None };
    assert_eq!(write_failed(&best, "EACCES"), None);
}

#[test]
fn helper_accepts_the_network_forms_command() {
    let c = eos_control::sys::apply_static(" eth0 ", " 10.0.2.30 ", 24, "10.0.2.2", "", "pw").unwrap();
    match parse_args(&c.args) {
        Ok(Action::Static(cfg)) => {
            assert_eq!(cfg.iface, "eth0");
            assert_eq!(cfg.ip, (10, 0, 2, 30));
            assert_eq!(cfg.prefix, 24);
            assert_eq!(cfg.gateway, Some((10, 0, 2, 2)));
            assert_eq!(cfg.dns, None);
        }
        other => panic!("unexpected {other:?}"),
    }
}
