use eos_control::sys::{
    apply_static, audio_from_read, clamp_volume, cpus_from, iface_node, net_from, net_iface,
    overview_from, parse_volume, power_action, reboot, shim_result, shutdown, size_parts, stat_counters,
    stdin_password, storage_from, system_from_uname, volume_payload, Proc, ShimOutcome, Storage,
};

fn proc(pid: &str, name: &str, mem: u64) -> Proc {
    Proc {
        pid: pid.into(),
        name: name.into(),
        label: String::new(),
        owner: String::new(),
        status: String::new(),
        cpu_time: String::new(),
        memory: String::new(),
        mem_bytes: mem,
        resources: Vec::new(),
    }
}

#[test]
fn storage_from_block_figures() {
    let s = storage_from(4096, 100, 25);
    assert_eq!((s.total_bytes, s.free_bytes, s.used_bytes), (409600, 102400, 307200));
    let s = storage_from(u64::MAX, 2, 1);
    assert_eq!((s.total_bytes, s.free_bytes, s.used_bytes), (u64::MAX, u64::MAX, 0));
    let s = storage_from(512, 1, 4);
    assert_eq!((s.total_bytes, s.free_bytes, s.used_bytes), (512, 2048, 0));
    let d = Storage::default();
    assert_eq!(d.total_bytes, 0);
}

#[test]
fn volume_clamp_and_parse() {
    assert_eq!(clamp_volume(-5), 0);
    assert_eq!(clamp_volume(50), 50);
    assert_eq!(clamp_volume(101), 100);
    assert_eq!(parse_volume(" 42\n"), Some(42));
    assert_eq!(parse_volume("150"), Some(100));
    assert_eq!(parse_volume("-3"), Some(0));
    assert_eq!(parse_volume("+7"), Some(7));
    assert_eq!(parse_volume("abc"), None);
    assert_eq!(parse_volume(""), None);
    assert_eq!(parse_volume("99999999999"), None);
}

#[test]
fn volume_write_reads_back_clamped() {
    for v in [-20, 0, 1, 37, 100, 250, i32::MIN, i32::MAX] {
        assert_eq!(parse_volume(&volume_payload(v)), Some(clamp_volume(v)));
    }
    assert_eq!(volume_payload(150), "100");
    assert_eq!(volume_payload(-1), "0");
    assert_eq!(volume_payload(64), "64");
}

#[test]
fn audio_state_from_read() {
    let a = audio_from_read(None);
    assert!(!a.available);
    assert_eq!(a.volume, 0);
    let a = audio_from_read(Some("73\n"));
    assert!(a.available);
    assert_eq!(a.volume, 73);
    let a = audio_from_read(Some("garbage"));
    assert!(a.available);
    assert_eq!(a.volume, 0);
}

#[test]
fn power_commands() {
    let c = shutdown("hunter2");
    assert_eq!(c.program, "eos-power");
    assert_eq!(c.args, vec!["shutdown".to_string()]);
    assert_eq!(c.stdin, "hunter2\n");
    let c = reboot("");
    assert_eq!(c.program, "eos-power");
    assert_eq!(c.args, vec!["reboot".to_string()]);
    assert_eq!(c.stdin, "\n");
}

#[test]
fn shim_results() {
    assert_eq!(shim_result("eos-power", ShimOutcome::Exited(true)), Ok(()));
    assert_eq!(
        shim_result("eos-power", ShimOutcome::Exited(false)),
        Err("błędne hasło lub brak uprawnień".to_string())
    );
    assert_eq!(
        shim_result("eos-power", ShimOutcome::SpawnFailed("not found".into())),
        Err("nie można uruchomić eos-power: not found".to_string())
    );
    assert_eq!(
        shim_result("eos-netcfg", ShimOutcome::WaitFailed("interrupted".into())),
        Err("eos-netcfg: interrupted".to_string())
    );
}

#[test]
fn apply_static_checks_fields_in_order() {
    assert_eq!(
        apply_static("eth0", " 10.0.2.300 ", 24, "", "", "pw").unwrap_err(),
        "nieprawidłowy adres IP: 10.0.2.300"
    );
    assert_eq!(
        apply_static("eth0", "10.0.2.30", 33, "x", "", "pw").unwrap_err(),
        "prefiks poza zakresem 0–32: 33"
    );
    assert_eq!(
        apply_static("eth0", "10.0.2.30", -1, "", "", "pw").unwrap_err(),
        "prefiks poza zakresem 0–32: -1"
    );
    assert_eq!(
        apply_static("eth0", "10.0.2.30", 24, " gw ", "bad", "pw").unwrap_err(),
        "nieprawidłowy adres bramy: gw"
    );
    assert_eq!(
        apply_static("eth0", "10.0.2.30", 24, "10.0.2.2", "1.1.1", "pw").unwrap_err(),
        "nieprawidłowy adres DNS: 1.1.1"
    );
}

#[test]
fn apply_static_builds_helper_run() {
    let c = apply_static("  ", " 10.0.2.30 ", 24, "", " 1.1.1.1 ", "secret").unwrap();
    assert_eq!(c.program, "eos-netcfg");
    assert_eq!(c.args, vec!["static", "eth0", "10.0.2.30", "24", "-", "1.1.1.1"]);
    assert_eq!(c.stdin, "secret\n");
    let c = apply_static("wlan0", "192.168.0.9", 16, "192.168.0.1", "", "p").unwrap();
    assert_eq!(c.args, vec!["static", "wlan0", "192.168.0.9", "16", "192.168.0.1", "-"]);
    assert_eq!(
        apply_static("eth/0", "10.0.2.30", 24, "", "", "pw").unwrap_err(),
        "nieprawidłowa nazwa interfejsu: eth/0"
    );
    assert_eq!(
        apply_static(" e th0 ", "10.0.2.30", 24, "", "", "pw").unwrap_err(),
        "nieprawidłowa nazwa interfejsu: e th0"
    );
}

#[test]
fn uname_system_identity() {
    assert_eq!(system_from_uname("Redox\n0.9.0\naarch64\nabcdef\n"), "E-OS (Redox 0.9.0) · aarch64");
    assert_eq!(system_from_uname("Redox\r\n 0.9.1 \r\nx86_64\r\n"), "E-OS (Redox 0.9.1) · x86_64");
    assert_eq!(system_from_uname("Redox\n0.9.0"), "E-OS (Redox 0.9.0) · ");
    assert_eq!(system_from_uname(""), "E-OS");
    assert_eq!(system_from_uname("Redox\n\n"), "E-OS");
}

#[test]
fn cpu_count() {
    assert_eq!(cpus_from("CPUs: 4\nCPU 0: ...\n"), 4);
    assert_eq!(cpus_from("CPUs:16"), 16);
    assert_eq!(cpus_from("cpus: 4"), 0);
    assert_eq!(cpus_from("CPUs: many"), 0);
    assert_eq!(cpus_from(""), 0);
    assert_eq!(cpus_from("\nCPUs: 4"), 0);
}

#[test]
fn stat_counter_lines() {
    assert_eq!(stat_counters("cpu 1 2 3\nctxt 123\nintr 50 1 2\n"), (123, 50));
    assert_eq!(stat_counters("ctxt 7\nIRQs: 9\nIRQs 70\nintr 5"), (7, 5));
    assert_eq!(stat_counters("ctxt\nintr x\nIRQs 70"), (0, 70));
    assert_eq!(stat_counters(""), (0, 0));
}

#[test]
fn overview_sums_memory() {
    let procs = vec![proc("1", "a", 100), proc("2", "b", 250)];
    let o = overview_from("E-OS".into(), 2, &procs, 10, 20);
    assert_eq!(o.processes, 2);
    assert_eq!(o.mem_bytes, 350);
    assert_eq!(o.cpus, 2);
    assert_eq!((o.context_switches, o.irqs), (10, 20));
}

#[test]
fn network_view_prefers_live_values() {
    assert_eq!(net_iface(Some("eth0\n")), "eth0");
    assert_eq!(net_iface(Some(" eth1 \nlo\n")), "eth1");
    assert_eq!(net_iface(Some("Not configured")), "eth0");
    assert_eq!(net_iface(None), "eth0");
    assert_eq!(iface_node("eth0", "addr/list"), "/scheme/netcfg/ifaces/eth0/addr/list");
    let n = net_from(
        "eth0".into(),
        Some("10.0.2.15/24\n"),
        Some("default via 10.0.2.2 dev eth0\n"),
        Some("10.0.2.3\n"),
        Some("52:54:00:12:34:56\n"),
        "192.168.0.5\n",
        "255.255.0.0\n",
        "192.168.0.1\n",
        "8.8.8.8\n",
        true,
    );
    assert_eq!(n.ip, "10.0.2.15");
    assert_eq!(n.subnet, "255.255.255.0");
    assert_eq!(n.gateway, "10.0.2.2");
    assert_eq!(n.dns, "10.0.2.3");
    assert_eq!(n.mac, "52:54:00:12:34:56");
    assert!(n.stack_up);
}

#[test]
fn network_view_falls_back_to_files() {
    let n = net_from(
        "eth0".into(),
        Some("Not configured"),
        Some("10.0.2.0/24 dev eth0"),
        None,
        None,
        " 192.168.0.5\n",
        "255.255.0.0\n",
        "192.168.0.1\n",
        "8.8.8.8\n",
        false,
    );
    assert_eq!(n.ip, "192.168.0.5");
    assert_eq!(n.subnet, "255.255.0.0");
    assert_eq!(n.gateway, "192.168.0.1");
    assert_eq!(n.dns, "8.8.8.8");
    assert_eq!(n.mac, "");
    assert!(!n.stack_up);
}

#[test]
fn size_text_parts() {
    let (n, m) = size_parts("1 MB");
    assert_eq!((n.as_str(), m), ("1", 1048576));
    let (n, m) = size_parts(" 512 KiB ");
    assert_eq!((n.as_str(), m), ("512", 1024));
    let (n, m) = size_parts("1024");
    assert_eq!((n.as_str(), m), ("1024", 1));
    let (n, m) = size_parts("3 GB");
    assert_eq!((n.as_str(), m), ("3", 1073741824));
    let (n, m) = size_parts("7 XB");
    assert_eq!((n.as_str(), m), ("7", 1));
}

#[test]
fn helper_inputs() {
    assert_eq!(stdin_password("hunter2\n"), "hunter2");
    assert_eq!(stdin_password("pw\r\nextra\n"), "pw");
    assert_eq!(stdin_password(""), "");
    assert_eq!(stdin_password("\nsecond"), "");
    assert_eq!(power_action(Some("reboot")), Some("reboot"));
    assert_eq!(power_action(Some("shutdown")), Some("shutdown"));
    assert_eq!(power_action(Some("halt")), None);
    assert_eq!(power_action(Some("Reboot")), None);
    assert_eq!(power_action(None), None);
}
