use eos_control::control::{kill_message, kind_of, parse_pid, parse_roots, prefix_field, toggle_mute, Status};
use eos_control::paths::baseline_db_for;
use eos_control::selftest::system_check;
use eos_control::sys::{Audio, Overview};

#[test]
fn scan_roots_from_field() {
    assert_eq!(parse_roots("/usr/bin, /etc"), vec!["/usr/bin", "/etc"]);
    assert_eq!(parse_roots(" , /etc,,"), vec!["/etc"]);
    assert!(parse_roots("").is_empty());
    assert!(parse_roots("  ").is_empty());
}

#[test]
fn finding_kinds() {
    assert_eq!(kind_of(Status::Intact), 0);
    assert_eq!(kind_of(Status::New), 1);
    assert_eq!(kind_of(Status::Modified), 2);
    assert_eq!(kind_of(Status::Removed), 3);
    assert_eq!(kind_of(Status::Warn), 4);
}

#[test]
fn mute_toggle() {
    let up = Audio { available: true, volume: 60 };
    assert_eq!(toggle_mute(&up, 50), (60, Some(0)));
    let muted = Audio { available: true, volume: 0 };
    assert_eq!(toggle_mute(&muted, 60), (60, Some(60)));
    assert_eq!(toggle_mute(&muted, 0), (0, Some(50)));
    let down = Audio { available: false, volume: 0 };
    assert_eq!(toggle_mute(&down, 33), (33, None));
}

#[test]
fn typed_prefix_and_pid() {
    assert_eq!(prefix_field(" 24 "), 24);
    assert_eq!(prefix_field(""), -1);
    assert_eq!(prefix_field("abc"), -1);
    assert_eq!(prefix_field("-7"), -7);
    assert_eq!(parse_pid(" 1234 "), Some(1234));
    assert_eq!(parse_pid("-1"), Some(-1));
    assert_eq!(parse_pid("x"), None);
    assert_eq!(parse_pid("-9223372036854775808"), Some(i64::MIN));
    assert_eq!(parse_pid("9223372036854775808"), None);
}

#[test]
fn kill_status_lines() {
    assert_eq!(kill_message(None, &Ok(())), "Nieprawidłowy PID.");
    assert_eq!(kill_message(Some(42), &Ok(())), "Zakończono PID 42.");
    assert_eq!(kill_message(Some(-3), &Ok(())), "Zakończono PID -3.");
    assert_eq!(kill_message(Some(42), &Err("kill 42: ESRCH".to_string())), "Błąd: kill 42: ESRCH");
}

#[test]
fn the_baseline_lives_where_it_always_did() {
    for home in [Some("/home/user"), Some("/root"), None] {
        let s = baseline_db_for(home);
        assert!(
            s.ends_with("/.local/share/eos-guard/baseline.db") || s == "/tmp/eos-guard.db",
            "{s}"
        );
    }
}

#[test]
fn baseline_path_joins_home() {
    assert_eq!(baseline_db_for(Some("/home/u")), "/home/u/.local/share/eos-guard/baseline.db");
    assert_eq!(baseline_db_for(Some("/home/u/")), "/home/u/.local/share/eos-guard/baseline.db");
    assert_eq!(baseline_db_for(Some("")), ".local/share/eos-guard/baseline.db");
    assert_eq!(baseline_db_for(None), "/tmp/eos-guard.db");
}

fn ov(system: &str, cpus: u32, processes: usize) -> Overview {
    Overview { system: system.into(), cpus, processes, mem_bytes: 0, context_switches: 0, irqs: 0 }
}

#[test]
fn snapshot_checks() {
    assert_eq!(system_check(&ov("E-OS", 2, 3), 3), Ok(()));
    assert_eq!(
        system_check(&ov("  ", 2, 3), 3),
        Err("overview system identity is empty".to_string())
    );
    assert_eq!(system_check(&ov("E-OS", 0, 3), 3), Err("overview cpu count is 0".to_string()));
    assert_eq!(
        system_check(&ov("E-OS", 1, 3), 4),
        Err("process count 3 disagrees with the list length 4".to_string())
    );
}

#[test]
fn mute_then_unmute_restores_level() {
    let (remembered, set) = toggle_mute(&Audio { available: true, volume: 73 }, 50);
    assert_eq!(set, Some(0));
    let (_, set) = toggle_mute(&Audio { available: true, volume: 0 }, remembered);
    assert_eq!(set, Some(73));
}
