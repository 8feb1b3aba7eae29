use eos_control::procs::{capabilities, processes_from, scheme_of};

fn row(pid: &str, euid: &str, stat: &str, time: &str, private: &str, name: &str) -> String {
    format!(
        "{:<6}{:<6}{:<6}{:<6}{:<6}{:<11}{:<12}{:<8}{:<8}{}",
        pid, euid, "0", stat, "0", "0", time, private, "0 B", name
    )
}

fn scheme(line: &str) -> Option<String> {
    scheme_of(&line.chars().collect())
}

#[test]
fn scheme_of_descriptor_lines() {
    assert_eq!(scheme(" 3: /scheme/null"), Some("null".to_string()));
    assert_eq!(scheme("  4: debug:"), Some("debug".to_string()));
    assert_eq!(scheme("  5: file:/usr/bin/ion"), Some("file".to_string()));
    assert_eq!(scheme("  6: 1234"), None);
    assert_eq!(scheme("  7: abc"), None);
    assert_eq!(scheme("  8: "), None);
    assert_eq!(scheme("pipe: x: orbital:/window"), Some("orbital".to_string()));
    assert_eq!(scheme("display.vesa:3"), Some("display.vesa".to_string()));
}

#[test]
fn capability_table_from_iostat() {
    let io = "1: init\n  0: debug:\n  1: debug:\n  2: /scheme/null\n12: pcid\n  0: pci:00.0\n 5: fffff\n";
    let t = capabilities(io);
    assert_eq!(t.len(), 2);
    assert_eq!(t[0].0, "1");
    assert_eq!(t[0].1, vec!["debug".to_string(), "null".to_string()]);
    assert_eq!(t[1].0, "12");
    assert_eq!(t[1].1, vec!["pci".to_string()]);
    assert!(capabilities("").is_empty());
    assert!(capabilities("  0: debug:\n").is_empty());
}

#[test]
fn process_rows_from_context() {
    let ctx = format!(
        "{}\n{}\n{}\n",
        row("PID", "EUID", "STAT", "TIME", "PRIVATE", "NAME"),
        row("1", "0", "R", "00:00:01", "1 MB", "/scheme/initfs/bin/init"),
        row("12", "1000", "B", "00:00:02", "512 KB", "pcid"),
    );
    let io = "12: pcid\n  0: pci:00.0\n";
    let ps = processes_from(&ctx, io);
    assert_eq!(ps.len(), 2);
    assert_eq!(ps[0].pid, "1");
    assert_eq!(ps[0].owner, "0");
    assert_eq!(ps[0].status, "R");
    assert_eq!(ps[0].cpu_time, "00:00:01");
    assert_eq!(ps[0].memory, "1 MB");
    assert_eq!(ps[0].name, "/scheme/initfs/bin/init");
    assert_eq!(ps[0].label, "init — brings up the system");
    assert!(ps[0].resources.is_empty());
    assert_eq!(ps[1].pid, "12");
    assert_eq!(ps[1].owner, "1000");
    assert_eq!(ps[1].memory, "512 KB");
    assert_eq!(ps[1].resources, vec!["pci".to_string()]);
}

#[test]
fn short_or_blank_rows_are_skipped() {
    let ctx = "PID EUID\n\n      x\n42\n42    ";
    let ps = processes_from(ctx, "");
    assert_eq!(ps.len(), 1);
    assert_eq!(ps[0].pid, "42");
    assert_eq!(ps[0].owner, "");
    assert_eq!(ps[0].name, "");
}
