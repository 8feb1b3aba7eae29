use eos_control::grouping::{build_rows, build_rows_checked, header_totals, search_hit, with_header_memory};
use eos_control::sys::Proc;

fn proc(pid: &str, name: &str, label: &str, mem: u64, res: &[&str]) -> Proc {
    Proc {
        pid: pid.into(),
        name: name.into(),
        label: label.into(),
        owner: "0".into(),
        status: "R".into(),
        cpu_time: "00:00:01".into(),
        memory: format!("{mem} B"),
        mem_bytes: mem,
        resources: res.iter().map(|s| s.to_string()).collect(),
    }
}

fn sample() -> Vec<Proc> {
    vec![
        proc("1", "init", "init — brings up the system", 100, &["debug"]),
        proc("7", "browser", "", 300, &["orbital", "tcp"]),
        proc("8", "browser", "", 500, &["tcp", "udp"]),
        proc("9", "orbital", "desktop server", 700, &["display"]),
        proc("12", "browser", "", 100, &[]),
    ]
}

#[test]
fn groups_rank_by_total_memory() {
    let rows = build_rows(sample(), "", &Vec::new());
    assert_eq!(rows.len(), 3);
    assert!(rows[0].is_group);
    assert_eq!(rows[0].name, "browser");
    assert_eq!(rows[0].mem_bytes, 900);
    assert_eq!(rows[0].count, 3);
    assert_eq!(rows[0].caps, "orbital, tcp, udp");
    assert_eq!(rows[0].pid, "");
    assert!(!rows[0].expanded);
    assert_eq!(rows[1].name, "orbital");
    assert!(!rows[1].is_group);
    assert_eq!(rows[1].pid, "9");
    assert_eq!(rows[1].caps, "display");
    assert_eq!(rows[2].name, "init");
    assert_eq!(rows[2].mem_bytes, 100);
}

#[test]
fn expanded_group_lists_heaviest_first() {
    let rows = build_rows(sample(), "", &vec!["browser".to_string()]);
    assert_eq!(rows.len(), 6);
    assert!(rows[0].is_group && rows[0].expanded);
    let pids: Vec<&str> = rows[1..4].iter().map(|r| r.pid.as_str()).collect();
    assert_eq!(pids, vec!["8", "7", "12"]);
    assert!(rows[1..4].iter().all(|r| r.indent && !r.is_group));
    assert_eq!(rows[1].caps, "tcp, udp");
    assert_eq!(rows[4].name, "orbital");
}

#[test]
fn equal_totals_rank_by_name_and_equal_sizes_keep_order() {
    let procs = vec![
        proc("1", "zeta", "", 50, &[]),
        proc("2", "alpha", "", 50, &[]),
        proc("3", "dup", "", 10, &["a"]),
        proc("4", "dup", "", 10, &["a"]),
    ];
    let rows = build_rows(procs, "", &vec!["dup".to_string()]);
    let names: Vec<&str> = rows.iter().map(|r| r.name.as_str()).collect();
    assert_eq!(names, vec!["alpha", "zeta", "dup", "dup", "dup"]);
    assert_eq!(rows[2].caps, "a");
    assert_eq!(rows[3].pid, "3");
    assert_eq!(rows[4].pid, "4");
}

#[test]
fn search_filters_before_grouping() {
    let rows = build_rows(sample(), "desktop", &Vec::new());
    assert_eq!(rows.len(), 1);
    assert_eq!(rows[0].name, "orbital");
    let rows = build_rows(sample(), "12", &Vec::new());
    assert_eq!(rows.len(), 1);
    assert_eq!(rows[0].pid, "12");
    assert!(!rows[0].is_group);
    let rows = build_rows(sample(), "brow", &Vec::new());
    assert_eq!(rows.len(), 1);
    assert_eq!(rows[0].count, 3);
    let rows = build_rows(sample(), "nothing-matches", &Vec::new());
    assert!(rows.is_empty());
}

#[test]
fn search_ignores_case_of_name() {
    let procs = vec![proc("3", "Launcher", "", 1, &[])];
    let rows = build_rows(procs, "launch", &Vec::new());
    assert_eq!(rows.len(), 1);
}

#[test]
fn group_header_label_describes_program() {
    let procs = vec![proc("3", "pcid", "x", 1, &[]), proc("4", "pcid", "x", 2, &[])];
    let rows = build_rows(procs, "", &Vec::new());
    assert_eq!(rows[0].label, "PCI driver manager — probes devices, binds drivers");
    assert_eq!(rows[0].memory, "");
}

#[test]
fn search_on_lowered_fields() {
    assert!(search_hit("browser", "", "7", ""));
    assert!(search_hit("browser", "", "7", "rows"));
    assert!(search_hit("init", "init — brings up the system", "1", "system"));
    assert!(search_hit("init", "", "1234", "23"));
    assert!(!search_hit("init", "", "1", "Init"));
    assert!(!search_hit("init", "boot", "1", "x"));
}

fn bare(pid: &str, name: &str, mem: u64) -> Proc {
    Proc {
        pid: pid.into(),
        name: name.into(),
        label: String::new(),
        owner: String::new(),
        status: String::new(),
        cpu_time: String::new(),
        memory: String::new(),
        mem_bytes: mem,
        resources: Vec::new(),
    }
}

/// The display's formatting for totals under 1 KB.
fn small_bytes(b: u64) -> String {
    format!("{b} B")
}

fn shown_rows(procs: Vec<Proc>, expanded: &Vec<String>) -> Vec<eos_control::grouping::Row> {
    let rows = build_rows_checked(procs, "", expanded).unwrap();
    let texts: Vec<String> = header_totals(&rows).into_iter().map(small_bytes).collect();
    with_header_memory(rows, &texts)
}

#[test]
fn group_header_shows_summed_memory() {
    let r = shown_rows(vec![bare("1", "chrome", 300), bare("2", "chrome", 300), bare("3", "big", 500)], &Vec::new());
    assert_eq!(r.len(), 2);
    assert!(r[0].is_group && r[0].name == "chrome" && r[0].count == 2 && !r[0].expanded);
    assert_eq!(r[0].memory, "600 B");
    assert!(!r[1].is_group && r[1].name == "big" && r[1].pid == "3" && !r[1].indent);
}

#[test]
fn expanded_group_lists_members_heaviest_first() {
    let r = shown_rows(
        vec![bare("1", "x", 10), bare("2", "x", 30), bare("5", "b", 40), bare("6", "a", 40)],
        &vec!["x".to_string()],
    );
    assert_eq!(r.len(), 5);
    assert_eq!(r[0].pid, "6");
    assert_eq!(r[1].pid, "5");
    assert!(r[2].is_group && r[2].name == "x" && r[2].expanded && r[2].count == 2);
    assert_eq!(r[2].memory, "40 B");
    assert!(r[3].pid == "2" && r[3].indent);
    assert!(r[4].pid == "1" && r[4].indent);
}

#[test]
fn oversized_totals_are_refused() {
    assert!(build_rows_checked(vec![bare("1", "a", u64::MAX), bare("2", "b", 1)], "", &Vec::new()).is_none());
    assert!(build_rows_checked(vec![bare("1", "a", u64::MAX)], "", &Vec::new()).is_some());
}
