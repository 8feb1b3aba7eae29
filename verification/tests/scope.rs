use eos_control::control::Status;
use eos_control::scope::{count_changes, scope_note, scope_split, Finding};

fn f(path: &str, status: Status) -> Finding {
    Finding { path: path.to_string(), status, detail: String::new() }
}

fn roots(r: &[&str]) -> Vec<String> {
    r.iter().map(|s| s.to_string()).collect()
}

#[test]
fn narrowed_scan_counts_instead_of_removing() {
    let found = vec![f("/usr/bin/ls", Status::Removed), f("/usr/bin/cat", Status::Removed)];
    let (kept, out) = scope_split(&found, &roots(&["/etc"]));
    assert!(kept.is_empty());
    assert_eq!(out, 2);
    assert_eq!(
        scope_note(out, &roots(&["/usr/bin", "/etc"]), &roots(&["/etc"])),
        "  ⚠ ZAKRES: 2 plików poza zakresem skanu; pominięto: /usr/bin"
    );
}

#[test]
fn own_roots_report_real_deletions_silently() {
    let found = vec![f("/etc/passwd", Status::Removed), f("/etc/hosts", Status::Modified)];
    let (kept, out) = scope_split(&found, &roots(&["/etc"]));
    assert_eq!(kept.len(), 2);
    assert_eq!(kept[0].path, "/etc/passwd");
    assert_eq!(kept[0].status, Status::Removed);
    assert_eq!(out, 0);
    assert_eq!(scope_note(out, &roots(&["/etc"]), &roots(&["/etc"])), "");
}

#[test]
fn scope_edges() {
    let found = vec![
        f("/etc2/x", Status::Removed),
        f("/etc", Status::Removed),
        f("/opt/new", Status::New),
        f("/srv/a", Status::Removed),
    ];
    let (kept, out) = scope_split(&found, &roots(&["/etc", "/srv/"]));
    let paths: Vec<&str> = kept.iter().map(|k| k.path.as_str()).collect();
    assert_eq!(paths, vec!["/etc", "/opt/new", "/srv/a"]);
    assert_eq!(out, 1);
    assert_eq!(
        scope_note(0, &roots(&["/etc"]), &roots(&["/etc", "/opt"])),
        "  ⚠ ZAKRES: dodano: /opt"
    );
}

#[test]
fn changes_counted_over_listed_findings() {
    let found = vec![
        f("/a", Status::Intact),
        f("/b", Status::New),
        f("/c", Status::Warn),
        f("/d", Status::Modified),
        f("/e", Status::Removed),
    ];
    assert_eq!(count_changes(&found), 4);
    assert_eq!(count_changes(&Vec::new()), 0);
}
