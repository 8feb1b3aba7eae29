use eos_control::control::toggle_expanded;
use eos_control::messages::{
    baseline_gate, baseline_status, baseline_written, changed_count, net_apply_status,
    disk_tiles, overview_status, percent_text, power_status, prefill_prefix, scan_failed, scan_gate, scan_status, shown,
    stack_label,
};

#[test]
fn blank_fields_show_a_dash() {
    assert_eq!(shown(""), "—");
    assert_eq!(shown("10.0.2.15"), "10.0.2.15");
    assert_eq!(stack_label(true), "aktywny");
    assert_eq!(stack_label(false), "brak");
}

#[test]
fn process_footer() {
    assert_eq!(overview_status(42, "1.5 GB"), "42 procesów · 1.5 GB pamięci · wg pamięci ↓");
}

#[test]
fn power_and_network_status_lines() {
    assert_eq!(power_status(true, &Ok(())), "Ponowne uruchamianie…");
    assert_eq!(power_status(false, &Ok(())), "Wyłączanie…");
    assert_eq!(
        power_status(true, &Err("błędne hasło lub brak uprawnień".to_string())),
        "Nie udało się: błędne hasło lub brak uprawnień"
    );
    assert_eq!(net_apply_status(&Ok(())), "Zastosowano konfigurację sieci.");
    assert_eq!(net_apply_status(&Err("x".to_string())), "Nie udało się: x");
}

#[test]
fn prefix_box_prefill() {
    assert_eq!(prefill_prefix("255.255.255.0"), "24");
    assert_eq!(prefill_prefix(" 255.255.0.0 "), "16");
    assert_eq!(prefill_prefix("0.0.0.0"), "0");
    assert_eq!(prefill_prefix("255.255.255.255"), "32");
    assert_eq!(prefill_prefix("255.0.255.0"), "");
    assert_eq!(prefill_prefix(""), "");
}

#[test]
fn security_status_lines() {
    assert_eq!(baseline_status(0, true), "Brak wzorca — kliknij „Ustaw wzorzec”.");
    assert_eq!(baseline_status(12, false), "⚠ Wzorzec (12 plików) NARUSZONY — ustaw ponownie.");
    assert_eq!(baseline_status(12, true), "Wzorzec: 12 plików. Kliknij Skanuj.");
    assert_eq!(baseline_gate(&vec![]), Some("Podaj przynajmniej jeden katalog.".to_string()));
    assert_eq!(baseline_gate(&vec!["/etc".to_string()]), None);
    assert_eq!(baseline_written(7, false, true), "Wzorzec ustawiony: 7 plików.");
    assert_eq!(baseline_written(7, true, true), "Wzorzec ustawiony: 7 plików (obcięto).");
    assert_eq!(baseline_written(7, true, false), "Błąd zapisu wzorca.");
    assert_eq!(scan_gate(false, 5), Some("Baza wzorca niedostępna.".to_string()));
    assert_eq!(scan_gate(true, 0), Some("Brak wzorca — najpierw „Ustaw wzorzec”.".to_string()));
    assert_eq!(scan_gate(true, 5), None);
    assert_eq!(changed_count(1, 2, 3, 4), 10);
    assert_eq!(scan_status(20, 3, false, true, ""), "Przeskanowano 20 plików: 3 zmian/ostrzeżeń.");
    assert_eq!(
        scan_status(20000, 0, true, false, ""),
        "Przeskanowano 20000 plików: 0 zmian/ostrzeżeń (obcięto).  ⚠ WZORZEC NARUSZONY"
    );
    assert_eq!(scan_failed("disk"), "Błąd skanu: disk");
}

#[test]
fn expanding_a_group_twice_closes_it() {
    let mut open: Vec<String> = Vec::new();
    toggle_expanded(&mut open, "chrome");
    assert_eq!(open, vec!["chrome"]);
    toggle_expanded(&mut open, "ion");
    assert_eq!(open, vec!["chrome", "ion"]);
    toggle_expanded(&mut open, "chrome");
    assert_eq!(open, vec!["ion"]);
    toggle_expanded(&mut open, "ion");
    assert!(open.is_empty());
}

#[test]
fn scan_status_carries_the_scope_note() {
    assert_eq!(
        scan_status(5, 0, false, true, "  ⚠ ZAKRES: 2 plików poza zakresem skanu"),
        "Przeskanowano 5 plików: 0 zmian/ostrzeżeń.  ⚠ ZAKRES: 2 plików poza zakresem skanu"
    );
}

#[test]
fn storage_tiles() {
    let none = eos_control::sys::Storage { total_bytes: 0, free_bytes: 0, used_bytes: 0 };
    let t = disk_tiles(&none, "1 GB", "0 B", "1 GB", "0%");
    assert_eq!(t, ("—".to_string(), "—".to_string(), "—".to_string(), "—".to_string()));
    let some = eos_control::sys::Storage { total_bytes: 100, free_bytes: 58, used_bytes: 42 };
    let t = disk_tiles(&some, "100 B", "42 B", "58 B", &percent_text(42));
    assert_eq!(t, ("100 B".to_string(), "42 B".to_string(), "58 B".to_string(), "42%".to_string()));
}
