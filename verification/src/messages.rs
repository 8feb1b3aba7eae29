//! The texts the control window shows: field values with a dash for blanks,
//! the status lines after an action, and the pre-filled prefix of the network
//! form.

use vstd::prelude::*;
use crate::text::trim;
use crate::num::{dec_text, u64_text};
use crate::sys::Storage;
use crate::netcore::{is_netmask_of, netmask_to_prefix, lemma_mask_bits_injective};

verus! {

/// A field as displayed: its text, or a dash when it is empty.
pub open spec fn shown_of(s: Seq<char>) -> Seq<char> {
    if s.len() == 0 {
        "—"@
    } else {
        s
    }
}

/// The displayed form of a network field.
pub fn shown(s: &str) -> (r: String)
    ensures
        r@ == shown_of(s@),
{
    if s.unicode_len() == 0 {
        String::from_str("—")
    } else {
        String::from_str(s)
    }
}

/// The network stack's state: running or absent.
pub fn stack_label(up: bool) -> (r: String)
    ensures
        r@ == (if up { "aktywny"@ } else { "brak"@ }),
{
    if up {
        String::from_str("aktywny")
    } else {
        String::from_str("brak")
    }
}

/// The footer of the process view: how many processes, how much memory, and
/// the ranking.
pub open spec fn overview_status_of(processes: nat, mem_total: Seq<char>) -> Seq<char> {
    dec_text(processes) + " procesów · "@ + mem_total + " pamięci · wg pamięci ↓"@
}

/// The footer for `processes` processes using `mem_total` (already formatted).
pub fn overview_status(processes: usize, mem_total: &str) -> (r: String)
    ensures
        r@ == overview_status_of(processes as nat, mem_total@),
{
    let mut r = u64_text(processes as u64);
    r.append(" procesów · ");
    r.append(mem_total);
    r.append(" pamięci · wg pamięci ↓");
    r
}

/// The status after a failed action: the reason after a fixed lead-in.
pub open spec fn failed_of(e: Seq<char>) -> Seq<char> {
    "Nie udało się: "@ + e
}

fn failed(e: &str) -> (r: String)
    ensures
        r@ == failed_of(e@),
{
    let mut r = String::from_str("Nie udało się: ");
    r.append(e);
    r
}

/// The status after a power action: the machine is going down (rebooting or
/// powering off), or why the helper refused.
pub open spec fn power_status_of(reboot: bool, result: Result<(), Seq<char>>) -> Seq<char> {
    match result {
        Ok(()) => if reboot {
            "Ponowne uruchamianie…"@
        } else {
            "Wyłączanie…"@
        },
        Err(e) => failed_of(e),
    }
}

/// The power view's status after a reboot (`reboot`) or shutdown request.
pub fn power_status(reboot: bool, result: &Result<(), String>) -> (r: String)
    ensures
        r@ == power_status_of(reboot, match result {
            Ok(()) => Ok(()),
            Err(e) => Err(e@),
        }),
{
    match result {
        Ok(()) => if reboot {
            String::from_str("Ponowne uruchamianie…")
        } else {
            String::from_str("Wyłączanie…")
        },
        Err(e) => failed(e.as_str()),
    }
}

/// The status after applying a static network configuration.
pub open spec fn net_apply_status_of(result: Result<(), Seq<char>>) -> Seq<char> {
    match result {
        Ok(()) => "Zastosowano konfigurację sieci."@,
        Err(e) => failed_of(e),
    }
}

/// The network view's status after the static configuration was applied.
pub fn net_apply_status(result: &Result<(), String>) -> (r: String)
    ensures
        r@ == net_apply_status_of(match result {
            Ok(()) => Ok(()),
            Err(e) => Err(e@),
        }),
{
    match result {
        Ok(()) => String::from_str("Zastosowano konfigurację sieci."),
        Err(e) => failed(e.as_str()),
    }
}

/// The prefix box of the network form, pre-filled from the current netmask:
/// the prefix length in decimal, or empty when the mask is not a netmask.
pub fn prefill_prefix(mask: &str) -> (r: String)
    ensures
        r@.len() == 0 <==> forall|p: u32| !#[trigger] is_netmask_of(trim(mask@), p),
        forall|p: u32| #[trigger] is_netmask_of(trim(mask@), p) ==> r@ == dec_text(p as nat),
{
    match netmask_to_prefix(mask) {
        Some(p) => {
            let r = u64_text(p as u64);
            proof {
                assert(r@.len() > 0) by {
                    reveal_with_fuel(dec_text, 2);
                }
                assert forall|q: u32| #[trigger] is_netmask_of(trim(mask@), q) implies r@ == dec_text(
                    q as nat,
                ) by {
                    if q != p as u32 {
                        lemma_mask_bits_injective(p as u32, q);
                    }
                }
            }
            r
        },
        None => String::new(),
    }
}

/// The security view's opening status: no baseline yet, a baseline of `n`
/// files whose digest no longer matches, or a baseline of `n` files.
pub open spec fn baseline_status_of(n: nat, intact: bool) -> Seq<char> {
    if n == 0 {
        "Brak wzorca — kliknij „Ustaw wzorzec”."@
    } else if !intact {
        "⚠ Wzorzec ("@ + dec_text(n) + " plików) NARUSZONY — ustaw ponownie."@
    } else {
        "Wzorzec: "@ + dec_text(n) + " plików. Kliknij Skanuj."@
    }
}

/// The opening status for a baseline of `n` files, `intact` when its digest
/// matches.
pub fn baseline_status(n: u64, intact: bool) -> (r: String)
    ensures
        r@ == baseline_status_of(n as nat, intact),
{
    if n == 0 {
        String::from_str("Brak wzorca — kliknij „Ustaw wzorzec”.")
    } else if !intact {
        let mut r = String::from_str("⚠ Wzorzec (");
        r.append(u64_text(n).as_str());
        r.append(" plików) NARUSZONY — ustaw ponownie.");
        r
    } else {
        let mut r = String::from_str("Wzorzec: ");
        r.append(u64_text(n).as_str());
        r.append(" plików. Kliknij Skanuj.");
        r
    }
}

/// Setting a baseline needs at least one directory: the refusal when the list
/// is empty, nothing otherwise.
pub fn baseline_gate(roots: &Vec<String>) -> (r: Option<String>)
    ensures
        r matches Some(m) ==> roots@.len() == 0 && m@ == "Podaj przynajmniej jeden katalog."@,
        r is None ==> roots@.len() > 0,
{
    if roots.len() == 0 {
        Some(String::from_str("Podaj przynajmniej jeden katalog."))
    } else {
        None
    }
}

/// The mark of a scan that stopped at its file budget.
pub open spec fn truncated_note(truncated: bool) -> Seq<char> {
    if truncated {
        " (obcięto)"@
    } else {
        ""@
    }
}

fn truncated_text(truncated: bool) -> (r: &'static str)
    ensures
        r@ == truncated_note(truncated),
{
    if truncated {
        " (obcięto)"
    } else {
        ""
    }
}

/// The status after setting a baseline of `n` files: written (marked when the
/// scan was cut short), or the write failed.
pub open spec fn baseline_written_of(n: nat, truncated: bool, saved: bool) -> Seq<char> {
    if saved {
        "Wzorzec ustawiony: "@ + dec_text(n) + " plików"@ + truncated_note(truncated) + "."@
    } else {
        "Błąd zapisu wzorca."@
    }
}

/// The status after a baseline of `n` files was taken (`saved` when it was
/// written).
pub fn baseline_written(n: usize, truncated: bool, saved: bool) -> (r: String)
    ensures
        r@ == baseline_written_of(n as nat, truncated, saved),
{
    if saved {
        let mut r = String::from_str("Wzorzec ustawiony: ");
        r.append(u64_text(n as u64).as_str());
        r.append(" plików");
        r.append(truncated_text(truncated));
        r.append(".");
        r
    } else {
        String::from_str("Błąd zapisu wzorca.")
    }
}

/// A scan needs an open baseline database holding a baseline: the refusal when
/// one is missing, nothing when the scan may run.
pub open spec fn scan_gate_of(db_open: bool, count: nat) -> Option<Seq<char>> {
    if !db_open {
        Some("Baza wzorca niedostępna."@)
    } else if count == 0 {
        Some("Brak wzorca — najpierw „Ustaw wzorzec”."@)
    } else {
        None
    }
}

/// Whether a scan may run against the baseline database (`db_open`) holding
/// `count` files.
pub fn scan_gate(db_open: bool, count: u64) -> (r: Option<String>)
    ensures
        match r {
            Some(m) => scan_gate_of(db_open, count as nat) == Some(m@),
            None => scan_gate_of(db_open, count as nat) is None,
        },
{
    if !db_open {
        Some(String::from_str("Baza wzorca niedostępna."))
    } else if count == 0 {
        Some(String::from_str("Brak wzorca — najpierw „Ustaw wzorzec”."))
    } else {
        None
    }
}

/// The number of findings a scan reports as changes or warnings.
pub fn changed_count(new: usize, modified: usize, removed: usize, warn: usize) -> (c: usize)
    requires
        new + modified + removed + warn <= usize::MAX,
    ensures
        c == new + modified + removed + warn,
{
    new + modified + removed + warn
}

/// The status after a scan of `scanned` files with `changed` changes or
/// warnings, marked when the scan was cut short or the baseline's digest no
/// longer matches, and ending with the scan's scope note (see
/// [`crate::scope::scope_note`]; empty when the scope agrees).
pub open spec fn scan_status_of(scanned: nat, changed: nat, truncated: bool, intact: bool, scope: Seq<char>) -> Seq<char> {
    "Przeskanowano "@ + dec_text(scanned) + " plików: "@ + dec_text(changed) + " zmian/ostrzeżeń"@
        + truncated_note(truncated) + "."@ + (if intact {
        ""@
    } else {
        "  ⚠ WZORZEC NARUSZONY"@
    }) + scope
}

/// The status line of a finished scan.
pub fn scan_status(scanned: usize, changed: usize, truncated: bool, intact: bool, scope: &str) -> (r: String)
    ensures
        r@ == scan_status_of(scanned as nat, changed as nat, truncated, intact, scope@),
{
    let mut r = String::from_str("Przeskanowano ");
    r.append(u64_text(scanned as u64).as_str());
    r.append(" plików: ");
    r.append(u64_text(changed as u64).as_str());
    r.append(" zmian/ostrzeżeń");
    r.append(truncated_text(truncated));
    r.append(".");
    if !intact {
        r.append("  ⚠ WZORZEC NARUSZONY");
    } else {
        proof {
            reveal_strlit("");
            assert(r@ + ""@ =~= r@);
        }
    }
    r.append(scope);
    r
}

/// The status of a scan whose diff failed.
pub fn scan_failed(e: &str) -> (r: String)
    ensures
        r@ == "Błąd skanu: "@ + e@,
{
    let mut r = String::from_str("Błąd skanu: ");
    r.append(e);
    r
}

/// The four tiles of the storage view (total, used, free, use in percent): all
/// dashes when the size query failed (a total of 0), else the formatted texts
/// given.
pub fn disk_tiles(st: &Storage, total: &str, used: &str, free: &str, pct: &str) -> (r: (String, String, String, String))
    ensures
        st.total_bytes == 0 ==> r.0@ == "—"@ && r.1@ == "—"@ && r.2@ == "—"@ && r.3@ == "—"@,
        st.total_bytes != 0 ==> r.0@ == total@ && r.1@ == used@ && r.2@ == free@ && r.3@ == pct@,
{
    if st.total_bytes == 0 {
        (String::from_str("—"), String::from_str("—"), String::from_str("—"), String::from_str("—"))
    } else {
        (String::from_str(total), String::from_str(used), String::from_str(free), String::from_str(pct))
    }
}

/// A whole percentage as the storage view shows it, e.g. `42%`.
pub fn percent_text(p: u64) -> (r: String)
    ensures
        r@ == dec_text(p as nat) + "%"@,
{
    let mut r = u64_text(p);
    r.append("%");
    r
}

} // verus!
