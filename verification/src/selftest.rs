//! The headless self-test's checks on the system and process snapshot.

use vstd::prelude::*;
use crate::text::{trim, trimmed};
use crate::num::{dec_text, u64_text};
use crate::sys::Overview;

verus! {

/// The snapshot check: a non-blank system identity, at least one CPU, and a
/// process count that agrees with the process list's length.
pub open spec fn system_check_of(system: Seq<char>, cpus: u32, processes: usize, list_len: usize) -> Result<(), Seq<char>> {
    if trim(system).len() == 0 {
        Err("overview system identity is empty"@)
    } else if cpus == 0 {
        Err("overview cpu count is 0"@)
    } else if list_len != processes {
        Err("process count "@ + dec_text(processes as nat) + " disagrees with the list length "@ + dec_text(list_len as nat))
    } else {
        Ok(())
    }
}

/// Check an overview against the length of the process list taken with it.
pub fn system_check(ov: &Overview, list_len: usize) -> (r: Result<(), String>)
    ensures
        match r {
            Ok(()) => system_check_of(ov.system@, ov.cpus, ov.processes, list_len) == Ok::<(), Seq<char>>(()),
            Err(m) => system_check_of(ov.system@, ov.cpus, ov.processes, list_len) == Err::<(), Seq<char>>(m@),
        },
{
    if trimmed(ov.system.as_str()).len() == 0 {
        return Err(String::from_str("overview system identity is empty"));
    }
    if ov.cpus == 0 {
        return Err(String::from_str("overview cpu count is 0"));
    }
    if list_len != ov.processes {
        let mut m = String::from_str("process count ");
        m.append(u64_text(ov.processes as u64).as_str());
        m.append(" disagrees with the list length ");
        m.append(u64_text(list_len as u64).as_str());
        return Err(m);
    }
    Ok(())
}

/// Law: an overview assembled from a process list (whose process count is the
/// list's length) never fails the self-test's count check; with a non-blank
/// identity and at least one CPU the check passes.
pub proof fn law_snapshot_counts_agree(system: Seq<char>, cpus: u32, n: usize)
    ensures
        system_check_of(system, cpus, n, n) != Err::<(), Seq<char>>(
            "process count "@ + dec_text(n as nat) + " disagrees with the list length "@ + dec_text(n as nat),
        ),
        trim(system).len() > 0 && cpus > 0 ==> system_check_of(system, cpus, n, n) == Ok::<(), Seq<char>>(()),
{
    reveal_strlit("overview system identity is empty");
    reveal_strlit("overview cpu count is 0");
    reveal_strlit("process count ");
    let a = "overview system identity is empty"@;
    let b = "overview cpu count is 0"@;
    let c = "process count "@ + dec_text(n as nat) + " disagrees with the list length "@ + dec_text(n as nat);
    assert(a[0] != c[0]);
    assert(b[0] != c[0] || b[1] != c[1]);
}

} // verus!
