//! Where the Security tab keeps its baseline database.

use vstd::prelude::*;

verus! {

/// `$HOME/.local/share/eos-guard/baseline.db` for a home directory `home`
/// (joined as a path: a separator is added unless `home` is empty or already
/// ends in `/`), or `/tmp/eos-guard.db` without one.
pub open spec fn baseline_path(home: Option<Seq<char>>) -> Seq<char> {
    match home {
        Some(h) => h + (if h.len() > 0 && h.last() != '/' {
            "/"@
        } else {
            Seq::<char>::empty()
        }) + ".local/share/eos-guard/baseline.db"@,
        None => "/tmp/eos-guard.db"@,
    }
}

/// The baseline database path for the home directory `home` (the value of
/// `HOME`, if set).
pub fn baseline_db_for(home: Option<&str>) -> (p: String)
    ensures
        p@ == baseline_path(match home {
            Some(h) => Some(h@),
            None => None,
        }),
{
    match home {
        Some(h) => {
            let v = crate::text::to_chars(h);
            let mut p = String::from_str(h);
            if v.len() > 0 && v[v.len() - 1] != '/' {
                p.append("/");
            }
            p.append(".local/share/eos-guard/baseline.db");
            p
        },
        None => String::from_str("/tmp/eos-guard.db"),
    }
}

} // verus!
