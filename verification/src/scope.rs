//! The scope of an integrity scan. The directory list changes between scans;
//! a baseline file under no directory this scan walked was never looked for,
//! so it is not reported as removed: such files are counted, and the status
//! line names the count and the directories dropped from or added to the
//! baseline's list. What counts as unchecked comes from the directories the
//! scan walked alone, never from the baseline's record of its own list.

use vstd::prelude::*;
use crate::control::Status;
use crate::text::{contains, join, join_with, strings_view, to_chars, lemma_contains_concat, lemma_contains_trans, lemma_join_contains};
use crate::num::{dec_text, u64_text};
use crate::procs::contains_string;

verus! {

/// One finding of a scan, as the security view lists it.
#[derive(Debug)]
pub struct Finding {
    /// The file.
    pub path: String,
    /// What the scan found.
    pub status: Status,
    /// The explanation shown beside it.
    pub detail: String,
}

/// The content of a finding: path, status, detail.
pub type FindingView = (Seq<char>, Status, Seq<char>);

/// The content of a [`Finding`].
pub open spec fn finding_view(f: Finding) -> FindingView {
    (f.path@, f.status, f.detail@)
}

/// The contents of some findings.
pub open spec fn findings_view(fs: Seq<Finding>) -> Seq<FindingView> {
    fs.map_values(|f: Finding| finding_view(f))
}

/// `r` starts `p`.
pub open spec fn has_prefix(p: Seq<char>, r: Seq<char>) -> bool {
    r.len() <= p.len() && p.subrange(0, r.len() as int) == r
}

/// Path `p` lies in directory `root`: it is the directory itself, or continues
/// it after a `/` (the root's own trailing `/`, or one right after it).
pub open spec fn under_root(p: Seq<char>, root: Seq<char>) -> bool {
    ||| p == root
    ||| (root.len() > 0 && root.last() == '/' && has_prefix(p, root))
    ||| (has_prefix(p, root) && p.len() > root.len() && p[root.len() as int] == '/')
}

/// Path `p` lies in one of the directories `roots`.
pub open spec fn in_scope(p: Seq<char>, roots: Seq<Seq<char>>) -> bool {
    exists|k: int| 0 <= k < roots.len() && under_root(p, #[trigger] roots[k])
}

/// A finding that is only an artefact of the scope: a removal reported for a
/// file under none of the walked directories.
pub open spec fn out_of_scope(f: FindingView, roots: Seq<Seq<char>>) -> bool {
    f.1 == Status::Removed && !in_scope(f.0, roots)
}

/// The findings to list, in order, and how many were out of scope.
pub open spec fn scope_split_of(fs: Seq<FindingView>, roots: Seq<Seq<char>>) -> (Seq<FindingView>, nat)
    decreases fs.len(),
{
    if fs.len() == 0 {
        (Seq::empty(), 0)
    } else {
        let (kept, n) = scope_split_of(fs.drop_last(), roots);
        if out_of_scope(fs.last(), roots) {
            (kept, n + 1)
        } else {
            (kept.push(fs.last()), n)
        }
    }
}

/// Whether `r` starts `p`.
fn starts_with_chars(p: &Vec<char>, r: &Vec<char>) -> (b: bool)
    ensures
        b == has_prefix(p@, r@),
{
    if r.len() > p.len() {
        return false;
    }
    let mut i: usize = 0;
    while i < r.len()
        invariant
            r@.len() <= p@.len(),
            i <= r@.len(),
            forall|j: int| 0 <= j < i ==> p@[j] == r@[j],
        decreases r@.len() - i,
    {
        if p[i] != r[i] {
            assert(p@.subrange(0, r@.len() as int)[i as int] != r@[i as int]);
            return false;
        }
        i = i + 1;
    }
    assert(p@.subrange(0, r@.len() as int) =~= r@);
    true
}

/// Whether path `p` lies in directory `root`.
fn under_root_chars(p: &Vec<char>, root: &Vec<char>) -> (b: bool)
    ensures
        b == under_root(p@, root@),
{
    let pre = starts_with_chars(p, root);
    if pre && p.len() == root.len() {
        assert(p@ =~= p@.subrange(0, root@.len() as int));
        return true;
    }
    if root.len() > 0 && root[root.len() - 1] == '/' && pre {
        return true;
    }
    if pre && p.len() > root.len() && p[root.len()] == '/' {
        return true;
    }
    proof {
        if p@ == root@ {
            assert(p@.subrange(0, root@.len() as int) =~= root@);
        }
    }
    false
}

/// Whether path `p` lies in one of `roots`.
fn in_scope_exec(p: &String, roots: &Vec<String>) -> (b: bool)
    ensures
        b == in_scope(p@, strings_view(roots@)),
{
    let pv = to_chars(p.as_str());
    let ghost rs = strings_view(roots@);
    let n = roots.len();
    for k in 0..n
        invariant
            n == roots@.len(),
            rs == strings_view(roots@),
            pv@ == p@,
            forall|j: int| 0 <= j < k ==> !under_root(p@, #[trigger] rs[j]),
    {
        let rv = to_chars(roots[k].as_str());
        assert(rs[k as int] == roots@[k as int]@);
        if under_root_chars(&pv, &rv) {
            return true;
        }
    }
    false
}

/// Split the findings of a scan that walked `roots`: the findings to list, in
/// order, and the number of removals reported for files under none of those
/// directories, which are counted instead of listed.
pub fn scope_split(findings: &Vec<Finding>, roots: &Vec<String>) -> (r: (Vec<Finding>, usize))
    ensures
        (findings_view(r.0@), r.1 as nat) == scope_split_of(findings_view(findings@), strings_view(roots@)),
{
    let ghost fv = findings_view(findings@);
    let ghost rs = strings_view(roots@);
    let mut kept: Vec<Finding> = Vec::new();
    let mut out: usize = 0;
    let n = findings.len();
    for i in 0..n
        invariant
            n == findings@.len(),
            fv == findings_view(findings@),
            rs == strings_view(roots@),
            (findings_view(kept@), out as nat) == scope_split_of(fv.take(i as int), rs),
            out <= i,
    {
        assert(fv.take(i + 1).drop_last() =~= fv.take(i as int));
        assert(fv.take(i + 1).last() == finding_view(findings@[i as int]));
        let f = &findings[i];
        let removed = match f.status {
            Status::Removed => true,
            _ => false,
        };
        if removed && !in_scope_exec(&f.path, roots) {
            out = out + 1;
        } else {
            let ghost before = findings_view(kept@);
            kept.push(Finding { path: f.path.clone(), status: f.status, detail: f.detail.clone() });
            assert(findings_view(kept@) =~= before.push(fv[i as int]));
        }
    }
    assert(fv.take(n as int) =~= fv);
    (kept, out)
}

/// The items of `a` that are not in `b`, in order.
pub open spec fn missing(a: Seq<Seq<char>>, b: Seq<Seq<char>>) -> Seq<Seq<char>>
    decreases a.len(),
{
    if a.len() == 0 {
        Seq::empty()
    } else if b.contains(a.last()) {
        missing(a.drop_last(), b)
    } else {
        missing(a.drop_last(), b).push(a.last())
    }
}

/// The pieces of the scope note: the count of files out of scope, the
/// directories dropped, the directories added, each only when there is one.
pub open spec fn scope_parts(out: nat, dropped: Seq<Seq<char>>, added: Seq<Seq<char>>) -> Seq<Seq<char>> {
    (if out > 0 { seq![dec_text(out) + " plików poza zakresem skanu"@] } else { Seq::empty() })
        + (if dropped.len() > 0 { seq!["pominięto: "@ + join(dropped, ", "@)] } else { Seq::empty() })
        + (if added.len() > 0 { seq!["dodano: "@ + join(added, ", "@)] } else { Seq::empty() })
}

/// The scope note of the status line for a scan over `scan_roots` against a
/// baseline taken over `baseline_roots`, `out` files being out of scope:
/// nothing when all agree, else a `⚠ ZAKRES:` note with the pieces.
pub open spec fn scope_note_of(out: nat, baseline_roots: Seq<Seq<char>>, scan_roots: Seq<Seq<char>>) -> Seq<char> {
    let parts = scope_parts(out, missing(baseline_roots, scan_roots), missing(scan_roots, baseline_roots));
    if parts.len() == 0 {
        Seq::empty()
    } else {
        "  ⚠ ZAKRES: "@ + join(parts, "; "@)
    }
}

/// The items of `a` not in `b`.
fn missing_exec(a: &Vec<String>, b: &Vec<String>) -> (r: Vec<String>)
    ensures
        strings_view(r@) == missing(strings_view(a@), strings_view(b@)),
{
    let ghost av = strings_view(a@);
    let mut r: Vec<String> = Vec::new();
    let n = a.len();
    for i in 0..n
        invariant
            n == a@.len(),
            av == strings_view(a@),
            strings_view(r@) == missing(av.take(i as int), strings_view(b@)),
    {
        assert(av.take(i + 1).drop_last() =~= av.take(i as int));
        assert(av.take(i + 1).last() == a@[i as int]@);
        if !contains_string(b, &a[i]) {
            let ghost before = strings_view(r@);
            r.push(a[i].clone());
            assert(strings_view(r@) =~= before.push(a@[i as int]@));
        }
    }
    assert(av.take(n as int) =~= av);
    r
}

/// The scope note for the status line (see [`scope_note_of`]).
pub fn scope_note(out: usize, baseline_roots: &Vec<String>, scan_roots: &Vec<String>) -> (r: String)
    ensures
        r@ == scope_note_of(out as nat, strings_view(baseline_roots@), strings_view(scan_roots@)),
{
    let dropped = missing_exec(baseline_roots, scan_roots);
    let added = missing_exec(scan_roots, baseline_roots);
    let mut parts: Vec<String> = Vec::new();
    if out > 0 {
        let mut p = u64_text(out as u64);
        p.append(" plików poza zakresem skanu");
        parts.push(p);
    }
    if dropped.len() > 0 {
        let mut p = String::from_str("pominięto: ");
        p.append(join_with(&dropped, ", ").as_str());
        parts.push(p);
    }
    if added.len() > 0 {
        let mut p = String::from_str("dodano: ");
        p.append(join_with(&added, ", ").as_str());
        parts.push(p);
    }
    let ghost want = scope_parts(
        out as nat,
        missing(strings_view(baseline_roots@), strings_view(scan_roots@)),
        missing(strings_view(scan_roots@), strings_view(baseline_roots@)),
    );
    assert(strings_view(parts@) =~= want);
    if parts.len() == 0 {
        String::new()
    } else {
        let mut r = String::from_str("  ⚠ ZAKRES: ");
        r.append(join_with(&parts, "; ").as_str());
        r
    }
}

/// What the split keeps and counts.
proof fn lemma_scope_split(fs: Seq<FindingView>, roots: Seq<Seq<char>>)
    ensures
        scope_split_of(fs, roots).0.len() + scope_split_of(fs, roots).1 == fs.len(),
        forall|f: FindingView| #[trigger] scope_split_of(fs, roots).0.contains(f) <==> (fs.contains(f)
            && !out_of_scope(f, roots)),
    decreases fs.len(),
{
    if fs.len() > 0 {
        let q = fs.drop_last();
        lemma_scope_split(q, roots);
        let (kept, n) = scope_split_of(q, roots);
        assert forall|f: FindingView| #[trigger] scope_split_of(fs, roots).0.contains(f) <==> (
        fs.contains(f) && !out_of_scope(f, roots)) by {
            if fs.contains(f) {
                let k = choose|k: int| 0 <= k < fs.len() && fs[k] == f;
                if k < fs.len() - 1 {
                    assert(q[k] == f);
                }
            }
            if q.contains(f) {
                let k = choose|k: int| 0 <= k < q.len() && q[k] == f;
                assert(fs[k] == f);
            }
            if !out_of_scope(fs.last(), roots) {
                let kp = kept.push(fs.last());
                assert(kp[kept.len() as int] == fs.last());
                assert(fs[fs.len() - 1] == fs.last());
                if kp.contains(f) {
                    let k = choose|k: int| 0 <= k < kp.len() && kp[k] == f;
                    if k < kept.len() {
                        assert(kept[k] == f);
                    }
                }
                if kept.contains(f) {
                    let k = choose|k: int| 0 <= k < kept.len() && kept[k] == f;
                    assert(kp[k] == f);
                }
            }
        }
    }
}

/// Nothing of a list is missing from the list itself.
proof fn lemma_missing_self(a: Seq<Seq<char>>, b: Seq<Seq<char>>)
    requires
        forall|i: int| 0 <= i < a.len() ==> b.contains(#[trigger] a[i]),
    ensures
        missing(a, b) == Seq::<Seq<char>>::empty(),
    decreases a.len(),
{
    if a.len() > 0 {
        assert(b.contains(a[a.len() - 1]));
        lemma_missing_self(a.drop_last(), b);
    }
}

/// Law: a scan's scope never hides a real removal. The findings listed are
/// exactly those that are not removals outside the walked directories, every
/// finding is either listed or counted, and a removal under a walked directory
/// is always listed.
pub proof fn law_scope_fail_closed(fs: Seq<FindingView>, roots: Seq<Seq<char>>)
    ensures
        scope_split_of(fs, roots).0.len() + scope_split_of(fs, roots).1 == fs.len(),
        forall|f: FindingView| #[trigger] scope_split_of(fs, roots).0.contains(f) <==> (fs.contains(f)
            && !out_of_scope(f, roots)),
        forall|f: FindingView| fs.contains(f) && f.1 == Status::Removed && in_scope(f.0, roots)
            ==> #[trigger] scope_split_of(fs, roots).0.contains(f),
{
    lemma_scope_split(fs, roots);
}

/// Law: a scan over the baseline's own directories says nothing about scope:
/// when every finding lies under those directories, all are listed, none is
/// counted out of scope, and the status line gets no scope note.
pub proof fn law_own_roots_silent(fs: Seq<FindingView>, roots: Seq<Seq<char>>)
    requires
        forall|i: int| 0 <= i < fs.len() ==> in_scope(#[trigger] fs[i].0, roots),
    ensures
        scope_split_of(fs, roots) == (fs, 0nat),
        scope_note_of(scope_split_of(fs, roots).1, roots, roots) == Seq::<char>::empty(),
    decreases fs.len(),
{
    if fs.len() > 0 {
        law_own_roots_silent(fs.drop_last(), roots);
        assert(in_scope(fs[fs.len() - 1].0, roots));
        assert(fs.drop_last().push(fs.last()) =~= fs);
    }
    assert forall|i: int| 0 <= i < roots.len() implies roots.contains(#[trigger] roots[i]) by {}
    lemma_missing_self(roots, roots);
    assert(scope_parts(0, Seq::empty(), Seq::empty()) =~= Seq::<Seq<char>>::empty());
}

/// How many findings report a change or a warning (anything but intact).
pub open spec fn changes_of(fs: Seq<FindingView>) -> nat
    decreases fs.len(),
{
    if fs.len() == 0 {
        0
    } else {
        changes_of(fs.drop_last()) + (if fs.last().1 == Status::Intact { 0nat } else { 1nat })
    }
}

/// The number of listed findings that report a change or a warning.
pub fn count_changes(fs: &Vec<Finding>) -> (c: usize)
    ensures
        c as nat == changes_of(findings_view(fs@)),
{
    let ghost fv = findings_view(fs@);
    let mut c: usize = 0;
    let n = fs.len();
    for i in 0..n
        invariant
            n == fs@.len(),
            fv == findings_view(fs@),
            c as nat == changes_of(fv.take(i as int)),
            c <= i,
    {
        assert(fv.take(i + 1).drop_last() =~= fv.take(i as int));
        assert(fv.take(i + 1).last() == finding_view(fs@[i as int]));
        match fs[i].status {
            Status::Intact => {},
            _ => c = c + 1,
        }
    }
    assert(fv.take(n as int) =~= fv);
    c
}

/// Law: the scope note names every directory of the baseline's list that the
/// scan did not walk, and every walked directory the baseline's list lacks: a
/// directory is among the dropped ones exactly when it is in the baseline's
/// list and not in the scan's, among the added ones exactly when it is in the
/// scan's list and not in the baseline's, and each such directory occurs in
/// the note's text.
pub proof fn law_scope_names_roots(out: nat, baseline_roots: Seq<Seq<char>>, scan_roots: Seq<Seq<char>>, x: Seq<char>)
    ensures
        missing(baseline_roots, scan_roots).contains(x) <==> (baseline_roots.contains(x)
            && !scan_roots.contains(x)),
        missing(scan_roots, baseline_roots).contains(x) <==> (scan_roots.contains(x)
            && !baseline_roots.contains(x)),
        baseline_roots.contains(x) && !scan_roots.contains(x) ==> contains(
            scope_note_of(out, baseline_roots, scan_roots),
            x,
        ),
        scan_roots.contains(x) && !baseline_roots.contains(x) ==> contains(
            scope_note_of(out, baseline_roots, scan_roots),
            x,
        ),
{
    lemma_missing_contains(baseline_roots, scan_roots, x);
    lemma_missing_contains(scan_roots, baseline_roots, x);
    let d = missing(baseline_roots, scan_roots);
    let a = missing(scan_roots, baseline_roots);
    let c0: Seq<Seq<char>> = if out > 0 { seq![dec_text(out) + " plików poza zakresem skanu"@] } else { Seq::empty() };
    let c1: Seq<Seq<char>> = if d.len() > 0 { seq!["pominięto: "@ + join(d, ", "@)] } else { Seq::empty() };
    let c2: Seq<Seq<char>> = if a.len() > 0 { seq!["dodano: "@ + join(a, ", "@)] } else { Seq::empty() };
    let parts = scope_parts(out, d, a);
    assert(parts == c0 + c1 + c2);
    let note = scope_note_of(out, baseline_roots, scan_roots);
    if d.contains(x) {
        let k = choose|k: int| 0 <= k < d.len() && d[k] == x;
        lemma_join_contains(d, ", "@, k);
        let part = "pominięto: "@ + join(d, ", "@);
        lemma_contains_concat("pominięto: "@, join(d, ", "@));
        lemma_contains_trans(part, join(d, ", "@), x);
        assert(parts[c0.len() as int] == part);
        lemma_join_contains(parts, "; "@, c0.len() as int);
        lemma_contains_trans(join(parts, "; "@), part, x);
        assert(note == "  ⚠ ZAKRES: "@ + join(parts, "; "@));
        lemma_contains_concat("  ⚠ ZAKRES: "@, join(parts, "; "@));
        lemma_contains_trans(note, join(parts, "; "@), x);
    }
    if a.contains(x) {
        let k = choose|k: int| 0 <= k < a.len() && a[k] == x;
        lemma_join_contains(a, ", "@, k);
        let part = "dodano: "@ + join(a, ", "@);
        lemma_contains_concat("dodano: "@, join(a, ", "@));
        lemma_contains_trans(part, join(a, ", "@), x);
        assert(parts[(c0.len() + c1.len()) as int] == part);
        lemma_join_contains(parts, "; "@, (c0.len() + c1.len()) as int);
        lemma_contains_trans(join(parts, "; "@), part, x);
        assert(note == "  ⚠ ZAKRES: "@ + join(parts, "; "@));
        lemma_contains_concat("  ⚠ ZAKRES: "@, join(parts, "; "@));
        lemma_contains_trans(note, join(parts, "; "@), x);
    }
}

/// What `missing` holds.
proof fn lemma_missing_contains(a: Seq<Seq<char>>, b: Seq<Seq<char>>, x: Seq<char>)
    ensures
        missing(a, b).contains(x) <==> (a.contains(x) && !b.contains(x)),
    decreases a.len(),
{
    if a.len() > 0 {
        let q = a.drop_last();
        lemma_missing_contains(q, b, x);
        let m = missing(q, b);
        if a.contains(x) {
            let i = choose|i: int| 0 <= i < a.len() && a[i] == x;
            if i < a.len() - 1 {
                assert(q[i] == x);
            }
        }
        if q.contains(x) {
            let i = choose|i: int| 0 <= i < q.len() && q[i] == x;
            assert(a[i] == x);
        }
        assert(a[a.len() - 1] == a.last());
        if !b.contains(a.last()) {
            let mp = m.push(a.last());
            assert(mp[m.len() as int] == a.last());
            if mp.contains(x) {
                let i = choose|i: int| 0 <= i < mp.len() && mp[i] == x;
                if i < m.len() {
                    assert(m[i] == x);
                }
            }
            if m.contains(x) {
                let i = choose|i: int| 0 <= i < m.len() && m[i] == x;
                assert(mp[i] == x);
            }
        }
    }
}

} // verus!
