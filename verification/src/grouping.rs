//! The process list as the Processes tab shows it: filtered by a search text,
//! grouped by program, ranked by private memory (heaviest first), with one
//! header row per program that runs more than once.

use vstd::prelude::*;
use crate::text::{
    contains, contains_chars, join, join_comma, lex_lt, lex_less, lowercase, strings_view,
    to_chars, to_lowercase_chars, from_chars,
};
use crate::labels::{base_name, description_of, describe};
use crate::order::{sort_by, sorted_by, strict_order, lemma_insert_by_at, lemma_sort_by_step, law_sort_by_sorted};
use crate::text::{lemma_lex_lt_irreflexive, lemma_lex_lt_transitive};
use crate::sys::{Proc, ProcView};

verus! {

/// One row of the process list: a process, or the header of a program group.
#[derive(Debug)]
pub struct Row {
    /// Process id; empty for a group header.
    pub pid: String,
    /// Process or program name.
    pub name: String,
    /// Human label.
    pub label: String,
    /// Owner; empty for a group header.
    pub owner: String,
    /// The formatted private memory. A group header gets its formatted total
    /// from [`with_header_memory`]; [`build_rows`] leaves it empty.
    pub memory: String,
    /// Private memory in bytes: the process's, or the group's total.
    pub mem_bytes: u64,
    /// Accumulated CPU time; empty for a group header.
    pub cpu_time: String,
    /// The open schemes, joined with `, ` (a group header: the union over its
    /// processes, in first-seen order).
    pub caps: String,
    /// This row is a group header.
    pub is_group: bool,
    /// The group is expanded (headers only).
    pub expanded: bool,
    /// The row is a process nested under an expanded group.
    pub indent: bool,
    /// Number of processes in the group (headers only).
    pub count: i32,
}

/// The mathematical content of a [`Row`].
pub struct RowView {
    pub pid: Seq<char>,
    pub name: Seq<char>,
    pub label: Seq<char>,
    pub owner: Seq<char>,
    pub memory: Seq<char>,
    pub mem_bytes: u64,
    pub cpu_time: Seq<char>,
    pub caps: Seq<char>,
    pub is_group: bool,
    pub expanded: bool,
    pub indent: bool,
    pub count: i32,
}

impl View for Row {
    type V = RowView;

    open spec fn view(&self) -> RowView {
        RowView {
            pid: self.pid@,
            name: self.name@,
            label: self.label@,
            owner: self.owner@,
            memory: self.memory@,
            mem_bytes: self.mem_bytes,
            cpu_time: self.cpu_time@,
            caps: self.caps@,
            is_group: self.is_group,
            expanded: self.expanded,
            indent: self.indent,
            count: self.count,
        }
    }
}

/// The views of a sequence of processes.
pub open spec fn procs_view(ps: Seq<Proc>) -> Seq<ProcView> {
    ps.map_values(|p: Proc| p@)
}

/// The views of the processes at positions `idx` of `ps`.
pub open spec fn at_views(ps: Seq<Proc>, idx: Seq<usize>) -> Seq<ProcView> {
    idx.map_values(|k: usize| ps[k as int]@)
}

/// The views of a sequence of rows.
pub open spec fn rows_view(rs: Seq<Row>) -> Seq<RowView> {
    rs.map_values(|r: Row| r@)
}

/// A process passes the search `needle` (already lower-case): an empty needle
/// passes everything; otherwise it must occur in the lower-cased name, the
/// lower-cased label, or the pid.
pub open spec fn proc_matches(p: ProcView, needle: Seq<char>) -> bool {
    ||| needle.len() == 0
    ||| contains(lowercase(p.name), needle)
    ||| contains(lowercase(p.label), needle)
    ||| contains(p.pid, needle)
}

/// The processes that pass the search, in their original order.
pub open spec fn keep(ps: Seq<ProcView>, needle: Seq<char>) -> Seq<ProcView>
    decreases ps.len(),
{
    if ps.len() == 0 {
        Seq::<ProcView>::empty()
    } else if proc_matches(ps.last(), needle) {
        keep(ps.drop_last(), needle).push(ps.last())
    } else {
        keep(ps.drop_last(), needle)
    }
}

/// A program group: its name and its processes.
pub type Group = (Seq<char>, Seq<ProcView>);

/// Index of the group called `name` in `gs` (`gs.len()` if there is none).
pub open spec fn find_group(gs: Seq<Group>, name: Seq<char>) -> nat
    decreases gs.len(),
{
    if gs.len() == 0 {
        0
    } else if gs[0].0 == name {
        0
    } else {
        1 + find_group(gs.drop_first(), name)
    }
}

/// The processes grouped by name: groups in order of their first process,
/// each holding its processes in their original order.
pub open spec fn groups_of(ps: Seq<ProcView>) -> Seq<Group>
    decreases ps.len(),
{
    if ps.len() == 0 {
        Seq::<Group>::empty()
    } else {
        let g = groups_of(ps.drop_last());
        let p = ps.last();
        let j = find_group(g, p.name);
        if j < g.len() {
            g.update(j as int, (g[j as int].0, g[j as int].1.push(p)))
        } else {
            g.push((p.name, seq![p]))
        }
    }
}

/// Total private memory of some processes.
pub open spec fn mem_total(ms: Seq<ProcView>) -> nat
    decreases ms.len(),
{
    if ms.len() == 0 {
        0
    } else {
        mem_total(ms.drop_last()) + ms.last().mem_bytes as nat
    }
}

/// Groups rank by total memory, heaviest first, ties by name.
pub open spec fn group_before(a: Group, b: Group) -> bool {
    ||| mem_total(a.1) > mem_total(b.1)
    ||| (mem_total(a.1) == mem_total(b.1) && lex_lt(a.0, b.0))
}

/// Processes rank by private memory, heaviest first.
pub open spec fn mem_before(a: ProcView, b: ProcView) -> bool {
    a.mem_bytes > b.mem_bytes
}

/// The group ranking as a relation.
pub open spec fn by_total() -> spec_fn(Group, Group) -> bool {
    |a: Group, b: Group| group_before(a, b)
}

/// The process ranking as a relation.
pub open spec fn by_mem() -> spec_fn(ProcView, ProcView) -> bool {
    |a: ProcView, b: ProcView| mem_before(a, b)
}

/// `acc` with each item of `more` not yet present appended, in order.
pub open spec fn add_new(acc: Seq<Seq<char>>, more: Seq<Seq<char>>) -> Seq<Seq<char>>
    decreases more.len(),
{
    if more.len() == 0 {
        acc
    } else {
        let a = add_new(acc, more.drop_last());
        if a.contains(more.last()) {
            a
        } else {
            a.push(more.last())
        }
    }
}

/// The union of the processes' resources, in first-seen order.
pub open spec fn union_resources(ms: Seq<ProcView>) -> Seq<Seq<char>>
    decreases ms.len(),
{
    if ms.len() == 0 {
        Seq::<Seq<char>>::empty()
    } else {
        add_new(union_resources(ms.drop_last()), ms.last().resources)
    }
}

/// The row of a single process.
pub open spec fn leaf_view(p: ProcView, indent: bool) -> RowView {
    RowView {
        pid: p.pid,
        name: p.name,
        label: p.label,
        owner: p.owner,
        memory: p.memory,
        mem_bytes: p.mem_bytes,
        cpu_time: p.cpu_time,
        caps: join(p.resources, ", "@),
        is_group: false,
        expanded: false,
        indent: indent,
        count: 0,
    }
}

/// The header row of a program group, its memory text not yet filled (see
/// [`with_header_memory`]).
pub open spec fn header_view(g: Group, expanded: bool) -> RowView {
    RowView {
        pid: Seq::<char>::empty(),
        name: g.0,
        label: description_of(base_name(g.0)),
        owner: Seq::<char>::empty(),
        memory: Seq::<char>::empty(),
        mem_bytes: mem_total(g.1) as u64,
        cpu_time: Seq::<char>::empty(),
        caps: join(union_resources(g.1), ", "@),
        is_group: true,
        expanded: expanded,
        indent: false,
        count: g.1.len() as i32,
    }
}

/// The nested rows of the processes of a group, heaviest first.
pub open spec fn leaves(ms: Seq<ProcView>) -> Seq<RowView> {
    ms.map_values(|p: ProcView| leaf_view(p, true))
}

/// The rows of one group: a lone process is a plain row; otherwise a header,
/// followed (when the group is expanded) by its processes, heaviest first.
pub open spec fn group_rows(g: Group, expanded: Seq<Seq<char>>) -> Seq<RowView> {
    if g.1.len() == 1 {
        seq![leaf_view(g.1[0], false)]
    } else if expanded.contains(g.0) {
        seq![header_view(g, true)] + leaves(sort_by(g.1, by_mem()))
    } else {
        seq![header_view(g, false)]
    }
}

/// The rows of the groups, in order.
pub open spec fn rows_of(gs: Seq<Group>, expanded: Seq<Seq<char>>) -> Seq<RowView>
    decreases gs.len(),
{
    if gs.len() == 0 {
        Seq::<RowView>::empty()
    } else {
        rows_of(gs.drop_last(), expanded) + group_rows(gs.last(), expanded)
    }
}

/// The ranked groups of the processes that pass the search.
pub open spec fn ranked_groups(ps: Seq<ProcView>, needle: Seq<char>) -> Seq<Group> {
    sort_by(groups_of(keep(ps, needle)), by_total())
}

/// Every group total fits in a `u64` (summing a larger group overflows).
pub open spec fn totals_fit(ps: Seq<ProcView>, needle: Seq<char>) -> bool {
    forall|j: int| 0 <= j < groups_of(keep(ps, needle)).len() ==> mem_total(
        #[trigger] groups_of(keep(ps, needle))[j].1,
    ) <= u64::MAX
}


/// The search test on a process whose name and label are already lower-cased:
/// an empty needle passes; otherwise the needle must occur in the lower-cased
/// name, the lower-cased label, or the pid.
pub fn search_hit(lower_name: &str, lower_label: &str, pid: &str, needle: &str) -> (r: bool)
    ensures
        r == (needle@.len() == 0 || contains(lower_name@, needle@) || contains(lower_label@, needle@)
            || contains(pid@, needle@)),
{
    let nd = to_chars(needle);
    if nd.len() == 0 {
        return true;
    }
    contains_chars(&to_chars(lower_name), &nd) || contains_chars(&to_chars(lower_label), &nd)
        || contains_chars(&to_chars(pid), &nd)
}

/// Whether process `p` passes the search `nd`.
fn matches_search(p: &Proc, nd: &Vec<char>) -> (r: bool)
    ensures
        r == proc_matches(p@, nd@),
{
    let name = from_chars(&to_lowercase_chars(p.name.as_str()));
    let label = from_chars(&to_lowercase_chars(p.label.as_str()));
    search_hit(name.as_str(), label.as_str(), p.pid.as_str(), from_chars(nd).as_str())
}

/// Positions of the processes that pass the search, in order.
fn filter_indices(procs: &Vec<Proc>, nd: &Vec<char>) -> (r: Vec<usize>)
    ensures
        at_views(procs@, r@) == keep(procs_view(procs@), nd@),
        forall|i: int| 0 <= i < r@.len() ==> #[trigger] r@[i] < procs@.len(),
{
    let mut r: Vec<usize> = Vec::new();
    let n = procs.len();
    let ghost pv = procs_view(procs@);
    for i in 0..n
        invariant
            n == procs@.len(),
            pv == procs_view(procs@),
            at_views(procs@, r@) == keep(pv.take(i as int), nd@),
            forall|k: int| 0 <= k < r@.len() ==> #[trigger] r@[k] < n,
    {
        assert(pv.take(i + 1).drop_last() == pv.take(i as int));
        assert(pv.take(i + 1).last() == procs@[i as int]@);
        if matches_search(&procs[i], nd) {
            r.push(i);
            assert(at_views(procs@, r@) == keep(pv.take(i as int), nd@).push(procs@[i as int]@));
        }
    }
    assert(pv.take(n as int) == pv);
    r
}


/// `find_group` is the first index holding `name`.
proof fn lemma_find_group(gs: Seq<Group>, name: Seq<char>, j: int)
    requires
        0 <= j <= gs.len(),
        forall|i: int| 0 <= i < j ==> (#[trigger] gs[i]).0 != name,
        j == gs.len() || gs[j].0 == name,
    ensures
        find_group(gs, name) == j,
    decreases j,
{
    if j > 0 {
        assert(gs[0].0 != name);
        let t = gs.drop_first();
        assert forall|i: int| 0 <= i < j - 1 implies (#[trigger] t[i]).0 != name by {
            assert(t[i] == gs[i + 1]);
        }
        if j < gs.len() {
            assert(t[j - 1] == gs[j]);
        }
        lemma_find_group(t, name, j - 1);
    }
}

/// The groups named `names` with member positions `members`.
pub open spec fn groups_view(ps: Seq<Proc>, names: Seq<String>, members: Seq<Vec<usize>>) -> Seq<
    Group,
> {
    Seq::new(names.len(), |j: int| (names[j]@, at_views(ps, members[j]@)))
}

/// Group the kept positions by process name.
fn group_indices(procs: &Vec<Proc>, kept: &Vec<usize>) -> (r: (Vec<String>, Vec<Vec<usize>>))
    requires
        forall|i: int| 0 <= i < kept@.len() ==> #[trigger] kept@[i] < procs@.len(),
    ensures
        r.0@.len() == r.1@.len(),
        groups_view(procs@, r.0@, r.1@) == groups_of(at_views(procs@, kept@)),
        forall|j: int, i: int|
            0 <= j < r.1@.len() && 0 <= i < r.1@[j]@.len() ==> #[trigger] r.1@[j]@[i]
                < procs@.len(),
        forall|j: int| 0 <= j < r.1@.len() ==> (#[trigger] r.1@[j])@.len() > 0,
{
    let mut names: Vec<String> = Vec::new();
    let mut members: Vec<Vec<usize>> = Vec::new();
    let ghost kv = at_views(procs@, kept@);
    let n = kept.len();
    for t in 0..n
        invariant
            n == kept@.len(),
            kv == at_views(procs@, kept@),
            forall|i: int| 0 <= i < kept@.len() ==> #[trigger] kept@[i] < procs@.len(),
            names@.len() == members@.len(),
            groups_view(procs@, names@, members@) == groups_of(kv.take(t as int)),
            forall|j: int, i: int|
                0 <= j < members@.len() && 0 <= i < members@[j]@.len() ==> #[trigger] members@[j]@[i]
                    < procs@.len(),
            forall|j: int| 0 <= j < members@.len() ==> (#[trigger] members@[j])@.len() > 0,
    {
        let k = kept[t];
        let ghost g = groups_of(kv.take(t as int));
        let ghost p = procs@[k as int]@;
        assert(kv.take(t + 1).drop_last() == kv.take(t as int));
        assert(kv.take(t + 1).last() == p);
        let mut j: usize = 0;
        while j < names.len() && names[j] != procs[k].name
            invariant
                names@.len() == members@.len(),
                j <= names@.len(),
                g == groups_view(procs@, names@, members@),
                k < procs@.len(),
                p == procs@[k as int]@,
                forall|i: int| 0 <= i < j ==> (#[trigger] g[i]).0 != p.name,
            decreases names@.len() - j,
        {
            j = j + 1;
        }
        proof {
            lemma_find_group(g, p.name, j as int);
        }
        if j < names.len() {
            let mut m = members.remove(j);
            let ghost old_m = m@;
            m.push(k);
            members.insert(j, m);
            proof {
                assert(at_views(procs@, old_m.push(k)) =~= at_views(procs@, old_m).push(p));
                assert(groups_view(procs@, names@, members@) =~= g.update(
                    j as int,
                    (g[j as int].0, g[j as int].1.push(p)),
                ));
            }
        } else {
            names.push(procs[k].name.clone());
            let mut m: Vec<usize> = Vec::new();
            m.push(k);
            members.push(m);
            proof {
                assert(at_views(procs@, seq![k]) =~= seq![p]);
                assert(groups_view(procs@, names@, members@) =~= g.push((p.name, seq![p])));
            }
        }
    }
    assert(kv.take(n as int) == kv);
    (names, members)
}


/// The total of a prefix never exceeds the total of the whole.
pub proof fn lemma_mem_total_prefix(s: Seq<ProcView>, i: int)
    requires
        0 <= i <= s.len(),
    ensures
        mem_total(s.take(i)) <= mem_total(s),
    decreases s.len() - i,
{
    if i < s.len() {
        lemma_mem_total_prefix(s, i + 1);
        assert(s.take(i + 1).drop_last() == s.take(i));
    } else {
        assert(s.take(i) == s);
    }
}

/// Total private memory of the processes at positions `m`.
fn total_of(procs: &Vec<Proc>, m: &Vec<usize>) -> (t: u64)
    requires
        forall|i: int| 0 <= i < m@.len() ==> #[trigger] m@[i] < procs@.len(),
        mem_total(at_views(procs@, m@)) <= u64::MAX,
    ensures
        t == mem_total(at_views(procs@, m@)),
{
    let ghost v = at_views(procs@, m@);
    let mut acc: u64 = 0;
    let n = m.len();
    for i in 0..n
        invariant
            n == m@.len(),
            v == at_views(procs@, m@),
            forall|k: int| 0 <= k < m@.len() ==> #[trigger] m@[k] < procs@.len(),
            mem_total(v) <= u64::MAX,
            acc == mem_total(v.take(i as int)),
    {
        assert(v.take(i + 1).drop_last() == v.take(i as int));
        assert(v.take(i + 1).last() == procs@[m@[i as int] as int]@);
        proof {
            lemma_mem_total_prefix(v, i + 1);
        }
        acc = acc + procs[m[i]].mem_bytes;
    }
    assert(v.take(n as int) == v);
    acc
}

/// The groups at positions `order`.
pub open spec fn ordered(gs: Seq<Group>, order: Seq<usize>) -> Seq<Group> {
    order.map_values(|g: usize| gs[g as int])
}

/// Rank the groups: positions into `names`, heaviest total first, ties by name.
fn rank_groups(procs: &Vec<Proc>, names: &Vec<String>, members: &Vec<Vec<usize>>, totals: &Vec<u64>) -> (order: Vec<usize>)
    requires
        names@.len() == totals@.len() == members@.len(),
        forall|j: int| 0 <= j < members@.len() ==> #[trigger] totals@[j] == mem_total(
            at_views(procs@, members@[j]@),
        ),
    ensures
        ordered(groups_view(procs@, names@, members@), order@) == sort_by(
            groups_view(procs@, names@, members@),
            by_total(),
        ),
        forall|i: int| 0 <= i < order@.len() ==> #[trigger] order@[i] < members@.len(),
{
    let ghost gs = groups_view(procs@, names@, members@);
    let mut order: Vec<usize> = Vec::new();
    let n = names.len();
    for e in 0..n
        invariant
            n == names@.len() == totals@.len() == members@.len(),
            gs == groups_view(procs@, names@, members@),
            forall|j: int| 0 <= j < members@.len() ==> #[trigger] totals@[j] == mem_total(
                at_views(procs@, members@[j]@),
            ),
            ordered(gs, order@) == sort_by(gs.take(e as int), by_total()),
            forall|i: int| 0 <= i < order@.len() ==> #[trigger] order@[i] < e,
    {
        let ghost cur = ordered(gs, order@);
        let ghost x = gs[e as int];
        let mut j: usize = 0;
        while j < order.len() && !(totals[e] > totals[order[j]] || (totals[e] == totals[order[j]]
            && lex_less(&names[e], &names[order[j]])))
            invariant
                n == names@.len() == totals@.len() == members@.len(),
                gs == groups_view(procs@, names@, members@),
                forall|q: int| 0 <= q < members@.len() ==> #[trigger] totals@[q] == mem_total(
                    at_views(procs@, members@[q]@),
                ),
                e < n,
                x == gs[e as int],
                cur == ordered(gs, order@),
                forall|i: int| 0 <= i < order@.len() ==> #[trigger] order@[i] < e,
                j <= order@.len(),
                forall|i: int| 0 <= i < j ==> !group_before(x, #[trigger] cur[i]),
            decreases order@.len() - j,
        {
            assert(cur[j as int] == gs[order@[j as int] as int]);
            j = j + 1;
        }
        proof {
            if j < order@.len() {
                assert(cur[j as int] == gs[order@[j as int] as int]);
            }
            lemma_insert_by_at(cur, x, by_total(), j as int);
            lemma_sort_by_step(gs, e as int, by_total());
        }
        order.insert(j, e);
        assert(ordered(gs, order@) =~= cur.insert(j as int, x));
    }
    assert(gs.take(n as int) =~= gs);
    order
}

/// Positions `m` reordered by private memory, heaviest first, keeping the order
/// of equal sizes.
fn rank_members(procs: &Vec<Proc>, m: &Vec<usize>) -> (r: Vec<usize>)
    requires
        forall|i: int| 0 <= i < m@.len() ==> #[trigger] m@[i] < procs@.len(),
    ensures
        at_views(procs@, r@) == sort_by(at_views(procs@, m@), by_mem()),
        forall|i: int| 0 <= i < r@.len() ==> #[trigger] r@[i] < procs@.len(),
{
    let ghost mv = at_views(procs@, m@);
    let mut r: Vec<usize> = Vec::new();
    let n = m.len();
    for e in 0..n
        invariant
            n == m@.len(),
            mv == at_views(procs@, m@),
            forall|i: int| 0 <= i < m@.len() ==> #[trigger] m@[i] < procs@.len(),
            at_views(procs@, r@) == sort_by(mv.take(e as int), by_mem()),
            forall|i: int| 0 <= i < r@.len() ==> #[trigger] r@[i] < procs@.len(),
    {
        let ghost cur = at_views(procs@, r@);
        let ghost x = mv[e as int];
        let me = procs[m[e]].mem_bytes;
        let mut j: usize = 0;
        while j < r.len() && !(me > procs[r[j]].mem_bytes)
            invariant
                forall|i: int| 0 <= i < r@.len() ==> #[trigger] r@[i] < procs@.len(),
                cur == at_views(procs@, r@),
                me == x.mem_bytes,
                j <= r@.len(),
                forall|i: int| 0 <= i < j ==> !mem_before(x, #[trigger] cur[i]),
            decreases r@.len() - j,
        {
            j = j + 1;
        }
        proof {
            lemma_insert_by_at(cur, x, by_mem(), j as int);
            lemma_sort_by_step(mv, e as int, by_mem());
        }
        r.insert(j, m[e]);
        assert(at_views(procs@, r@) =~= cur.insert(j as int, x));
    }
    assert(mv.take(n as int) == mv);
    r
}


/// Whether `s` is among `v`.
fn has_string(v: &Vec<String>, s: &String) -> (r: bool)
    ensures
        r == strings_view(v@).contains(s@),
{
    let n = v.len();
    for i in 0..n
        invariant
            n == v@.len(),
            forall|k: int| 0 <= k < i ==> #[trigger] v@[k]@ != s@,
    {
        if v[i] == *s {
            assert(strings_view(v@)[i as int] == s@);
            return true;
        }
    }
    assert forall|k: int| 0 <= k < strings_view(v@).len() implies #[trigger] strings_view(v@)[k]
        != s@ by {
        assert(strings_view(v@)[k] == v@[k]@);
    }
    false
}

/// The row of process `p`.
fn leaf_row(p: &Proc, indent: bool) -> (r: Row)
    ensures
        r@ == leaf_view(p@, indent),
{
    Row {
        pid: p.pid.clone(),
        name: p.name.clone(),
        label: p.label.clone(),
        owner: p.owner.clone(),
        memory: p.memory.clone(),
        mem_bytes: p.mem_bytes,
        cpu_time: p.cpu_time.clone(),
        caps: join_comma(&p.resources),
        is_group: false,
        expanded: false,
        indent: indent,
        count: 0,
    }
}

/// The union of the resources of the processes at positions `m`, first-seen order.
fn union_caps(procs: &Vec<Proc>, m: &Vec<usize>) -> (r: Vec<String>)
    requires
        forall|i: int| 0 <= i < m@.len() ==> #[trigger] m@[i] < procs@.len(),
    ensures
        strings_view(r@) == union_resources(at_views(procs@, m@)),
{
    let ghost mv = at_views(procs@, m@);
    let mut acc: Vec<String> = Vec::new();
    let n = m.len();
    for i in 0..n
        invariant
            n == m@.len(),
            mv == at_views(procs@, m@),
            forall|k: int| 0 <= k < m@.len() ==> #[trigger] m@[k] < procs@.len(),
            strings_view(acc@) == union_resources(mv.take(i as int)),
    {
        assert(mv.take(i + 1).drop_last() == mv.take(i as int));
        assert(mv.take(i + 1).last() == procs@[m@[i as int] as int]@);
        let rs = &procs[m[i]].resources;
        let ghost rv = strings_view(rs@);
        let ghost base = strings_view(acc@);
        let nr = rs.len();
        for k in 0..nr
            invariant
                nr == rs@.len(),
                rv == strings_view(rs@),
                strings_view(acc@) == add_new(base, rv.take(k as int)),
        {
            assert(rv.take(k + 1).drop_last() == rv.take(k as int));
            assert(rv.take(k + 1).last() == rs@[k as int]@);
            if !has_string(&acc, &rs[k]) {
                acc.push(rs[k].clone());
                assert(strings_view(acc@) =~= add_new(base, rv.take(k as int)).push(rs@[k as int]@));
            }
        }
        assert(rv.take(nr as int) == rv);
    }
    assert(mv.take(n as int) == mv);
    acc
}

/// The header row of a group named `name` with processes at positions `m`.
fn header_row(procs: &Vec<Proc>, name: &String, m: &Vec<usize>, total: u64, expanded: bool) -> (r: Row)
    requires
        forall|i: int| 0 <= i < m@.len() ==> #[trigger] m@[i] < procs@.len(),
        total == mem_total(at_views(procs@, m@)),
    ensures
        r@ == header_view((name@, at_views(procs@, m@)), expanded),
{
    let caps = union_caps(procs, m);
    Row {
        pid: String::new(),
        name: name.clone(),
        label: describe(name.as_str()),
        owner: String::new(),
        memory: String::new(),
        mem_bytes: total,
        cpu_time: String::new(),
        caps: join_comma(&caps),
        is_group: true,
        expanded: expanded,
        indent: false,
        count: m.len() as i32,
    }
}

/// Turn a flat process list into the rows of the process view. The processes
/// that pass the search `needle` (already lower-case) are grouped by name;
/// groups are ranked by total private memory, heaviest first, ties broken by
/// name; a program that runs once is a plain row, one that runs several times
/// a header row (summed memory, union of resources), followed — when its name
/// is in `expanded` — by its processes, heaviest first. The headers' memory
/// text is the formatted total, which the display fills in with
/// [`header_totals`] and [`with_header_memory`].
pub fn build_rows(procs: Vec<Proc>, needle: &str, expanded: &Vec<String>) -> (rows: Vec<Row>)
    requires
        totals_fit(procs_view(procs@), needle@),
    ensures
        rows_view(rows@) == rows_of(
            ranked_groups(procs_view(procs@), needle@),
            strings_view(expanded@),
        ),
{
    let nd = to_chars(needle);
    let kept = filter_indices(&procs, &nd);
    let (names, members) = group_indices(&procs, &kept);
    let ghost gs = groups_view(procs@, names@, members@);
    let ghost ex = strings_view(expanded@);
    let mut totals: Vec<u64> = Vec::new();
    let ng = members.len();
    for j in 0..ng
        invariant
            ng == members@.len() == names@.len(),
            gs == groups_view(procs@, names@, members@),
            gs == groups_of(keep(procs_view(procs@), needle@)),
            totals_fit(procs_view(procs@), needle@),
            forall|a: int, i: int|
                0 <= a < members@.len() && 0 <= i < members@[a]@.len() ==> #[trigger] members@[a]@[i]
                    < procs@.len(),
            totals@.len() == j,
            forall|q: int| 0 <= q < j ==> #[trigger] totals@[q] == mem_total(
                at_views(procs@, members@[q]@),
            ),
    {
        assert(gs[j as int].1 == at_views(procs@, members@[j as int]@));
        let t = total_of(&procs, &members[j]);
        totals.push(t);
    }
    let order = rank_groups(&procs, &names, &members, &totals);
    let ghost sorted = ordered(gs, order@);
    let mut rows: Vec<Row> = Vec::new();
    let no = order.len();
    for i in 0..no
        invariant
            no == order@.len(),
            ng == members@.len() == names@.len() == totals@.len(),
            gs == groups_view(procs@, names@, members@),
            sorted == ordered(gs, order@),
            ex == strings_view(expanded@),
            forall|q: int| 0 <= q < order@.len() ==> #[trigger] order@[q] < ng,
            forall|a: int, k: int|
                0 <= a < members@.len() && 0 <= k < members@[a]@.len() ==> #[trigger] members@[a]@[k]
                    < procs@.len(),
            forall|a: int| 0 <= a < members@.len() ==> (#[trigger] members@[a])@.len() > 0,
            forall|q: int| 0 <= q < ng ==> #[trigger] totals@[q] == mem_total(
                at_views(procs@, members@[q]@),
            ),
            rows_view(rows@) == rows_of(sorted.take(i as int), ex),
    {
        let g = order[i];
        let m = &members[g];
        let ghost grp = gs[g as int];
        assert(sorted[i as int] == grp);
        assert(grp == (names@[g as int]@, at_views(procs@, m@)));
        assert(sorted.take(i + 1).drop_last() == sorted.take(i as int));
        assert(sorted.take(i + 1).last() == grp);
        let ghost before = rows_view(rows@);
        if m.len() == 1 {
            let r = leaf_row(&procs[m[0]], false);
            rows.push(r);
            assert(rows_view(rows@) =~= before + group_rows(grp, ex));
        } else {
            let e = has_string(expanded, &names[g]);
            let h = header_row(&procs, &names[g], m, totals[g], e);
            rows.push(h);
            if e {
                let ranked = rank_members(&procs, m);
                let ghost lv = leaves(at_views(procs@, ranked@));
                let nr = ranked.len();
                for k in 0..nr
                    invariant
                        nr == ranked@.len(),
                        forall|q: int| 0 <= q < ranked@.len() ==> #[trigger] ranked@[q] < procs@.len(),
                        lv == leaves(at_views(procs@, ranked@)),
                        rows_view(rows@) == before + seq![header_view(grp, true)] + lv.take(k as int),
                {
                    let r = leaf_row(&procs[ranked[k]], true);
                    assert(at_views(procs@, ranked@)[k as int] == procs@[ranked@[k as int] as int]@);
                    assert(lv[k as int] == r@);
                    let ghost prev = rows_view(rows@);
                    rows.push(r);
                    assert(rows_view(rows@) =~= prev.push(lv[k as int]));
                    assert(lv.take(k + 1) == lv.take(k as int).push(lv[k as int]));
                    assert(rows_view(rows@) =~= before + seq![header_view(grp, true)] + lv.take(k + 1));
                }
                assert(lv.take(nr as int) == lv);
                assert(rows_view(rows@) =~= before + group_rows(grp, ex));
            } else {
                assert(rows_view(rows@) =~= before + group_rows(grp, ex));
            }
        }
    }
    assert(sorted.take(no as int) == sorted);
    rows
}



/// Adding a process adds its memory to the total.
proof fn lemma_mem_total_push(s: Seq<ProcView>, p: ProcView)
    ensures
        mem_total(s.push(p)) == mem_total(s) + p.mem_bytes,
{
    assert(s.push(p).drop_last() =~= s);
}

/// The processes that pass a search weigh no more than all of them.
proof fn lemma_keep_total(ps: Seq<ProcView>, needle: Seq<char>)
    ensures
        mem_total(keep(ps, needle)) <= mem_total(ps),
    decreases ps.len(),
{
    if ps.len() > 0 {
        lemma_keep_total(ps.drop_last(), needle);
        lemma_mem_total_push(keep(ps.drop_last(), needle), ps.last());
    }
}

/// No group weighs more than the processes it is made from.
proof fn lemma_group_totals(ps: Seq<ProcView>)
    ensures
        forall|j: int| 0 <= j < groups_of(ps).len() ==> mem_total(#[trigger] groups_of(ps)[j].1)
            <= mem_total(ps),
    decreases ps.len(),
{
    if ps.len() > 0 {
        let q = ps.drop_last();
        lemma_group_totals(q);
        let g0 = groups_of(q);
        let p = ps.last();
        let j = find_group(g0, p.name);
        let g = groups_of(ps);
        assert forall|k: int| 0 <= k < g.len() implies mem_total(#[trigger] g[k].1) <= mem_total(ps) by {
            if j < g0.len() && k == j {
                lemma_mem_total_push(g0[k].1, p);
            } else if j >= g0.len() && k == g0.len() {
                lemma_mem_total_push(Seq::<ProcView>::empty(), p);
                assert(seq![p] =~= Seq::<ProcView>::empty().push(p));
            } else {
                assert(g[k] == g0[k]);
            }
        }
    }
}

/// When all the processes together weigh at most `u64::MAX`, so does every
/// group of those that pass any search.
pub proof fn lemma_totals_fit(ps: Seq<ProcView>, needle: Seq<char>)
    requires
        mem_total(ps) <= u64::MAX,
    ensures
        totals_fit(ps, needle),
{
    lemma_keep_total(ps, needle);
    lemma_group_totals(keep(ps, needle));
}

/// [`build_rows`] for any process list: `None` when the processes together
/// weigh more than `u64::MAX` bytes (so a group total might not fit), else the
/// rows.
pub fn build_rows_checked(procs: Vec<Proc>, needle: &str, expanded: &Vec<String>) -> (r: Option<Vec<Row>>)
    ensures
        r is None <==> mem_total(procs_view(procs@)) > u64::MAX,
        r matches Some(rows) ==> rows_view(rows@) == rows_of(
            ranked_groups(procs_view(procs@), needle@),
            strings_view(expanded@),
        ),
{
    let ghost pv = procs_view(procs@);
    let mut sum: u64 = 0;
    let n = procs.len();
    for i in 0..n
        invariant
            n == procs@.len(),
            pv == procs_view(procs@),
            sum == mem_total(pv.take(i as int)),
    {
        assert(pv.take(i + 1) =~= pv.take(i as int).push(procs@[i as int]@));
        proof {
            lemma_mem_total_push(pv.take(i as int), procs@[i as int]@);
        }
        match sum.checked_add(procs[i].mem_bytes) {
            Some(t) => sum = t,
            None => {
                proof {
                    lemma_mem_total_prefix(pv, i + 1);
                }
                return None;
            },
        }
    }
    assert(pv.take(n as int) =~= pv);
    proof {
        lemma_totals_fit(pv, needle@);
    }
    Some(build_rows(procs, needle, expanded))
}

/// The totals of the group header rows among `rs`, in order.
pub open spec fn header_totals_of(rs: Seq<RowView>) -> Seq<u64>
    decreases rs.len(),
{
    if rs.len() == 0 {
        Seq::empty()
    } else if rs.last().is_group {
        header_totals_of(rs.drop_last()).push(rs.last().mem_bytes)
    } else {
        header_totals_of(rs.drop_last())
    }
}

/// The rows with the `k`-th group header's memory text set to `texts[k]`; the
/// other rows and fields as they were.
pub open spec fn with_memory(rs: Seq<RowView>, texts: Seq<Seq<char>>) -> Seq<RowView> {
    Seq::new(
        rs.len(),
        |i: int|
            if rs[i].is_group {
                RowView { memory: texts[header_totals_of(rs.take(i)).len() as int], ..rs[i] }
            } else {
                rs[i]
            },
    )
}

/// The group totals of the rows, in row order: the sizes the display formats
/// for the headers' memory column.
pub fn header_totals(rows: &Vec<Row>) -> (r: Vec<u64>)
    ensures
        r@ == header_totals_of(rows_view(rows@)),
{
    let ghost rv = rows_view(rows@);
    let mut r: Vec<u64> = Vec::new();
    let n = rows.len();
    for i in 0..n
        invariant
            n == rows@.len(),
            rv == rows_view(rows@),
            r@ == header_totals_of(rv.take(i as int)),
    {
        assert(rv.take(i + 1).drop_last() =~= rv.take(i as int));
        assert(rv.take(i + 1).last() == rows@[i as int]@);
        if rows[i].is_group {
            r.push(rows[i].mem_bytes);
        }
    }
    assert(rv.take(n as int) =~= rv);
    r
}

/// Give the group headers their memory text: the `k`-th header gets
/// `texts[k]` (the formatted `header_totals(rows)[k]`), every other row and
/// field is kept.
pub fn with_header_memory(rows: Vec<Row>, texts: &Vec<String>) -> (r: Vec<Row>)
    requires
        texts@.len() == header_totals_of(rows_view(rows@)).len(),
    ensures
        rows_view(r@) == with_memory(rows_view(rows@), strings_view(texts@)),
{
    let ghost rv = rows_view(rows@);
    let ghost tv = strings_view(texts@);
    let ghost target = with_memory(rv, tv);
    let mut rest = rows;
    let mut out: Vec<Row> = Vec::new();
    let mut k: usize = 0;
    let n = rest.len();
    let mut i: usize = 0;
    while i < n
        invariant
            n == rv.len(),
            i <= n,
            rows_view(rest@) == rv.skip(i as int),
            rows_view(out@) == target.take(i as int),
            k == header_totals_of(rv.take(i as int)).len(),
            texts@.len() == header_totals_of(rv).len(),
            tv == strings_view(texts@),
            target == with_memory(rv, tv),
        decreases n - i,
    {
        assert(rv.take(i + 1).drop_last() =~= rv.take(i as int));
        assert(rv.take(i + 1).last() == rv[i as int]);
        assert(rows_view(rest@)[0] == rv[i as int]);
        proof {
            lemma_header_count_prefix(rv, i + 1);
        }
        let ghost before_rest = rest@;
        assert(rest@.len() == rows_view(rest@).len());
        let row = rest.remove(0);
        assert(rest@ =~= before_rest.subrange(1, before_rest.len() as int));
        assert(row@ == rv[i as int]);
        assert forall|q: int| 0 <= q < rows_view(rest@).len() implies #[trigger] rows_view(rest@)[q]
            == rv.skip(i + 1)[q] by {
            assert(rows_view(rest@)[q] == before_rest[q + 1]@);
            assert(rows_view(before_rest)[q + 1] == rv.skip(i as int)[q + 1]);
        }
        assert(rows_view(rest@) =~= rv.skip(i + 1));
        let ghost prev = rows_view(out@);
        assert(header_totals_of(rv.take(i + 1)) == (if rv[i as int].is_group {
            header_totals_of(rv.take(i as int)).push(rv[i as int].mem_bytes)
        } else {
            header_totals_of(rv.take(i as int))
        }));
        if row.is_group {
            assert(k < texts@.len());
            assert(tv[k as int] == texts@[k as int]@);
            let Row { pid, name, label, owner, memory: _, mem_bytes, cpu_time, caps, is_group, expanded, indent, count } = row;
            let nr = Row { pid, name, label, owner, memory: texts[k].clone(), mem_bytes, cpu_time, caps, is_group, expanded, indent, count };
            assert(nr@ == RowView { memory: tv[k as int], ..rv[i as int] });
            assert(target[i as int] == nr@);
            out.push(nr);
            assert(k < texts.len());
            k = k + 1;
        } else {
            assert(target[i as int] == row@);
            out.push(row);
        }
        assert(rows_view(out@) =~= prev.push(target[i as int]));
        assert(target.take(i + 1) =~= target.take(i as int).push(target[i as int]));
        assert(rows_view(out@) =~= target.take(i + 1));
        i = i + 1;
    }
    assert(target.take(n as int) =~= target);
    out
}

/// A prefix holds no more headers than the whole.
proof fn lemma_header_count_prefix(rs: Seq<RowView>, i: int)
    requires
        0 <= i <= rs.len(),
    ensures
        header_totals_of(rs.take(i)).len() <= header_totals_of(rs).len(),
    decreases rs.len() - i,
{
    if i < rs.len() {
        lemma_header_count_prefix(rs, i + 1);
        assert(rs.take(i + 1).drop_last() =~= rs.take(i));
    } else {
        assert(rs.take(i) =~= rs);
    }
}

/// The group ranking is a strict order.
pub proof fn lemma_by_total_strict()
    ensures
        strict_order(by_total()),
{
    assert forall|a: Group| !#[trigger] by_total()(a, a) by {
        lemma_lex_lt_irreflexive(a.0);
    }
    assert forall|a: Group, b: Group, c: Group| #[trigger] by_total()(a, b) && #[trigger] by_total()(b, c)
        implies by_total()(a, c) by {
        if mem_total(a.1) == mem_total(b.1) && mem_total(b.1) == mem_total(c.1) {
            lemma_lex_lt_transitive(a.0, b.0, c.0);
        }
    }
}

/// The process ranking is a strict order.
pub proof fn lemma_by_mem_strict()
    ensures
        strict_order(by_mem()),
{
}

/// Law: the groups are listed heaviest total first, ties by name, and are
/// exactly the groups of the processes that pass the search.
pub proof fn law_groups_ranked(ps: Seq<ProcView>, needle: Seq<char>)
    ensures
        sorted_by(ranked_groups(ps, needle), by_total()),
        ranked_groups(ps, needle).to_multiset() == groups_of(keep(ps, needle)).to_multiset(),
{
    lemma_by_total_strict();
    law_sort_by_sorted(groups_of(keep(ps, needle)), by_total());
}

/// Law: an expanded group lists its processes heaviest first (equal sizes in
/// their original order), each exactly once.
pub proof fn law_members_ranked(ms: Seq<ProcView>)
    ensures
        sorted_by(sort_by(ms, by_mem()), by_mem()),
        sort_by(ms, by_mem()).to_multiset() == ms.to_multiset(),
{
    lemma_by_mem_strict();
    law_sort_by_sorted(ms, by_mem());
}

/// Total number of processes in the groups.
pub open spec fn group_sizes(g: Seq<Group>) -> nat
    decreases g.len(),
{
    if g.len() == 0 {
        0
    } else {
        group_sizes(g.drop_last()) + g.last().1.len()
    }
}

proof fn lemma_group_sizes_update(g: Seq<Group>, j: int, x: Group)
    requires
        0 <= j < g.len(),
    ensures
        group_sizes(g.update(j, x)) == group_sizes(g) - g[j].1.len() + x.1.len(),
    decreases g.len(),
{
    let u = g.update(j, x);
    if j < g.len() - 1 {
        lemma_group_sizes_update(g.drop_last(), j, x);
        assert(u.drop_last() =~= g.drop_last().update(j, x));
        assert(u.last() == g.last());
    } else {
        assert(u.drop_last() =~= g.drop_last());
    }
}

proof fn lemma_find_group_props(gs: Seq<Group>, name: Seq<char>)
    ensures
        find_group(gs, name) <= gs.len(),
        forall|i: int| 0 <= i < find_group(gs, name) ==> (#[trigger] gs[i]).0 != name,
        find_group(gs, name) < gs.len() ==> gs[find_group(gs, name) as int].0 == name,
    decreases gs.len(),
{
    if gs.len() > 0 && gs[0].0 != name {
        let t = gs.drop_first();
        lemma_find_group_props(t, name);
        assert forall|i: int| 0 <= i < find_group(gs, name) implies (#[trigger] gs[i]).0 != name by {
            if i > 0 {
                assert(gs[i] == t[i - 1]);
            }
        }
        if find_group(gs, name) < gs.len() {
            assert(gs[find_group(gs, name) as int] == t[find_group(t, name) as int]);
        }
    }
}

/// The groups of `ps` partition it by name.
pub open spec fn is_partition(ps: Seq<ProcView>, g: Seq<Group>) -> bool {
    &&& forall|j: int| 0 <= j < g.len() ==> (#[trigger] g[j]).1.len() > 0
    &&& forall|j: int, k: int| 0 <= j < g.len() && 0 <= k < g[j].1.len() ==> (#[trigger] g[j].1[k]).name == g[j].0
    &&& forall|i: int, j: int| 0 <= i < j < g.len() ==> (#[trigger] g[i]).0 != (#[trigger] g[j]).0
    &&& group_sizes(g) == ps.len()
    &&& forall|i: int| 0 <= i < ps.len() ==> find_group(g, (#[trigger] ps[i]).name) < g.len()
        && g[find_group(g, ps[i].name) as int].1.contains(ps[i])
}

/// Law: grouping by name is a partition — every group is non-empty and named
/// after all its processes, no two groups share a name, and every process is in
/// the group of its name, once.
pub proof fn law_groups_partition(ps: Seq<ProcView>)
    ensures
        is_partition(ps, groups_of(ps)),
    decreases ps.len(),
{
    if ps.len() > 0 {
        let q = ps.drop_last();
        law_groups_partition(q);
        let g0 = groups_of(q);
        let p = ps.last();
        let j = find_group(g0, p.name);
        lemma_find_group_props(g0, p.name);
        let g = groups_of(ps);
        assert forall|i: int| 0 <= i < q.len() implies #[trigger] ps[i] == q[i] by {}
        if j < g0.len() {
            let x = (g0[j as int].0, g0[j as int].1.push(p));
            assert(g == g0.update(j as int, x));
            lemma_group_sizes_update(g0, j as int, x);
            assert forall|j2: int, k: int| 0 <= j2 < g.len() && 0 <= k < g[j2].1.len() implies (#[trigger] g[j2].1[k]).name == g[j2].0 by {
                if j2 == j && k < g0[j as int].1.len() {
                    assert(g[j2].1[k] == g0[j2].1[k]);
                }
            }
            assert forall|i: int| 0 <= i < ps.len() implies find_group(g, (#[trigger] ps[i]).name) < g.len()
                && g[find_group(g, ps[i].name) as int].1.contains(ps[i]) by {
                let n = ps[i].name;
                lemma_find_group_props(g0, n);
                let k = find_group(g0, n);
                if i < q.len() {
                    assert(ps[i] == q[i]);
                    assert forall|m: int| 0 <= m < k implies (#[trigger] g[m]).0 != n by {
                        assert(g[m].0 == g0[m].0);
                    }
                    lemma_find_group(g, n, k as int);
                    let w = choose|w: int| 0 <= w < g0[k as int].1.len() && g0[k as int].1[w] == q[i];
                    if k == j {
                        assert(g[k as int].1[w] == q[i]);
                    }
                } else {
                    assert(ps[i] == p);
                    assert forall|m: int| 0 <= m < j implies (#[trigger] g[m]).0 != p.name by {
                        assert(g[m].0 == g0[m].0);
                    }
                    lemma_find_group(g, p.name, j as int);
                    assert(g[j as int].1[g0[j as int].1.len() as int] == p);
                }
            }
        } else {
            let x = (p.name, seq![p]);
            assert(g == g0.push(x));
            assert(g.drop_last() == g0);
            assert forall|i: int| 0 <= i < ps.len() implies find_group(g, (#[trigger] ps[i]).name) < g.len()
                && g[find_group(g, ps[i].name) as int].1.contains(ps[i]) by {
                let n = ps[i].name;
                if i < q.len() {
                    assert(ps[i] == q[i]);
                    lemma_find_group_props(g0, n);
                    let k = find_group(g0, n);
                    assert forall|m: int| 0 <= m < k implies (#[trigger] g[m]).0 != n by {
                        assert(g[m] == g0[m]);
                    }
                    lemma_find_group(g, n, k as int);
                    let w = choose|w: int| 0 <= w < g0[k as int].1.len() && g0[k as int].1[w] == q[i];
                    assert(g[k as int].1[w] == q[i]);
                } else {
                    assert forall|m: int| 0 <= m < g0.len() implies (#[trigger] g[m]).0 != p.name by {
                        assert(g[m] == g0[m]);
                    }
                    lemma_find_group(g, p.name, g0.len() as int);
                    assert(g[g0.len() as int].1[0] == p);
                }
            }
        }
    } else {
        assert(groups_of(ps) == Seq::<Group>::empty());
    }
}

/// Law: the search keeps exactly the processes a user would expect from a
/// case-insensitive search: a process is kept if and only if the needle (typed
/// lower-case) is empty or occurs in its lower-cased name, its lower-cased
/// label, or its pid.
pub proof fn law_search_keeps(ps: Seq<ProcView>, needle: Seq<char>, p: ProcView)
    ensures
        keep(ps, needle).contains(p) <==> (ps.contains(p) && (needle.len() == 0 || contains(
            lowercase(p.name),
            needle,
        ) || contains(lowercase(p.label), needle) || contains(p.pid, needle))),
    decreases ps.len(),
{
    if ps.len() > 0 {
        let q = ps.drop_last();
        law_search_keeps(q, needle, p);
        let k = keep(q, needle);
        if ps.contains(p) {
            let i = choose|i: int| 0 <= i < ps.len() && ps[i] == p;
            if i < ps.len() - 1 {
                assert(q[i] == p);
            }
        }
        if q.contains(p) {
            let i = choose|i: int| 0 <= i < q.len() && q[i] == p;
            assert(ps[i] == p);
        }
        if proc_matches(ps.last(), needle) {
            let kp = k.push(ps.last());
            assert(kp[k.len() as int] == ps.last());
            assert(ps[ps.len() - 1] == ps.last());
            if kp.contains(p) {
                let i = choose|i: int| 0 <= i < kp.len() && kp[i] == p;
                if i < k.len() {
                    assert(k[i] == p);
                }
            }
            if k.contains(p) {
                let i = choose|i: int| 0 <= i < k.len() && k[i] == p;
                assert(kp[i] == p);
            }
        }
    }
}

} // verus!
