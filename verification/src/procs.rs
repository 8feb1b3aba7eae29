//! The process list and capability table as the kernel's `sys:` scheme
//! reports them: `sys:context` has one fixed-width row per process, and
//! `sys:iostat` lists every open descriptor under a `PID: name` header.

use vstd::prelude::*;
use crate::text::{
    lines, split_lines, strings_view, trim, trim_bounds, sub_vec, views, to_chars, from_chars,
    lead_len, lemma_lead_len, is_ws, char_is_ws,
};
use crate::num::all_digits;
use crate::sys::{Proc, ProcView, starts_with};
use crate::labels::{base_name, description_of, describe};
use crate::grouping::procs_view;

verus! {

/// The number of bytes `c` takes in UTF-8.
pub open spec fn utf8_len(c: char) -> int {
    if (c as u32) < 0x80 {
        1
    } else if (c as u32) < 0x800 {
        2
    } else if (c as u32) < 0x10000 {
        3
    } else {
        4
    }
}

fn utf8_len_of(c: char) -> (n: usize)
    ensures
        n as int == utf8_len(c),
{
    let x = c as u32;
    if x < 0x80 {
        1
    } else if x < 0x800 {
        2
    } else if x < 0x10000 {
        3
    } else {
        4
    }
}

/// The index of the character that starts at byte offset `b` of `s`
/// (`s.len()` for the end); `None` when `b` is not a character boundary.
pub open spec fn char_at_byte(s: Seq<char>, b: int) -> Option<int>
    decreases s.len(),
{
    if b == 0 {
        Some(0)
    } else if b < 0 || s.len() == 0 {
        None
    } else if b < utf8_len(s[0]) {
        None
    } else {
        match char_at_byte(s.drop_first(), b - utf8_len(s[0])) {
            Some(i) => Some(i + 1),
            None => None,
        }
    }
}

/// The text between byte offsets `a` and `b` (`str::get(a..b)`): `None` unless
/// both are character boundaries with `a <= b`.
pub open spec fn byte_slice(s: Seq<char>, a: int, b: int) -> Option<Seq<char>> {
    match (char_at_byte(s, a), char_at_byte(s, b)) {
        (Some(i), Some(j)) => if i <= j {
            Some(s.subrange(i, j))
        } else {
            None
        },
        _ => None,
    }
}

/// The text from byte offset `a` on (`str::get(a..)`).
pub open spec fn byte_tail(s: Seq<char>, a: int) -> Option<Seq<char>> {
    match char_at_byte(s, a) {
        Some(i) => Some(s.subrange(i, s.len() as int)),
        None => None,
    }
}

/// `o` with its index moved by `k`.
pub open spec fn shift(o: Option<int>, k: int) -> Option<int> {
    match o {
        Some(i) => Some(i + k),
        None => None,
    }
}

/// The character index at byte offset `b` of `v`.
fn char_index(v: &Vec<char>, b: usize) -> (r: Option<usize>)
    ensures
        r matches Some(i) ==> char_at_byte(v@, b as int) == Some(i as int) && i <= v@.len(),
        r is None ==> char_at_byte(v@, b as int) is None,
{
    let mut i: usize = 0;
    let mut off: usize = 0;
    assert(v@.skip(0) == v@);
    while off < b
        invariant
            i <= v@.len(),
            off <= b,
            char_at_byte(v@, b as int) == shift(char_at_byte(v@.skip(i as int), b - off), i as int),
        decreases b - off,
    {
        if i == v.len() {
            return None;
        }
        let l = utf8_len_of(v[i]);
        assert(v@.skip(i as int)[0] == v@[i as int]);
        assert(v@.skip(i as int).drop_first() == v@.skip(i + 1));
        if b - off < l {
            return None;
        }
        off = off + l;
        i = i + 1;
    }
    Some(i)
}

/// A column: the trimmed text between byte offsets `a` and `b`, or empty.
pub open spec fn column(line: Seq<char>, a: int, b: int) -> Seq<char> {
    match byte_slice(line, a, b) {
        Some(t) => trim(t),
        None => Seq::<char>::empty(),
    }
}

/// The trimmed text from byte offset `a` on, or empty.
pub open spec fn tail_column(line: Seq<char>, a: int) -> Seq<char> {
    match byte_tail(line, a) {
        Some(t) => trim(t),
        None => Seq::<char>::empty(),
    }
}

/// The trimmed characters of `v[from..to]`.
fn trimmed_range(v: &Vec<char>, from: usize, to: usize) -> (r: Vec<char>)
    requires
        from <= to <= v@.len(),
    ensures
        r@ == trim(v@.subrange(from as int, to as int)),
{
    let (a, b) = trim_bounds(v, from, to);
    sub_vec(v, a, b)
}

fn column_of(line: &Vec<char>, a: usize, b: usize) -> (r: Vec<char>)
    ensures
        r@ == column(line@, a as int, b as int),
{
    match (char_index(line, a), char_index(line, b)) {
        (Some(i), Some(j)) => if i <= j {
            trimmed_range(line, i, j)
        } else {
            Vec::new()
        },
        _ => Vec::new(),
    }
}

fn tail_column_of(line: &Vec<char>, a: usize) -> (r: Vec<char>)
    ensures
        r@ == tail_column(line@, a as int),
{
    match char_index(line, a) {
        Some(i) => trimmed_range(line, i, line.len()),
        None => Vec::new(),
    }
}


/// The text after the last `": "` of `s` (all of `s` when there is none) —
/// the first piece of `str::rsplit(": ")`.
pub open spec fn after_last_colon_space(s: Seq<char>) -> Seq<char>
    decreases s.len(),
{
    if s.len() < 2 {
        s
    } else if s[s.len() - 2] == ':' && s[s.len() - 1] == ' ' {
        Seq::<char>::empty()
    } else {
        after_last_colon_space(s.drop_last()).push(s.last())
    }
}

/// `": "` ends at position `m` of `s`.
pub open spec fn colon_space_at(s: Seq<char>, m: int) -> bool {
    2 <= m <= s.len() && s[m - 2] == ':' && s[m - 1] == ' '
}

proof fn lemma_after_last(s: Seq<char>, k: int)
    requires
        0 <= k <= s.len(),
        forall|m: int| k < m <= s.len() ==> !#[trigger] colon_space_at(s, m),
        k < 2 || colon_space_at(s, k),
    ensures
        after_last_colon_space(s) == s.subrange(if k >= 2 { k } else { 0 }, s.len() as int),
    decreases s.len(),
{
    let r = if k >= 2 { k } else { 0 };
    if s.len() < 2 {
        assert(s.subrange(0, s.len() as int) == s);
    } else if s[s.len() - 2] == ':' && s[s.len() - 1] == ' ' {
        assert(colon_space_at(s, s.len() as int));
        assert(k == s.len());
    } else {
        assert(!colon_space_at(s, s.len() as int));
        let t = s.drop_last();
        assert forall|m: int| k < m <= t.len() implies !#[trigger] colon_space_at(t, m) by {
            assert(!colon_space_at(s, m));
        }
        if k >= 2 {
            assert(colon_space_at(t, k));
        }
        lemma_after_last(t, k);
        assert(t.subrange(r, t.len() as int).push(s.last()) =~= s.subrange(r, s.len() as int));
    }
}

/// An ASCII hexadecimal digit.
pub open spec fn is_hex(c: char) -> bool {
    ('0' <= c && c <= '9') || ('a' <= c && c <= 'f') || ('A' <= c && c <= 'F')
}

/// Every character of `s` is an ASCII hexadecimal digit.
pub open spec fn all_hex(s: Seq<char>) -> bool {
    forall|i: int| 0 <= i < s.len() ==> is_hex(#[trigger] s[i])
}

/// `c` ends a scheme name (`:` or `/`).
pub open spec fn not_scheme_end(c: char) -> bool {
    c != ':' && c != '/'
}

/// The scheme an `iostat` descriptor line refers to: its path is the text after
/// the last `": "`, trimmed; a `/scheme/` lead is dropped; the name runs to the
/// first `:` or `/`, trimmed. `None` for an empty path or name, or a name of
/// hex digits only (a numeric leftover).
pub open spec fn scheme_of_line(line: Seq<char>) -> Option<Seq<char>> {
    let path = trim(after_last_colon_space(line));
    if path.len() == 0 {
        None
    } else {
        let rest = if starts_with(path, "/scheme/"@) {
            path.subrange(8, path.len() as int)
        } else {
            path
        };
        let name = trim(rest.subrange(0, lead_len(rest, |c: char| not_scheme_end(c)) as int));
        if name.len() == 0 || all_hex(name) {
            None
        } else {
            Some(name)
        }
    }
}

/// Extract the scheme name from an `iostat` descriptor line.
pub fn scheme_of(line: &Vec<char>) -> (r: Option<String>)
    ensures
        r matches Some(x) ==> scheme_of_line(line@) == Some(x@),
        r is None ==> scheme_of_line(line@) is None,
{
    let n = line.len();
    let mut k = n;
    while k >= 2 && !(line[k - 2] == ':' && line[k - 1] == ' ')
        invariant
            k <= n == line@.len(),
            forall|m: int| k < m <= n ==> !#[trigger] colon_space_at(line@, m),
        decreases k,
    {
        k = k - 1;
    }
    proof {
        if k >= 2 {
            assert(colon_space_at(line@, k as int));
        }
        lemma_after_last(line@, k as int);
    }
    let st: usize = if k >= 2 { k } else { 0 };
    let (a, b) = trim_bounds(line, st, n);
    let path = sub_vec(line, a, b);
    if path.len() == 0 {
        return None;
    }
    proof {
        reveal_strlit("/scheme/");
    }
    let w = to_chars("/scheme/");
    let skip: usize = if path.len() >= 8 && crate::text::range_eq(&path, 0, 8, "/scheme/") {
        8
    } else {
        0
    };
    assert(w@.len() == 8);
    let ghost rest = path@.subrange(skip as int, path@.len() as int);
    assert(path@.subrange(0, path@.len() as int) == path@);
    let mut e = skip;
    while e < path.len() && path[e] != ':' && path[e] != '/'
        invariant
            skip <= e <= path@.len(),
            rest == path@.subrange(skip as int, path@.len() as int),
            forall|i: int| 0 <= i < e - skip ==> not_scheme_end(#[trigger] rest[i]),
        decreases path@.len() - e,
    {
        e = e + 1;
    }
    proof {
        lemma_lead_len(rest, |c: char| not_scheme_end(c), e - skip);
        assert(rest.subrange(0, e - skip) == path@.subrange(skip as int, e as int));
    }
    let name = trimmed_range(&path, skip, e);
    let ghost spath = trim(after_last_colon_space(line@));
    assert(line@.subrange(st as int, n as int) == after_last_colon_space(line@));
    assert(path@ == spath);
    assert(starts_with(spath, "/scheme/"@) == (skip == 8));
    let ghost srest = if starts_with(spath, "/scheme/"@) {
        spath.subrange(8, spath.len() as int)
    } else {
        spath
    };
    assert(srest == rest);
    assert(name@ == trim(srest.subrange(0, lead_len(srest, |c: char| not_scheme_end(c)) as int)));
    if name.len() == 0 {
        return None;
    }
    assert(scheme_of_line(line@) == (if all_hex(name@) {
        None
    } else {
        Some(name@)
    }));
    let mut i: usize = 0;
    while i < name.len()
        invariant
            i <= name@.len(),
            scheme_of_line(line@) == (if all_hex(name@) {
                None
            } else {
                Some(name@)
            }),
            forall|j: int| 0 <= j < i ==> is_hex(#[trigger] name@[j]),
        decreases name@.len() - i,
    {
        let c = name[i];
        if !(('0' <= c && c <= '9') || ('a' <= c && c <= 'f') || ('A' <= c && c <= 'F')) {
            assert(!is_hex(name@[i as int]));
            return Some(from_chars(&name));
        }
        i = i + 1;
    }
    None
}


/// A capability table: pids in order of first appearance, each with its
/// distinct schemes in order of first appearance.
pub type CapTable = Seq<(Seq<char>, Seq<Seq<char>>)>;

/// Index of the entry for `pid` (`t.len()` if there is none).
pub open spec fn find_entry(t: CapTable, pid: Seq<char>) -> nat
    decreases t.len(),
{
    if t.len() == 0 {
        0
    } else if t[0].0 == pid {
        0
    } else {
        1 + find_entry(t.drop_first(), pid)
    }
}

/// `t` with an (empty) entry for `pid` if it had none.
pub open spec fn ensure_entry(t: CapTable, pid: Seq<char>) -> CapTable {
    if find_entry(t, pid) < t.len() {
        t
    } else {
        t.push((pid, Seq::<Seq<char>>::empty()))
    }
}

/// `c != ':'`.
pub open spec fn not_colon(c: char) -> bool {
    c != ':'
}

/// The pid of a process header line (`1234: name`, not indented), if the line
/// is one.
pub open spec fn header_pid(line: Seq<char>) -> Option<Seq<char>> {
    let k = lead_len(line, |c: char| not_colon(c));
    let pid = trim(line.subrange(0, k as int));
    if k < line.len() && !is_ws(line[0]) && pid.len() > 0 && all_digits(pid) {
        Some(pid)
    } else {
        None
    }
}

/// One line of `sys:iostat` read into the table `t` with current pid `cur`:
/// a header line makes its pid current (with an entry); a descriptor line of
/// the current pid adds its scheme to that pid's entry unless already there.
pub open spec fn cap_step(st: (CapTable, Seq<char>), line: Seq<char>) -> (CapTable, Seq<char>) {
    let (t, cur) = st;
    match header_pid(line) {
        Some(pid) => (ensure_entry(t, pid), pid),
        None => if cur.len() > 0 && scheme_of_line(line) is Some {
            let sc = scheme_of_line(line)->0;
            let t1 = ensure_entry(t, cur);
            let j = find_entry(t1, cur) as int;
            if t1[j].1.contains(sc) {
                (t1, cur)
            } else {
                (t1.update(j, (cur, t1[j].1.push(sc))), cur)
            }
        } else {
            (t, cur)
        },
    }
}

/// The table after reading the lines `ls` in order.
pub open spec fn cap_state(ls: Seq<Seq<char>>) -> (CapTable, Seq<char>)
    decreases ls.len(),
{
    if ls.len() == 0 {
        (Seq::empty(), Seq::empty())
    } else {
        cap_step(cap_state(ls.drop_last()), ls.last())
    }
}

/// The capability table of a `sys:iostat` text.
pub open spec fn cap_table(iostat: Seq<char>) -> CapTable {
    cap_state(lines(iostat)).0
}

/// The schemes the table lists for `pid` (none if it has no entry).
pub open spec fn caps_for(t: CapTable, pid: Seq<char>) -> Seq<Seq<char>> {
    if find_entry(t, pid) < t.len() {
        t[find_entry(t, pid) as int].1
    } else {
        Seq::empty()
    }
}

/// The table kept by the exec side: pairs of pid and schemes.
pub open spec fn table_view(t: Seq<(String, Vec<String>)>) -> CapTable {
    t.map_values(|e: (String, Vec<String>)| (e.0@, strings_view(e.1@)))
}

proof fn lemma_find_entry(t: CapTable, pid: Seq<char>, j: int)
    requires
        0 <= j <= t.len(),
        forall|i: int| 0 <= i < j ==> (#[trigger] t[i]).0 != pid,
        j == t.len() || t[j].0 == pid,
    ensures
        find_entry(t, pid) == j,
    decreases j,
{
    if j > 0 {
        assert(t[0].0 != pid);
        let u = t.drop_first();
        assert forall|i: int| 0 <= i < j - 1 implies (#[trigger] u[i]).0 != pid by {
            assert(u[i] == t[i + 1]);
        }
        if j < t.len() {
            assert(u[j - 1] == t[j]);
        }
        lemma_find_entry(u, pid, j - 1);
    }
}

/// Position of `pid` in the table (`len` when absent).
fn entry_index(t: &Vec<(String, Vec<String>)>, pid: &String) -> (j: usize)
    ensures
        j as int == find_entry(table_view(t@), pid@),
        j <= t@.len(),
{
    let ghost tv = table_view(t@);
    let mut j: usize = 0;
    while j < t.len() && t[j].0 != *pid
        invariant
            j <= t@.len(),
            tv == table_view(t@),
            forall|i: int| 0 <= i < j ==> (#[trigger] tv[i]).0 != pid@,
        decreases t@.len() - j,
    {
        j = j + 1;
    }
    proof {
        lemma_find_entry(tv, pid@, j as int);
    }
    j
}

/// Adds an empty entry for `pid` when there is none; returns its position.
fn ensure(t: &mut Vec<(String, Vec<String>)>, pid: &String) -> (j: usize)
    ensures
        table_view(final(t)@) == ensure_entry(table_view(old(t)@), pid@),
        j as int == find_entry(table_view(final(t)@), pid@),
        j < final(t)@.len(),
{
    let j = entry_index(t, pid);
    if j < t.len() {
        j
    } else {
        let ghost before = table_view(t@);
        let e: Vec<String> = Vec::new();
        assert(strings_view(e@) =~= Seq::<Seq<char>>::empty());
        t.push((pid.clone(), e));
        proof {
            assert(table_view(t@) =~= before.push((pid@, Seq::<Seq<char>>::empty())));
            assert forall|i: int| 0 <= i < j implies (#[trigger] table_view(t@)[i]).0 != pid@ by {
                assert(table_view(t@)[i] == before[i]);
                if before[i].0 == pid@ {
                    lemma_find_entry_first(before, pid@, i);
                }
            }
            lemma_find_entry(table_view(t@), pid@, j as int);
        }
        j
    }
}

/// A found entry holds `pid`.
proof fn lemma_find_entry_hit(t: CapTable, pid: Seq<char>)
    ensures
        find_entry(t, pid) <= t.len(),
        find_entry(t, pid) < t.len() ==> t[find_entry(t, pid) as int].0 == pid,
    decreases t.len(),
{
    if t.len() > 0 && t[0].0 != pid {
        lemma_find_entry_hit(t.drop_first(), pid);
    }
}

/// No entry before `find_entry` holds `pid`.
proof fn lemma_find_entry_first(t: CapTable, pid: Seq<char>, i: int)
    requires
        0 <= i < t.len(),
        t[i].0 == pid,
    ensures
        find_entry(t, pid) <= i,
    decreases i,
{
    if i > 0 && t[0].0 != pid {
        assert(t.drop_first()[i - 1] == t[i]);
        lemma_find_entry_first(t.drop_first(), pid, i - 1);
    }
}

/// Whether `s` is among `v`.
pub(crate) fn contains_string(v: &Vec<String>, s: &String) -> (r: bool)
    ensures
        r == strings_view(v@).contains(s@),
{
    let n = v.len();
    for i in 0..n
        invariant
            n == v@.len(),
            forall|k: int| 0 <= k < i ==> #[trigger] v@[k]@ != s@,
    {
        if v[i] == *s {
            assert(strings_view(v@)[i as int] == s@);
            return true;
        }
    }
    assert forall|k: int| 0 <= k < strings_view(v@).len() implies #[trigger] strings_view(v@)[k]
        != s@ by {
        assert(strings_view(v@)[k] == v@[k]@);
    }
    false
}

/// The pid of a header line, if `line` is one.
fn header_pid_of(line: &Vec<char>) -> (r: Option<String>)
    ensures
        r matches Some(p) ==> header_pid(line@) == Some(p@),
        r is None ==> header_pid(line@) is None,
{
    let n = line.len();
    let mut k: usize = 0;
    while k < n && line[k] != ':'
        invariant
            k <= n == line@.len(),
            forall|i: int| 0 <= i < k ==> not_colon(#[trigger] line@[i]),
        decreases n - k,
    {
        k = k + 1;
    }
    proof {
        lemma_lead_len(line@, |c: char| not_colon(c), k as int);
    }
    if k == n || char_is_ws(line[0]) {
        return None;
    }
    let pid = trimmed_range(line, 0, k);
    if pid.len() == 0 {
        return None;
    }
    assert(header_pid(line@) == (if all_digits(pid@) { Some(pid@) } else { None }));
    let mut i: usize = 0;
    while i < pid.len()
        invariant
            i <= pid@.len(),
            header_pid(line@) == (if all_digits(pid@) { Some(pid@) } else { None }),
            forall|j: int| 0 <= j < i ==> crate::num::is_digit(#[trigger] pid@[j]),
        decreases pid@.len() - i,
    {
        if !('0' <= pid[i] && pid[i] <= '9') {
            assert(!crate::num::is_digit(pid@[i as int]));
            return None;
        }
        i = i + 1;
    }
    Some(from_chars(&pid))
}

/// The capability inspector: from a `sys:iostat` read, each process's distinct
/// open schemes.
pub fn capabilities(iostat: &str) -> (t: Vec<(String, Vec<String>)>)
    ensures
        table_view(t@) == cap_table(iostat@),
{
    let v = to_chars(iostat);
    let ls = split_lines(&v);
    let ghost lv = views(ls@);
    let mut t: Vec<(String, Vec<String>)> = Vec::new();
    let mut cur = String::new();
    let n = ls.len();
    for i in 0..n
        invariant
            n == ls@.len(),
            lv == views(ls@),
            (table_view(t@), cur@) == cap_state(lv.take(i as int)),
    {
        let line = &ls[i];
        assert(lv.take(i + 1).drop_last() == lv.take(i as int));
        assert(lv.take(i + 1).last() == line@);
        let ghost st = (table_view(t@), cur@);
        match header_pid_of(line) {
            Some(pid) => {
                ensure(&mut t, &pid);
                cur = pid;
            },
            None => {
                if !cur.as_str().is_empty() {
                    match scheme_of(line) {
                        Some(sc) => {
                            let j = ensure(&mut t, &cur);
                            let ghost t1 = table_view(t@);
                            proof {
                                lemma_find_entry_hit(t1, cur@);
                            }
                            assert(t1[j as int] == (t@[j as int].0@, strings_view(t@[j as int].1@)));
                            if !contains_string(&t[j].1, &sc) {
                                let ghost t_before = t@;
                                let (k, mut schemes) = t.remove(j);
                                assert(k@ == t1[j as int].0);
                                let ghost old_s = strings_view(schemes@);
                                schemes.push(sc);
                                assert(strings_view(schemes@) =~= old_s.push(sc@));
                                t.insert(j, (k, schemes));
                                assert(table_view(t@) =~= t1.update(j as int, (st.1, t1[j as int].1.push(sc@))));
                            }
                        },
                        None => {},
                    }
                }
            },
        }
    }
    assert(lv.take(n as int) == lv);
    t
}


/// The process a `sys:context` row describes, its schemes taken from `t`.
/// Columns by byte offset: PID `0..6`, EUID `6..12`, STAT `18..24`, TIME
/// `41..53`, PRIVATE `53..61`, NAME from 69 on (each trimmed). A row with an
/// empty PID is skipped. The byte count `mem_bytes` is left 0 here: it is the
/// PRIVATE text as a size, read by the caller.
pub open spec fn proc_row(line: Seq<char>, t: CapTable) -> Option<ProcView> {
    let pid = column(line, 0, 6);
    if pid.len() == 0 {
        None
    } else {
        let name = tail_column(line, 69);
        Some(ProcView {
            pid: pid,
            name: name,
            label: description_of(base_name(name)),
            owner: column(line, 6, 12),
            status: column(line, 18, 24),
            cpu_time: column(line, 41, 53),
            memory: column(line, 53, 61),
            mem_bytes: 0,
            resources: caps_for(t, pid),
        })
    }
}

/// The processes of the rows `ls`, in order.
pub open spec fn proc_rows(ls: Seq<Seq<char>>, t: CapTable) -> Seq<ProcView>
    decreases ls.len(),
{
    if ls.len() == 0 {
        Seq::empty()
    } else {
        match proc_row(ls.last(), t) {
            Some(p) => proc_rows(ls.drop_last(), t).push(p),
            None => proc_rows(ls.drop_last(), t),
        }
    }
}

/// The processes of a `sys:context` read (its first line is the header), with
/// the capability table of a `sys:iostat` read.
pub open spec fn processes_of(context: Seq<char>, iostat: Seq<char>) -> Seq<ProcView> {
    let ls = lines(context);
    proc_rows(if ls.len() > 0 { ls.drop_first() } else { ls }, cap_table(iostat))
}

/// A copy of `v` (each string cloned).
fn copy_strings(v: &Vec<String>) -> (r: Vec<String>)
    ensures
        strings_view(r@) == strings_view(v@),
{
    let mut r: Vec<String> = Vec::new();
    let n = v.len();
    for i in 0..n
        invariant
            n == v@.len(),
            strings_view(r@) == strings_view(v@).take(i as int),
    {
        let ghost before = strings_view(r@);
        r.push(v[i].clone());
        assert(strings_view(r@) =~= before.push(v@[i as int]@));
        assert(strings_view(v@).take(i + 1) =~= strings_view(v@).take(i as int).push(v@[i as int]@));
    }
    assert(strings_view(v@).take(n as int) =~= strings_view(v@));
    r
}

fn caps_of(t: &Vec<(String, Vec<String>)>, pid: &String) -> (r: Vec<String>)
    ensures
        strings_view(r@) == caps_for(table_view(t@), pid@),
{
    let j = entry_index(t, pid);
    if j < t.len() {
        assert(table_view(t@)[j as int] == (t@[j as int].0@, strings_view(t@[j as int].1@)));
        copy_strings(&t[j].1)
    } else {
        let r: Vec<String> = Vec::new();
        assert(strings_view(r@) =~= Seq::<Seq<char>>::empty());
        r
    }
}

/// The process of one `sys:context` row, if it has a PID.
fn proc_of_row(line: &Vec<char>, t: &Vec<(String, Vec<String>)>) -> (r: Option<Proc>)
    ensures
        r matches Some(p) ==> proc_row(line@, table_view(t@)) == Some(p@),
        r is None ==> proc_row(line@, table_view(t@)) is None,
{
    let pid = column_of(line, 0, 6);
    if pid.len() == 0 {
        return None;
    }
    let name = from_chars(&tail_column_of(line, 69));
    let pid = from_chars(&pid);
    let resources = caps_of(t, &pid);
    let label = describe(name.as_str());
    Some(Proc {
        pid,
        name,
        label,
        owner: from_chars(&column_of(line, 6, 12)),
        status: from_chars(&column_of(line, 18, 24)),
        cpu_time: from_chars(&column_of(line, 41, 53)),
        memory: from_chars(&column_of(line, 53, 61)),
        mem_bytes: 0,
        resources,
    })
}

/// Read the process list from a `sys:context` read and the capability table
/// from a `sys:iostat` read (each process's `mem_bytes` is left 0 for the
/// caller to fill from its PRIVATE text).
pub fn processes_from(context: &str, iostat: &str) -> (ps: Vec<Proc>)
    ensures
        procs_view(ps@) == processes_of(context@, iostat@),
{
    let t = capabilities(iostat);
    let v = to_chars(context);
    let ls = split_lines(&v);
    let ghost lv = views(ls@);
    let ghost rows = if lv.len() > 0 { lv.drop_first() } else { lv };
    let mut ps: Vec<Proc> = Vec::new();
    let n = ls.len();
    let mut i: usize = 1;
    assert(rows.take(0) =~= Seq::<Seq<char>>::empty());
    assert(procs_view(ps@) =~= Seq::<ProcView>::empty());
    while i < n
        invariant
            n == ls@.len(),
            lv == views(ls@),
            rows == (if lv.len() > 0 { lv.drop_first() } else { lv }),
            1 <= i,
            i <= n || (n == 0 && i == 1),
            table_view(t@) == cap_table(iostat@),
            procs_view(ps@) == proc_rows(rows.take(i - 1), table_view(t@)),
        decreases n - i,
    {
        let line = &ls[i];
        assert(rows[i - 1] == line@);
        assert(rows.take(i as int).drop_last() == rows.take(i - 1));
        assert(rows.take(i as int).last() == line@);
        let ghost before = procs_view(ps@);
        match proc_of_row(line, &t) {
            Some(p) => {
                ps.push(p);
                assert(procs_view(ps@) =~= before.push(ps@.last()@));
            },
            None => {},
        }
        i = i + 1;
    }
    proof {
        if n > 0 {
            assert(i == n);
            assert(rows.len() == n - 1);
            assert(rows.take(i - 1) =~= rows);
        } else {
            assert(rows.len() == 0);
            assert(rows.take(i - 1) =~= rows);
        }
    }
    ps
}


proof fn lemma_find_entry_props(t: CapTable, pid: Seq<char>)
    ensures
        find_entry(t, pid) <= t.len(),
        forall|i: int| 0 <= i < find_entry(t, pid) ==> (#[trigger] t[i]).0 != pid,
        find_entry(t, pid) < t.len() ==> t[find_entry(t, pid) as int].0 == pid,
    decreases t.len(),
{
    if t.len() > 0 && t[0].0 != pid {
        let u = t.drop_first();
        lemma_find_entry_props(u, pid);
        assert forall|i: int| 0 <= i < find_entry(t, pid) implies (#[trigger] t[i]).0 != pid by {
            if i > 0 {
                assert(t[i] == u[i - 1]);
            }
        }
        if find_entry(t, pid) < t.len() {
            assert(t[find_entry(t, pid) as int] == u[find_entry(u, pid) as int]);
        }
    }
}

/// A table lists each pid once, and each pid's schemes once.
pub open spec fn table_distinct(t: CapTable) -> bool {
    &&& forall|i: int, j: int| 0 <= i < j < t.len() ==> (#[trigger] t[i]).0 != (#[trigger] t[j]).0
    &&& forall|e: int, a: int, b: int| 0 <= e < t.len() && 0 <= a < b < t[e].1.len() ==> (#[trigger] t[e].1[a]) != (#[trigger] t[e].1[b])
}

proof fn lemma_ensure_entry_distinct(t: CapTable, pid: Seq<char>)
    requires
        table_distinct(t),
    ensures
        table_distinct(ensure_entry(t, pid)),
        find_entry(ensure_entry(t, pid), pid) < ensure_entry(t, pid).len(),
        forall|i: int| 0 <= i < ensure_entry(t, pid).len() ==> (#[trigger] ensure_entry(t, pid)[i]).0 == pid || (i < t.len() && ensure_entry(t, pid)[i] == t[i]),
{
    lemma_find_entry_props(t, pid);
    let u = ensure_entry(t, pid);
    if find_entry(t, pid) == t.len() {
        assert forall|i: int, j: int| 0 <= i < j < u.len() implies (#[trigger] u[i]).0 != (#[trigger] u[j]).0 by {
            if j == t.len() {
                assert(u[i] == t[i]);
            } else {
                assert(u[i] == t[i]);
                assert(u[j] == t[j]);
            }
        }
        assert forall|e: int, a: int, b: int| 0 <= e < u.len() && 0 <= a < b < u[e].1.len() implies (#[trigger] u[e].1[a]) != (#[trigger] u[e].1[b]) by {
            assert(e < t.len());
            assert(u[e] == t[e]);
        }
        assert forall|i: int| 0 <= i < t.len() implies (#[trigger] u[i]).0 != pid by {
            assert(u[i] == t[i]);
        }
        crate::procs::lemma_find_entry(u, pid, t.len() as int);
    }
}

/// Reading a line keeps the table's pids and schemes distinct.
proof fn lemma_cap_step_distinct(st: (CapTable, Seq<char>), line: Seq<char>)
    requires
        table_distinct(st.0),
    ensures
        table_distinct(cap_step(st, line).0),
{
    let (t, cur) = st;
    match header_pid(line) {
        Some(pid) => {
            lemma_ensure_entry_distinct(t, pid);
        },
        None => if cur.len() > 0 && scheme_of_line(line) is Some {
            let sc = scheme_of_line(line)->0;
            lemma_ensure_entry_distinct(t, cur);
            let t1 = ensure_entry(t, cur);
            let j = find_entry(t1, cur) as int;
            if !t1[j].1.contains(sc) {
                let u = t1.update(j, (cur, t1[j].1.push(sc)));
                lemma_find_entry_props(t1, cur);
                assert forall|i: int, k: int| 0 <= i < k < u.len() implies (#[trigger] u[i]).0 != (#[trigger] u[k]).0 by {
                    assert(u[i].0 == t1[i].0);
                    assert(u[k].0 == t1[k].0);
                }
                assert forall|e: int, a: int, b: int| 0 <= e < u.len() && 0 <= a < b < u[e].1.len() implies (#[trigger] u[e].1[a]) != (#[trigger] u[e].1[b]) by {
                    if e == j {
                        if b == t1[j].1.len() {
                            assert(u[e].1[a] == t1[j].1[a]);
                            assert(u[e].1[b] == sc);
                        } else {
                            assert(u[e].1[a] == t1[j].1[a]);
                            assert(u[e].1[b] == t1[j].1[b]);
                        }
                    } else {
                        assert(u[e] == t1[e]);
                    }
                }
            }
        } else {
        },
    }
}

/// Law: the capability inspector lists each process once and each of its
/// schemes once, however often a descriptor repeats a scheme.
pub proof fn law_cap_table_distinct(ls: Seq<Seq<char>>)
    ensures
        table_distinct(cap_state(ls).0),
    decreases ls.len(),
{
    if ls.len() > 0 {
        law_cap_table_distinct(ls.drop_last());
        lemma_cap_step_distinct(cap_state(ls.drop_last()), ls.last());
    }
}

} // verus!
