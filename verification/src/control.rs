//! The decisions of the control window: reading the directory list of a
//! security scan, the status codes of findings, the mute toggle, and the
//! process-kill and prefix inputs.

use vstd::prelude::*;
use crate::text::{split_char, split_on, strings_view, trim, trim_bounds, sub_vec, views, to_chars, from_chars, trimmed};
use crate::num::{signed_text, int_text, parse_i64_range, i64_text, parse_i32_trimmed};
use crate::sys::Audio;

verus! {

/// The directories of a comma-separated list: each piece trimmed, empty pieces
/// dropped.
pub open spec fn roots_of(pieces: Seq<Seq<char>>) -> Seq<Seq<char>>
    decreases pieces.len(),
{
    if pieces.len() == 0 {
        Seq::empty()
    } else {
        let r = roots_of(pieces.drop_last());
        if trim(pieces.last()).len() > 0 {
            r.push(trim(pieces.last()))
        } else {
            r
        }
    }
}

/// Split the scan field's comma-separated directory list.
pub fn parse_roots(s: &str) -> (r: Vec<String>)
    ensures
        strings_view(r@) == roots_of(split_char(s@, ',')),
{
    let v = to_chars(s);
    let ps = split_on(&v, ',');
    let ghost pv = views(ps@);
    let mut r: Vec<String> = Vec::new();
    let n = ps.len();
    for i in 0..n
        invariant
            n == ps@.len(),
            pv == views(ps@),
            strings_view(r@) == roots_of(pv.take(i as int)),
    {
        let p = &ps[i];
        assert(pv.take(i + 1).drop_last() == pv.take(i as int));
        assert(pv.take(i + 1).last() == p@);
        let (a, b) = trim_bounds(p, 0, p.len());
        assert(p@.subrange(0, p@.len() as int) == p@);
        if b > a {
            let ghost before = strings_view(r@);
            r.push(from_chars(&sub_vec(p, a, b)));
            assert(strings_view(r@) =~= before.push(trim(p@)));
        }
    }
    assert(pv.take(n as int) == pv);
    r
}

/// The status of a file in an integrity scan.
#[derive(Clone, Copy, Debug, PartialEq, Eq, Structural)]
pub enum Status {
    Intact,
    New,
    Modified,
    Removed,
    Warn,
}

/// The display code of a status (0 ok, 1 new, 2 modified, 3 removed, 4 warning).
pub fn kind_of(s: Status) -> (k: i32)
    ensures
        k == (match s {
            Status::Intact => 0i32,
            Status::New => 1i32,
            Status::Modified => 2i32,
            Status::Removed => 3i32,
            Status::Warn => 4i32,
        }),
{
    match s {
        Status::Intact => 0,
        Status::New => 1,
        Status::Modified => 2,
        Status::Removed => 3,
        Status::Warn => 4,
    }
}

/// One press of the mute button, from whether audio is up, the current level
/// and the remembered level: the remembered level afterwards and the level to
/// set, if any.
pub open spec fn mute_step(available: bool, volume: i32, premute: i32) -> (i32, Option<i32>) {
    if !available {
        (premute, None)
    } else if volume > 0 {
        (volume, Some(0i32))
    } else {
        (premute, Some(if premute > 0 { premute } else { 50i32 }))
    }
}

/// Law: muting and then un-muting gives back the level the audio had: the
/// first press sets 0 and remembers the level, the second restores it.
pub proof fn law_unmute_restores(volume: i32, premute: i32)
    requires
        volume > 0,
    ensures
        mute_step(true, volume, premute) == (volume, Some(0i32)),
        mute_step(true, 0, mute_step(true, volume, premute).0) == (volume, Some(volume)),
{
}

/// The mute toggle. The audio daemon has no mute flag, so muting sets the level
/// to 0 and remembers the old one; un-muting restores it (or 50 if none was
/// remembered). Returns the remembered level and the level to set, if any —
/// nothing happens while audio is unavailable.
pub fn toggle_mute(cur: &Audio, premute: i32) -> (r: (i32, Option<i32>))
    ensures
        r == mute_step(cur.available, cur.volume, premute),
{
    if cur.available {
        if cur.volume > 0 {
            (cur.volume, Some(0))
        } else {
            (premute, Some(if premute > 0 {
                premute
            } else {
                50
            }))
        }
    } else {
        (premute, None)
    }
}

/// The prefix typed in the network form: its trimmed text as an `i32`, or -1
/// (which the static check then refuses as out of range).
pub fn prefix_field(text: &str) -> (p: i32)
    ensures
        p as int == (match signed_text(trim(text@), i32::MIN as int, i32::MAX as int) {
            Some(v) => v,
            None => -1,
        }),
{
    match parse_i32_trimmed(text) {
        Some(v) => v,
        None => -1,
    }
}

/// The pid of the kill button: the trimmed text as an `i64`.
pub fn parse_pid(text: &str) -> (r: Option<i64>)
    ensures
        r matches Some(p) ==> signed_text(trim(text@), i64::MIN as int, i64::MAX as int) == Some(p as int),
        r is None ==> signed_text(trim(text@), i64::MIN as int, i64::MAX as int) is None,
{
    let t = trimmed(text);
    assert(t@.subrange(0, t@.len() as int) == t@);
    parse_i64_range(&t, 0, t.len())
}

/// The status line after a kill: the pid was unreadable, the process was
/// ended, or the kill failed with an error.
pub open spec fn kill_message_of(pid: Option<i64>, result: Result<(), Seq<char>>) -> Seq<char> {
    match pid {
        None => "Nieprawidłowy PID."@,
        Some(p) => match result {
            Ok(()) => "Zakończono PID "@ + int_text(p as int) + "."@,
            Err(e) => "Błąd: "@ + e,
        },
    }
}

/// The status line after a kill attempt on `pid` with result `result`.
pub fn kill_message(pid: Option<i64>, result: &Result<(), String>) -> (m: String)
    ensures
        m@ == kill_message_of(pid, match result {
            Ok(()) => Ok(()),
            Err(e) => Err(e@),
        }),
{
    match pid {
        None => String::from_str("Nieprawidłowy PID."),
        Some(p) => match result {
            Ok(()) => {
                let mut m = String::from_str("Zakończono PID ");
                m.append(i64_text(p).as_str());
                m.append(".");
                m
            },
            Err(e) => {
                let mut m = String::from_str("Błąd: ");
                m.append(e.as_str());
                m
            },
        },
    }
}

/// `s` with every occurrence of `x` taken out, the rest in order.
pub open spec fn without(s: Seq<Seq<char>>, x: Seq<char>) -> Seq<Seq<char>>
    decreases s.len(),
{
    if s.len() == 0 {
        s
    } else {
        let r = without(s.drop_last(), x);
        if s.last() == x {
            r
        } else {
            r.push(s.last())
        }
    }
}

/// The expanded groups after the expander of group `x` is clicked: a group that
/// was open closes, a closed one opens.
pub open spec fn toggled(s: Seq<Seq<char>>, x: Seq<char>) -> Seq<Seq<char>> {
    if s.contains(x) {
        without(s, x)
    } else {
        s.push(x)
    }
}

/// What `without` keeps: everything but `x`.
pub proof fn lemma_without_contains(s: Seq<Seq<char>>, x: Seq<char>, y: Seq<char>)
    ensures
        without(s, x).contains(y) <==> (s.contains(y) && y != x),
    decreases s.len(),
{
    if s.len() > 0 {
        lemma_without_contains(s.drop_last(), x, y);
        let r = without(s.drop_last(), x);
        if s.contains(y) && y != x {
            let k = choose|k: int| 0 <= k < s.len() && s[k] == y;
            if k < s.len() - 1 {
                assert(s.drop_last()[k] == y);
            }
        }
        if without(s, x).contains(y) {
            if s.last() != x {
                let k = choose|k: int| 0 <= k < r.push(s.last()).len() && r.push(s.last())[k] == y;
                if k == r.len() {
                    assert(s[s.len() - 1] == y);
                }
            }
        }
        if s.drop_last().contains(y) {
            let k = choose|k: int| 0 <= k < s.drop_last().len() && s.drop_last()[k] == y;
            assert(s[k] == y);
        }
        if s.last() != x && r.contains(y) {
            let k = choose|k: int| 0 <= k < r.len() && r[k] == y;
            assert(r.push(s.last())[k] == y);
        }
        if s.last() != x && y == s.last() {
            assert(r.push(s.last())[r.len() as int] == y);
        }
    }
}

/// `without` keeps a list free of repeats.
proof fn lemma_without_no_duplicates(s: Seq<Seq<char>>, x: Seq<char>)
    requires
        s.no_duplicates(),
    ensures
        without(s, x).no_duplicates(),
    decreases s.len(),
{
    if s.len() > 0 {
        lemma_without_no_duplicates(s.drop_last(), x);
        lemma_without_contains(s.drop_last(), x, s.last());
        assert(s.drop_last().no_duplicates());
        if s.drop_last().contains(s.last()) {
            let k = choose|k: int| 0 <= k < s.drop_last().len() && s.drop_last()[k] == s.last();
            assert(s[k] == s[s.len() - 1]);
        }
    }
}

/// Taking out a name that is not there changes nothing.
proof fn lemma_without_absent(s: Seq<Seq<char>>, x: Seq<char>)
    requires
        !s.contains(x),
    ensures
        without(s, x) == s,
    decreases s.len(),
{
    if s.len() > 0 {
        if s.drop_last().contains(x) {
            let k = choose|k: int| 0 <= k < s.drop_last().len() && s.drop_last()[k] == x;
            assert(s[k] == x);
        }
        assert(s[s.len() - 1] != x);
        lemma_without_absent(s.drop_last(), x);
        assert(s.drop_last().push(s.last()) =~= s);
    }
}

/// Click the expander of group `name`: close it if it is open, open it if not.
/// The list of open groups never holds a name twice.
pub fn toggle_expanded(expanded: &mut Vec<String>, name: &str)
    requires
        strings_view(old(expanded)@).no_duplicates(),
    ensures
        strings_view(final(expanded)@) == toggled(strings_view(old(expanded)@), name@),
        strings_view(final(expanded)@).no_duplicates(),
{
    let ghost s0 = strings_view(expanded@);
    let target = String::from_str(name);
    let mut kept: Vec<String> = Vec::new();
    let mut found = false;
    let n = expanded.len();
    for i in 0..n
        invariant
            n == expanded@.len(),
            s0 == strings_view(expanded@),
            target@ == name@,
            strings_view(kept@) == without(s0.take(i as int), name@),
            found <==> s0.take(i as int).contains(name@),
    {
        assert(s0.take(i + 1).drop_last() == s0.take(i as int));
        assert(s0.take(i + 1).last() == expanded@[i as int]@);
        if expanded[i] == target {
            found = true;
            assert(s0.take(i + 1)[i as int] == name@);
        } else {
            let ghost before = strings_view(kept@);
            kept.push(expanded[i].clone());
            assert(strings_view(kept@) =~= before.push(expanded@[i as int]@));
            proof {
                if s0.take(i + 1).contains(name@) {
                    let k = choose|k: int| 0 <= k < i + 1 && #[trigger] s0.take(i + 1)[k] == name@;
                    assert(s0.take(i as int)[k] == name@);
                }
            }
        }
        proof {
            if s0.take(i as int).contains(name@) {
                let k = choose|k: int| 0 <= k < i && #[trigger] s0.take(i as int)[k] == name@;
                assert(s0.take(i + 1)[k] == name@);
            }
        }
    }
    assert(s0.take(n as int) == s0);
    proof {
        lemma_without_no_duplicates(s0, name@);
    }
    if !found {
        let ghost before = strings_view(kept@);
        proof {
            lemma_without_absent(s0, name@);
        }
        kept.push(String::from_str(name));
        assert(strings_view(kept@) =~= s0.push(name@));
    }
    *expanded = kept;
}

/// Law: clicking a group's expander flips whether that group is open and
/// leaves every other group as it was.
pub proof fn law_toggle_flips(s: Seq<Seq<char>>, x: Seq<char>, y: Seq<char>)
    ensures
        toggled(s, x).contains(y) <==> (if y == x { !s.contains(x) } else { s.contains(y) }),
{
    lemma_without_contains(s, x, y);
    if !s.contains(x) {
        if y == x {
            assert(s.push(x)[s.len() as int] == x);
        }
        if s.push(x).contains(y) && y != x {
            let k = choose|k: int| 0 <= k < s.push(x).len() && s.push(x)[k] == y;
            assert(s[k] == y);
        }
        if s.contains(y) {
            let k = choose|k: int| 0 <= k < s.len() && s[k] == y;
            assert(s.push(x)[k] == y);
        }
    }
}

/// Law: clicking the same expander twice leaves the same groups open.
pub proof fn law_toggle_twice(s: Seq<Seq<char>>, x: Seq<char>, y: Seq<char>)
    ensures
        toggled(toggled(s, x), x).contains(y) <==> s.contains(y),
{
    law_toggle_flips(s, x, y);
    law_toggle_flips(toggled(s, x), x, y);
    law_toggle_flips(s, x, x);
}

/// The pieces of a split hold no separator.
proof fn lemma_split_char_no_sep(s: Seq<char>, sep: char)
    ensures
        forall|k: int, i: int| 0 <= k < split_char(s, sep).len() && 0 <= i < split_char(s, sep)[k].len()
            ==> #[trigger] split_char(s, sep)[k][i] != sep,
    decreases s.len(),
{
    if s.len() > 0 {
        lemma_split_char_no_sep(s.drop_last(), sep);
        crate::text::lemma_split_char_nonempty(s.drop_last(), sep);
        let p = split_char(s.drop_last(), sep);
        let r = split_char(s, sep);
        assert forall|k: int, i: int| 0 <= k < r.len() && 0 <= i < r[k].len() implies #[trigger] r[k][i] != sep by {
            if s.last() == sep {
                if k < p.len() {
                    assert(r[k] == p[k]);
                }
            } else {
                if k < p.len() - 1 {
                    assert(r[k] == p[k]);
                } else {
                    assert(r[k] == p.last().push(s.last()));
                    if i < p.last().len() {
                        assert(r[k][i] == p[p.len() - 1][i]);
                    }
                }
            }
        }
    }
}

/// What `roots_of` holds: the non-empty trims of the pieces.
proof fn lemma_roots_of(pieces: Seq<Seq<char>>, x: Seq<char>)
    ensures
        roots_of(pieces).contains(x) <==> exists|k: int| 0 <= k < pieces.len() && trim(#[trigger] pieces[k])
            == x && x.len() > 0,
    decreases pieces.len(),
{
    if pieces.len() > 0 {
        let q = pieces.drop_last();
        lemma_roots_of(q, x);
        let r = roots_of(q);
        let t = trim(pieces.last());
        if roots_of(pieces).contains(x) {
            if t.len() > 0 && x == t {
                assert(trim(pieces[pieces.len() - 1]) == x);
            } else {
                if t.len() > 0 {
                    let i = choose|i: int| 0 <= i < r.push(t).len() && r.push(t)[i] == x;
                    assert(r[i] == x);
                }
                let k = choose|k: int| 0 <= k < q.len() && trim(#[trigger] q[k]) == x && x.len() > 0;
                assert(pieces[k] == q[k]);
            }
        }
        if exists|k: int| 0 <= k < pieces.len() && trim(#[trigger] pieces[k]) == x && x.len() > 0 {
            let k = choose|k: int| 0 <= k < pieces.len() && trim(#[trigger] pieces[k]) == x && x.len() > 0;
            if k == pieces.len() - 1 {
                assert(r.push(t)[r.len() as int] == x);
            } else {
                assert(trim(q[k]) == x);
                let i = choose|i: int| 0 <= i < r.len() && r[i] == x;
                if t.len() > 0 {
                    assert(r.push(t)[i] == x);
                }
            }
        }
    }
}

/// Law: the directory list reads as the trimmed, non-empty pieces between the
/// commas. Every directory returned is non-empty, has no surrounding
/// whitespace and no comma, and is the trimmed text of a piece of the field;
/// every piece that is not blank gives its trimmed text.
pub proof fn law_roots_trimmed(s: Seq<char>, x: Seq<char>)
    ensures
        roots_of(split_char(s, ',')).contains(x) ==> x.len() > 0 && trim(x) == x && forall|i: int|
            0 <= i < x.len() ==> #[trigger] x[i] != ',',
        roots_of(split_char(s, ',')).contains(x) <==> exists|k: int| 0 <= k < split_char(s, ',').len()
            && trim(#[trigger] split_char(s, ',')[k]) == x && x.len() > 0,
{
    let ps = split_char(s, ',');
    lemma_roots_of(ps, x);
    if roots_of(ps).contains(x) {
        let k = choose|k: int| 0 <= k < ps.len() && trim(#[trigger] ps[k]) == x && x.len() > 0;
        crate::text::lemma_trim_idempotent(ps[k]);
        lemma_split_char_no_sep(s, ',');
        let p = ps[k];
        let ws = |c: char| crate::text::is_ws(c);
        crate::text::lemma_lead_len_props(p, ws);
        let a = crate::text::lead_len(p, ws) as int;
        let u = crate::text::trim_start(p);
        assert(u == p.subrange(a, p.len() as int));
        crate::text::lemma_trail_len_props(u, ws);
        let b = crate::text::trail_len(u, ws) as int;
        assert(x == u.subrange(0, u.len() - b));
        assert forall|i: int| 0 <= i < x.len() implies #[trigger] x[i] != ',' by {
            assert(x[i] == u[i]);
            assert(u[i] == p[a + i]);
            assert(ps[k][a + i] != ',');
        }
    }
}

} // verus!
