//! Character-level text model: the library reads every `&str` as the sequence of
//! its `char`s (its view) and states trimming, line splitting and word splitting
//! over that sequence.

use vstd::prelude::*;

verus! {

/// Unicode `White_Space`, the property `char::is_whitespace` tests.
pub open spec fn is_ws(c: char) -> bool {
    ||| ('\u{9}' <= c && c <= '\u{d}')
    ||| c == ' '
    ||| c == '\u{85}'
    ||| c == '\u{a0}'
    ||| c == '\u{1680}'
    ||| ('\u{2000}' <= c && c <= '\u{200a}')
    ||| c == '\u{2028}'
    ||| c == '\u{2029}'
    ||| c == '\u{202f}'
    ||| c == '\u{205f}'
    ||| c == '\u{3000}'
}

/// Executable whitespace test.
pub fn char_is_ws(c: char) -> (r: bool)
    ensures
        r == is_ws(c),
{
    ('\u{9}' <= c && c <= '\u{d}') || c == ' ' || c == '\u{85}' || c == '\u{a0}' || c == '\u{1680}'
        || ('\u{2000}' <= c && c <= '\u{200a}') || c == '\u{2028}' || c == '\u{2029}' || c
        == '\u{202f}' || c == '\u{205f}' || c == '\u{3000}'
}

/// The characters of `s`, in order.
pub fn to_chars(s: &str) -> (v: Vec<char>)
    ensures
        v@ == s@,
{
    let mut v: Vec<char> = Vec::new();
    for c in it: s.chars()
        invariant
            v@ == it.seq().take(it.index() as int),
            it.seq() == s@,
    {
        v.push(c);
    }
    v
}


/// Appends `c` to `s` (`String::push`, whose documentation says it appends the
/// given `char` to the end of the `String`).
#[verifier::external_body]
fn push_char(s: &mut String, c: char)
    ensures
        final(s)@ == old(s)@.push(c),
{
    s.push(c);
}

/// A `String` holding exactly the characters of `v`.
pub fn from_chars(v: &Vec<char>) -> (s: String)
    ensures
        s@ == v@,
{
    let mut s = String::new();
    let n = v.len();
    for i in 0..n
        invariant
            n == v@.len(),
            s@ == v@.take(i as int),
    {
        push_char(&mut s, v[i]);
        assert(v@.take(i + 1) == v@.take(i as int).push(v@[i as int]));
    }
    assert(v@.take(n as int) == v@);
    s
}

/// A `String` holding the characters `v[from..to]`.
pub fn from_char_range(v: &Vec<char>, from: usize, to: usize) -> (s: String)
    requires
        from <= to <= v@.len(),
    ensures
        s@ == v@.subrange(from as int, to as int),
{
    let mut s = String::new();
    let mut i = from;
    while i < to
        invariant
            from <= i <= to <= v@.len(),
            s@ == v@.subrange(from as int, i as int),
        decreases to - i,
    {
        push_char(&mut s, v[i]);
        assert(v@.subrange(from as int, i + 1) == v@.subrange(from as int, i as int).push(
            v@[i as int],
        ));
        i = i + 1;
    }
    s
}

/// Whether the characters `v[from..to]` are exactly `lit`.
pub fn range_eq(v: &Vec<char>, from: usize, to: usize, lit: &str) -> (r: bool)
    requires
        from <= to <= v@.len(),
    ensures
        r == (v@.subrange(from as int, to as int) == lit@),
{
    let w = to_chars(lit);
    if to - from != w.len() {
        return false;
    }
    let mut i: usize = 0;
    while i < w.len()
        invariant
            from <= to <= v@.len(),
            to - from == w@.len(),
            w@ == lit@,
            i <= w@.len(),
            forall|k: int| 0 <= k < i ==> v@[from + k] == w@[k],
        decreases w@.len() - i,
    {
        if v[from + i] != w[i] {
            assert(v@.subrange(from as int, to as int)[i as int] != lit@[i as int]);
            return false;
        }
        i = i + 1;
    }
    assert(v@.subrange(from as int, to as int) =~= lit@);
    true
}

/// Whether `v` is exactly `lit`.
pub fn chars_eq(v: &Vec<char>, lit: &str) -> (r: bool)
    ensures
        r == (v@ == lit@),
{
    let r = range_eq(v, 0, v.len(), lit);
    assert(v@.subrange(0, v@.len() as int) == v@);
    r
}

/// Length of the longest prefix of `s` whose characters all satisfy `p`.
pub open spec fn lead_len(s: Seq<char>, p: spec_fn(char) -> bool) -> nat
    decreases s.len(),
{
    if s.len() > 0 && p(s[0]) {
        1 + lead_len(s.drop_first(), p)
    } else {
        0
    }
}

/// Length of the longest suffix of `s` whose characters all satisfy `p`.
pub open spec fn trail_len(s: Seq<char>, p: spec_fn(char) -> bool) -> nat
    decreases s.len(),
{
    if s.len() > 0 && p(s.last()) {
        1 + trail_len(s.drop_last(), p)
    } else {
        0
    }
}

/// `lead_len` is the index of the first character failing `p`.
pub proof fn lemma_lead_len(s: Seq<char>, p: spec_fn(char) -> bool, k: int)
    requires
        0 <= k <= s.len(),
        forall|i: int| 0 <= i < k ==> p(#[trigger] s[i]),
        k == s.len() || !p(s[k]),
    ensures
        lead_len(s, p) == k,
    decreases k,
{
    if k > 0 {
        assert(p(s[0]));
        lemma_lead_len(s.drop_first(), p, k - 1);
    }
}

/// `trail_len` counts back to the last character failing `p`.
pub proof fn lemma_trail_len(s: Seq<char>, p: spec_fn(char) -> bool, k: int)
    requires
        0 <= k <= s.len(),
        forall|i: int| s.len() - k <= i < s.len() ==> p(#[trigger] s[i]),
        k == s.len() || !p(s[s.len() - k - 1]),
    ensures
        trail_len(s, p) == k,
    decreases k,
{
    if k > 0 {
        assert(p(s[s.len() - 1]));
        lemma_trail_len(s.drop_last(), p, k - 1);
    }
}

/// `lead_len` is a prefix of satisfying characters ended by one that fails.
pub proof fn lemma_lead_len_props(s: Seq<char>, p: spec_fn(char) -> bool)
    ensures
        lead_len(s, p) <= s.len(),
        forall|i: int| 0 <= i < lead_len(s, p) ==> p(#[trigger] s[i]),
        lead_len(s, p) < s.len() ==> !p(s[lead_len(s, p) as int]),
    decreases s.len(),
{
    if s.len() > 0 && p(s[0]) {
        let t = s.drop_first();
        lemma_lead_len_props(t, p);
        assert forall|i: int| 0 <= i < lead_len(s, p) implies p(#[trigger] s[i]) by {
            if i > 0 {
                assert(s[i] == t[i - 1]);
            }
        }
        if lead_len(s, p) < s.len() {
            assert(s[lead_len(s, p) as int] == t[lead_len(t, p) as int]);
        }
    }
}

/// `trail_len` is a suffix of satisfying characters preceded by one that fails.
pub proof fn lemma_trail_len_props(s: Seq<char>, p: spec_fn(char) -> bool)
    ensures
        trail_len(s, p) <= s.len(),
        forall|i: int| s.len() - trail_len(s, p) <= i < s.len() ==> p(#[trigger] s[i]),
        trail_len(s, p) < s.len() ==> !p(s[s.len() - trail_len(s, p) - 1]),
    decreases s.len(),
{
    if s.len() > 0 && p(s.last()) {
        let t = s.drop_last();
        lemma_trail_len_props(t, p);
        assert forall|i: int| s.len() - trail_len(s, p) <= i < s.len() implies p(#[trigger] s[i]) by {
            if i < s.len() - 1 {
                assert(s[i] == t[i]);
            }
        }
        if trail_len(s, p) < s.len() {
            assert(s[s.len() - trail_len(s, p) - 1] == t[t.len() - trail_len(t, p) - 1]);
        }
    }
}

/// Trimming twice is trimming once.
pub proof fn lemma_trim_idempotent(s: Seq<char>)
    ensures
        trim(trim(s)) == trim(s),
{
    let ws = |c: char| is_ws(c);
    lemma_lead_len_props(s, ws);
    let a = trim_start(s);
    lemma_trail_len_props(a, ws);
    let t = trim(s);
    if t.len() > 0 {
        assert(t[0] == a[0]);
        assert(a[0] == s[lead_len(s, ws) as int]);
        assert(t.last() == a[a.len() - trail_len(a, ws) - 1]);
        lemma_lead_len(t, ws, 0);
        assert(trim_start(t) =~= t);
        lemma_trail_len(t, ws, 0);
        assert(trim_end(t) =~= t);
    } else {
        lemma_lead_len(t, ws, 0);
        assert(trim_start(t) =~= t);
        lemma_trail_len(t, ws, 0);
        assert(trim_end(t) =~= t);
    }
}

/// A text with nothing to trim, written as a line and read back trimmed, is
/// the text.
pub proof fn lemma_trim_line(t: Seq<char>)
    requires
        trim(t) == t,
    ensures
        trim(t + "\n"@) == t,
{
    reveal_strlit("\n");
    let s = t + "\n"@;
    let ws = |c: char| is_ws(c);
    assert(s[t.len() as int] == '\n');
    if t.len() == 0 {
        lemma_lead_len(s, ws, 1);
        assert(trim_start(s) =~= Seq::<char>::empty());
        lemma_trail_len(trim_start(s), ws, 0);
        assert(trim(s) =~= t);
    } else {
        lemma_lead_len_props(t, ws);
        lemma_trail_len_props(trim_start(t), ws);
        assert(lead_len(t, ws) == 0);
        assert(trail_len(trim_start(t), ws) == 0);
        assert(trim_start(t) =~= t);
        assert(s[0] == t[0]);
        lemma_lead_len(s, ws, 0);
        assert(trim_start(s) =~= s);
        assert(s[s.len() - 2] == t[t.len() - 1]);
        lemma_trail_len(s, ws, 1);
        assert(trim(s) =~= t);
    }
}

/// `t` has no whitespace character.
pub open spec fn no_ws(t: Seq<char>) -> bool {
    forall|i: int| 0 <= i < t.len() ==> !is_ws(#[trigger] t[i])
}

/// The words being split hold no whitespace.
proof fn lemma_words_acc_no_ws(s: Seq<char>)
    ensures
        forall|k: int| 0 <= k < words_acc(s).0.len() ==> no_ws(#[trigger] words_acc(s).0[k]),
        no_ws(words_acc(s).1),
    decreases s.len(),
{
    if s.len() > 0 {
        lemma_words_acc_no_ws(s.drop_last());
        let (w, cur) = words_acc(s.drop_last());
        if !is_ws(s.last()) {
            assert forall|i: int| 0 <= i < cur.push(s.last()).len() implies !is_ws(
                #[trigger] cur.push(s.last())[i],
            ) by {
                if i < cur.len() {
                    assert(cur.push(s.last())[i] == cur[i]);
                }
            }
        } else if cur.len() > 0 {
            assert forall|k: int| 0 <= k < w.push(cur).len() implies no_ws(#[trigger] w.push(cur)[k]) by {
                if k < w.len() {
                    assert(w.push(cur)[k] == w[k]);
                }
            }
        }
    }
}

/// The words of a text hold no whitespace.
pub proof fn lemma_words_no_ws(s: Seq<char>)
    ensures
        forall|k: int| 0 <= k < words(s).len() ==> no_ws(#[trigger] words(s)[k]),
{
    lemma_words_acc_no_ws(s);
    let (w, cur) = words_acc(s);
    if cur.len() > 0 {
        assert forall|k: int| 0 <= k < w.push(cur).len() implies no_ws(#[trigger] w.push(cur)[k]) by {
            if k < w.len() {
                assert(w.push(cur)[k] == w[k]);
            }
        }
    }
}

/// `s` without its leading whitespace (`str::trim_start`).
pub open spec fn trim_start(s: Seq<char>) -> Seq<char> {
    s.subrange(lead_len(s, |c: char| is_ws(c)) as int, s.len() as int)
}

/// `s` without its trailing whitespace (`str::trim_end`).
pub open spec fn trim_end(s: Seq<char>) -> Seq<char> {
    s.subrange(0, s.len() - trail_len(s, |c: char| is_ws(c)))
}

/// `s` without leading and trailing whitespace (`str::trim`).
pub open spec fn trim(s: Seq<char>) -> Seq<char> {
    trim_end(trim_start(s))
}

/// The bounds `(lo, hi)` of `trim(v[from..to])` inside `v`.
pub fn trim_bounds(v: &Vec<char>, from: usize, to: usize) -> (r: (usize, usize))
    requires
        from <= to <= v@.len(),
    ensures
        from <= r.0 <= r.1 <= to,
        v@.subrange(r.0 as int, r.1 as int) == trim(v@.subrange(from as int, to as int)),
        v@.subrange(r.0 as int, to as int) == trim_start(v@.subrange(from as int, to as int)),
{
    let ghost s = v@.subrange(from as int, to as int);
    let mut lo = from;
    while lo < to && char_is_ws(v[lo])
        invariant
            from <= lo <= to <= v@.len(),
            s == v@.subrange(from as int, to as int),
            forall|i: int| 0 <= i < lo - from ==> is_ws(#[trigger] s[i]),
        decreases to - lo,
    {
        lo = lo + 1;
    }
    proof {
        lemma_lead_len(s, |c: char| is_ws(c), lo - from);
    }
    let ghost t = v@.subrange(lo as int, to as int);
    assert(t == trim_start(s));
    let mut hi = to;
    while hi > lo && char_is_ws(v[hi - 1])
        invariant
            from <= lo <= hi <= to <= v@.len(),
            t == v@.subrange(lo as int, to as int),
            forall|i: int| t.len() - (to - hi) <= i < t.len() ==> is_ws(#[trigger] t[i]),
        decreases hi - lo,
    {
        hi = hi - 1;
    }
    proof {
        lemma_trail_len(t, |c: char| is_ws(c), to - hi);
        assert(v@.subrange(lo as int, hi as int) =~= t.subrange(0, t.len() - (to - hi)));
    }
    (lo, hi)
}

/// The characters of `s.trim()`.
pub fn trimmed(s: &str) -> (v: Vec<char>)
    ensures
        v@ == trim(s@),
{
    let w = to_chars(s);
    let (lo, hi) = trim_bounds(&w, 0, w.len());
    assert(w@.subrange(0, w@.len() as int) == w@);
    let mut v: Vec<char> = Vec::new();
    let mut i = lo;
    while i < hi
        invariant
            lo <= i <= hi <= w@.len(),
            v@ == w@.subrange(lo as int, i as int),
        decreases hi - i,
    {
        v.push(w[i]);
        assert(w@.subrange(lo as int, i + 1) == w@.subrange(lo as int, i as int).push(w@[i as int]));
        i = i + 1;
    }
    v
}


/// The views of a sequence of strings.
pub open spec fn strings_view(v: Seq<String>) -> Seq<Seq<char>> {
    v.map_values(|w: String| w@)
}

/// The views of a sequence of character vectors.
pub open spec fn views(v: Seq<Vec<char>>) -> Seq<Seq<char>> {
    v.map_values(|w: Vec<char>| w@)
}

/// A copy of `v[from..to]`.
pub fn sub_vec(v: &Vec<char>, from: usize, to: usize) -> (r: Vec<char>)
    requires
        from <= to <= v@.len(),
    ensures
        r@ == v@.subrange(from as int, to as int),
{
    let mut r: Vec<char> = Vec::new();
    let mut i = from;
    while i < to
        invariant
            from <= i <= to <= v@.len(),
            r@ == v@.subrange(from as int, i as int),
        decreases to - i,
    {
        r.push(v[i]);
        assert(v@.subrange(from as int, i + 1) == v@.subrange(from as int, i as int).push(v@[i as int]));
        i = i + 1;
    }
    r
}

/// The pieces of `s` between occurrences of `sep` (`str::split` on one `char`):
/// always at least one piece, empty pieces kept.
pub open spec fn split_char(s: Seq<char>, sep: char) -> Seq<Seq<char>>
    decreases s.len(),
{
    if s.len() == 0 {
        seq![Seq::<char>::empty()]
    } else {
        let p = split_char(s.drop_last(), sep);
        if s.last() == sep {
            p.push(Seq::<char>::empty())
        } else {
            p.update(p.len() - 1, p.last().push(s.last()))
        }
    }
}

pub proof fn lemma_split_char_nonempty(s: Seq<char>, sep: char)
    ensures
        split_char(s, sep).len() >= 1,
    decreases s.len(),
{
    if s.len() > 0 {
        lemma_split_char_nonempty(s.drop_last(), sep);
    }
}

/// Splitting a text with no separator gives the text itself.
pub proof fn lemma_split_char_none(s: Seq<char>, sep: char)
    requires
        forall|i: int| 0 <= i < s.len() ==> s[i] != sep,
    ensures
        split_char(s, sep) == seq![s],
    decreases s.len(),
{
    if s.len() > 0 {
        lemma_split_char_none(s.drop_last(), sep);
        assert(s.drop_last().push(s.last()) == s);
    } else {
        assert(s == Seq::<char>::empty());
    }
}

/// Splitting at a separator splits the two sides independently.
pub proof fn lemma_split_char_append(s: Seq<char>, t: Seq<char>, sep: char)
    ensures
        split_char(s + seq![sep] + t, sep) == split_char(s, sep) + split_char(t, sep),
    decreases t.len(),
{
    lemma_split_char_nonempty(s, sep);
    if t.len() == 0 {
        assert(s + seq![sep] + t == (s + seq![sep]));
        assert((s + seq![sep]).drop_last() == s);
        assert(split_char(t, sep) == seq![Seq::<char>::empty()]);
        assert(split_char(s, sep).push(Seq::<char>::empty()) == split_char(s, sep) + seq![
            Seq::<char>::empty(),
        ]);
    } else {
        let u = s + seq![sep] + t;
        lemma_split_char_append(s, t.drop_last(), sep);
        lemma_split_char_nonempty(t.drop_last(), sep);
        assert(u.drop_last() == s + seq![sep] + t.drop_last());
        assert(u.last() == t.last());
        let a = split_char(s, sep);
        let b = split_char(t.drop_last(), sep);
        if t.last() == sep {
            assert((a + b).push(Seq::<char>::empty()) == a + b.push(Seq::<char>::empty()));
        } else {
            assert((a + b).update((a + b).len() - 1, (a + b).last().push(t.last())) == a + b.update(
                b.len() - 1,
                b.last().push(t.last()),
            ));
        }
    }
}

/// Joining the pieces of a split with the separator gives the text back.
pub proof fn lemma_split_join(s: Seq<char>, sep: char)
    ensures
        join(split_char(s, sep), seq![sep]) == s,
    decreases s.len(),
{
    if s.len() == 0 {
        assert(join(split_char(s, sep), seq![sep]) == Seq::<char>::empty());
        assert(s =~= Seq::<char>::empty());
    } else {
        let t = s.drop_last();
        lemma_split_join(t, sep);
        lemma_split_char_nonempty(t, sep);
        let p = split_char(t, sep);
        if s.last() == sep {
            let q = p.push(Seq::<char>::empty());
            assert(q.drop_last() =~= p);
            assert(join(q, seq![sep]) == join(p, seq![sep]) + seq![sep] + Seq::<char>::empty());
            assert(s =~= t + seq![sep] + Seq::<char>::empty());
        } else {
            let q = p.update(p.len() - 1, p.last().push(s.last()));
            if p.len() == 1 {
                assert(join(q, seq![sep]) == q[0]);
                assert(s =~= t.push(s.last()));
            } else {
                assert(q.drop_last() =~= p.drop_last());
                assert(join(q, seq![sep]) == join(p.drop_last(), seq![sep]) + seq![sep] + p.last().push(s.last()));
                assert(join(p, seq![sep]) == join(p.drop_last(), seq![sep]) + seq![sep] + p.last());
                assert(s =~= t.push(s.last()));
                assert(join(q, seq![sep]) =~= join(p, seq![sep]).push(s.last()));
            }
        }
    }
}

/// The pieces of `v` between occurrences of `sep`.
pub fn split_on(v: &Vec<char>, sep: char) -> (r: Vec<Vec<char>>)
    ensures
        views(r@) == split_char(v@, sep),
{
    let mut done: Vec<Vec<char>> = Vec::new();
    let mut cur: Vec<char> = Vec::new();
    let n = v.len();
    for i in 0..n
        invariant
            n == v@.len(),
            views(done@).push(cur@) == split_char(v@.take(i as int), sep),
    {
        let c = v[i];
        let ghost pre = v@.take(i as int);
        assert(v@.take(i + 1).drop_last() == pre);
        assert(v@.take(i + 1).last() == c);
        let ghost p = split_char(pre, sep);
        if c == sep {
            let old_cur = cur;
            cur = Vec::new();
            done.push(old_cur);
            assert(views(done@).push(cur@) == p.push(Seq::<char>::empty()));
        } else {
            cur.push(c);
            assert(views(done@).push(cur@) == p.update(p.len() - 1, p.last().push(c)));
        }
    }
    assert(v@.take(n as int) == v@);
    done.push(cur);
    done
}


/// Word splitting state after reading `s`: the finished words and the word in
/// progress.
pub open spec fn words_acc(s: Seq<char>) -> (Seq<Seq<char>>, Seq<char>)
    decreases s.len(),
{
    if s.len() == 0 {
        (Seq::<Seq<char>>::empty(), Seq::<char>::empty())
    } else {
        let (w, cur) = words_acc(s.drop_last());
        if is_ws(s.last()) {
            if cur.len() > 0 {
                (w.push(cur), Seq::<char>::empty())
            } else {
                (w, Seq::<char>::empty())
            }
        } else {
            (w, cur.push(s.last()))
        }
    }
}

/// The maximal runs of non-whitespace characters of `s`, in order
/// (`str::split_whitespace`).
pub open spec fn words(s: Seq<char>) -> Seq<Seq<char>> {
    let (w, cur) = words_acc(s);
    if cur.len() > 0 {
        w.push(cur)
    } else {
        w
    }
}

/// The words of `v[from..to]`.
pub fn split_words(v: &Vec<char>, from: usize, to: usize) -> (r: Vec<Vec<char>>)
    requires
        from <= to <= v@.len(),
    ensures
        views(r@) == words(v@.subrange(from as int, to as int)),
{
    let ghost s = v@.subrange(from as int, to as int);
    let mut done: Vec<Vec<char>> = Vec::new();
    let mut cur: Vec<char> = Vec::new();
    let mut i = from;
    while i < to
        invariant
            from <= i <= to <= v@.len(),
            s == v@.subrange(from as int, to as int),
            (views(done@), cur@) == words_acc(s.take(i - from)),
        decreases to - i,
    {
        let c = v[i];
        assert(s.take(i - from + 1).drop_last() == s.take(i - from));
        assert(s.take(i - from + 1).last() == c);
        if char_is_ws(c) {
            if cur.len() > 0 {
                let w = cur;
                cur = Vec::new();
                done.push(w);
                assert(views(done@) == words_acc(s.take(i - from)).0.push(w@));
            } else {
                cur = Vec::new();
            }
        } else {
            cur.push(c);
        }
        i = i + 1;
    }
    assert(s.take(to - from) == s);
    if cur.len() > 0 {
        done.push(cur);
    }
    done
}


/// `needle` occurs in `hay` as a contiguous run (`str::contains`; the empty
/// needle occurs everywhere).
pub open spec fn contains(hay: Seq<char>, needle: Seq<char>) -> bool {
    exists|i: int| 0 <= i && i + needle.len() <= hay.len() && #[trigger] hay.subrange(i, i + needle.len())
        == needle
}

/// A text occurs in any text that ends or starts with it.
pub proof fn lemma_contains_concat(a: Seq<char>, b: Seq<char>)
    ensures
        contains(a + b, a),
        contains(a + b, b),
{
    let h = a + b;
    let z: int = 0;
    assert(h.subrange(z, z + a.len()) =~= a);
    let w: int = a.len() as int;
    assert(h.subrange(w, w + b.len()) =~= b);
}

/// Occurrence is transitive.
pub proof fn lemma_contains_trans(a: Seq<char>, b: Seq<char>, c: Seq<char>)
    requires
        contains(a, b),
        contains(b, c),
    ensures
        contains(a, c),
{
    let i = choose|i: int| 0 <= i && i + b.len() <= a.len() && #[trigger] a.subrange(i, i + b.len()) == b;
    let j = choose|j: int| 0 <= j && j + c.len() <= b.len() && #[trigger] b.subrange(j, j + c.len()) == c;
    let s: int = i + j;
    assert(a.subrange(s, s + c.len()) =~= c) by {
        assert forall|t: int| 0 <= t < c.len() implies a.subrange(s, s + c.len())[t] == c[t] by {
            assert(c[t] == b.subrange(j, j + c.len())[t]);
            assert(b[j + t] == a.subrange(i, i + b.len())[j + t]);
        }
    }
}

/// Every item occurs in the items joined.
#[verifier::spinoff_prover]
pub proof fn lemma_join_contains(items: Seq<Seq<char>>, sep: Seq<char>, k: int)
    requires
        0 <= k < items.len(),
    ensures
        contains(join(items, sep), items[k]),
    decreases items.len(),
{
    let x = items[k];
    if items.len() == 1 {
        let h = join(items, sep);
        assert(h == x);
        let z: int = 0;
        assert(h.subrange(z, z + x.len()) =~= x);
    } else {
        let q = items.drop_last();
        let jq = join(q, sep);
        let last = items[items.len() - 1];
        let h = join(items, sep);
        assert(h == jq + sep + last);
        if k == items.len() - 1 {
            let w: int = (jq.len() + sep.len()) as int;
            assert(h.subrange(w, w + x.len()) =~= x);
        } else {
            lemma_join_contains(q, sep, k);
            assert(q[k] == x);
            let i = choose|i: int| 0 <= i && i + x.len() <= jq.len() && #[trigger] jq.subrange(i, i + x.len()) == x;
            assert(h.subrange(i, i + x.len()) =~= jq.subrange(i, i + x.len()));
        }
    }
}

/// Whether `needle` occurs in `hay`.
pub fn contains_chars(hay: &Vec<char>, needle: &Vec<char>) -> (r: bool)
    ensures
        r == contains(hay@, needle@),
{
    let n = hay.len();
    let m = needle.len();
    if m > n {
        assert forall|i: int| 0 <= i && i + m <= n implies #[trigger] hay@.subrange(i, i + m)
            != needle@ by {}
        return false;
    }
    let mut i: usize = 0;
    while i <= n - m
        invariant
            n == hay@.len(),
            m == needle@.len(),
            m <= n,
            i <= n - m + 1,
            forall|k: int| 0 <= k < i ==> #[trigger] hay@.subrange(k, k + m) != needle@,
        decreases n - m + 1 - i,
    {
        let mut j: usize = 0;
        while j < m && hay[i + j] == needle[j]
            invariant
                n == hay@.len(),
                m == needle@.len(),
                i + m <= n,
                j <= m,
                forall|t: int| 0 <= t < j ==> hay@[i + t] == needle@[t],
            decreases m - j,
        {
            j = j + 1;
        }
        if j == m {
            assert(hay@.subrange(i as int, i + m) =~= needle@);
            return true;
        }
        assert(hay@.subrange(i as int, i + m)[j as int] != needle@[j as int]);
        i = i + 1;
    }
    false
}

/// The lower-case form of a text (`str::to_lowercase`, full Unicode case
/// mapping); a function of the text alone.
pub uninterp spec fn lowercase(s: Seq<char>) -> Seq<char>;

/// The characters of `s.to_lowercase()` (`str::to_lowercase`, which maps every
/// character to its Unicode lower-case form; the result depends on `s` alone).
#[verifier::external_body]
pub(crate) fn to_lowercase_chars(s: &str) -> (r: Vec<char>)
    ensures
        r@ == lowercase(s@),
{
    s.to_lowercase().chars().collect()
}

/// The items of `items` joined with `sep` between them (`[T]::join`).
pub open spec fn join(items: Seq<Seq<char>>, sep: Seq<char>) -> Seq<char>
    decreases items.len(),
{
    if items.len() == 0 {
        Seq::<char>::empty()
    } else if items.len() == 1 {
        items[0]
    } else {
        join(items.drop_last(), sep) + sep + items.last()
    }
}

/// The strings of `items` joined with `sep`.
pub fn join_with(items: &Vec<String>, sep: &str) -> (r: String)
    ensures
        r@ == join(strings_view(items@), sep@),
{
    let mut r = String::new();
    let n = items.len();
    let ghost all = strings_view(items@);
    for i in 0..n
        invariant
            n == items@.len(),
            all == strings_view(items@),
            r@ == join(all.take(i as int), sep@),
    {
        assert(all.take(i + 1).drop_last() == all.take(i as int));
        assert(all.take(i + 1).last() == items@[i as int]@);
        if i > 0 {
            r.append(sep);
            r.append(items[i].as_str());
        } else {
            r.append(items[i].as_str());
            assert(join(all.take(1), sep@) == all.take(1)[0]);
        }
    }
    assert(all.take(n as int) == all);
    r
}

/// The strings of `items` joined with `, `.
pub fn join_comma(items: &Vec<String>) -> (r: String)
    ensures
        r@ == join(strings_view(items@), ", "@),
{
    let mut r = String::new();
    let n = items.len();
    let ghost all = strings_view(items@);
    for i in 0..n
        invariant
            n == items@.len(),
            all == strings_view(items@),
            r@ == join(all.take(i as int), ", "@),
    {
        assert(all.take(i + 1).drop_last() == all.take(i as int));
        assert(all.take(i + 1).last() == items@[i as int]@);
        if i > 0 {
            r.append(", ");
            r.append(items[i].as_str());
        } else {
            r.append(items[i].as_str());
            assert(join(all.take(1), ", "@) == all.take(1)[0]);
        }
    }
    assert(all.take(n as int) == all);
    r
}

/// `a` comes strictly before `b` in lexicographic order of character codes
/// (the order of `String`'s `Ord`, as UTF-8 preserves code-point order).
pub open spec fn lex_lt(a: Seq<char>, b: Seq<char>) -> bool
    decreases a.len(),
{
    if a.len() == 0 {
        b.len() > 0
    } else if b.len() == 0 {
        false
    } else if a[0] != b[0] {
        a[0] < b[0]
    } else {
        lex_lt(a.drop_first(), b.drop_first())
    }
}

/// No text comes before itself.
pub proof fn lemma_lex_lt_irreflexive(a: Seq<char>)
    ensures
        !lex_lt(a, a),
    decreases a.len(),
{
    if a.len() > 0 {
        lemma_lex_lt_irreflexive(a.drop_first());
    }
}

/// Lexicographic order is transitive.
pub proof fn lemma_lex_lt_transitive(a: Seq<char>, b: Seq<char>, c: Seq<char>)
    requires
        lex_lt(a, b),
        lex_lt(b, c),
    ensures
        lex_lt(a, c),
    decreases a.len(),
{
    if a.len() > 0 && b.len() > 0 && c.len() > 0 && a[0] == b[0] && b[0] == c[0] {
        lemma_lex_lt_transitive(a.drop_first(), b.drop_first(), c.drop_first());
    }
}

/// Whether `a` comes strictly before `b` lexicographically.
pub fn lex_less(a: &String, b: &String) -> (r: bool)
    ensures
        r == lex_lt(a@, b@),
{
    let x = to_chars(a.as_str());
    let y = to_chars(b.as_str());
    assert(x@.skip(0) == x@);
    assert(y@.skip(0) == y@);
    let mut i: usize = 0;
    while i < x.len() && i < y.len() && x[i] == y[i]
        invariant
            i <= x@.len(),
            i <= y@.len(),
            x@ == a@,
            y@ == b@,
            lex_lt(a@, b@) == lex_lt(x@.skip(i as int), y@.skip(i as int)),
        decreases x@.len() - i,
    {
        assert(x@.skip(i as int).drop_first() == x@.skip(i + 1));
        assert(y@.skip(i as int).drop_first() == y@.skip(i + 1));
        i = i + 1;
    }
    if i == x.len() {
        i < y.len()
    } else if i == y.len() {
        false
    } else {
        x[i] < y[i]
    }
}


/// A line without its `\r` (the `\r` of a `\r\n` ending).
pub open spec fn strip_cr(l: Seq<char>) -> Seq<char> {
    if l.len() > 0 && l.last() == '\r' {
        l.drop_last()
    } else {
        l
    }
}

/// The lines of `s` (`str::lines`): the pieces between `\n`s, each piece that
/// ended in `\n` losing one trailing `\r`; the last piece counts only if it is
/// not empty.
pub open spec fn lines(s: Seq<char>) -> Seq<Seq<char>> {
    let ps = split_char(s, '\n');
    let ended = ps.drop_last().map_values(|l: Seq<char>| strip_cr(l));
    if ps.last().len() > 0 {
        ended.push(ps.last())
    } else {
        ended
    }
}

/// The lines of `v`.
pub fn split_lines(v: &Vec<char>) -> (r: Vec<Vec<char>>)
    ensures
        views(r@) == lines(v@),
{
    let ps = split_on(v, '\n');
    proof {
        crate::text::lemma_split_char_nonempty(v@, '\n');
    }
    let ghost pv = views(ps@);
    let n = ps.len();
    let mut r: Vec<Vec<char>> = Vec::new();
    let mut i: usize = 0;
    while i + 1 < n
        invariant
            n == ps@.len(),
            n >= 1,
            pv == views(ps@),
            pv == split_char(v@, '\n'),
            i + 1 <= n,
            views(r@) == pv.drop_last().take(i as int).map_values(|l: Seq<char>| strip_cr(l)),
        decreases n - i,
    {
        let p = &ps[i];
        assert(pv[i as int] == p@);
        let k = p.len();
        let q = if k > 0 && p[k - 1] == '\r' {
            sub_vec(p, 0, k - 1)
        } else {
            sub_vec(p, 0, k)
        };
        assert(p@.subrange(0, k as int) == p@);
        assert(q@ == strip_cr(pv[i as int]));
        let ghost prev = views(r@);
        r.push(q);
        assert(views(r@) =~= prev.push(q@));
        assert(pv.drop_last().take(i + 1) =~= pv.drop_last().take(i as int).push(pv[i as int]));
        i = i + 1;
    }
    assert(pv.drop_last().take(i as int) == pv.drop_last());
    let last = &ps[n - 1];
    assert(pv.last() == last@);
    if last.len() > 0 {
        let ghost prev = views(r@);
        let l = sub_vec(last, 0, last.len());
        assert(last@.subrange(0, last@.len() as int) == last@);
        r.push(l);
        assert(views(r@) =~= prev.push(last@));
    }
    r
}

} // verus!
