//! Decimal numbers as text: the parsing rules of the standard integer `FromStr`
//! impls (an optional sign, then one or more ASCII digits, with range checks) and
//! the plain decimal rendering of `Display`.

use vstd::prelude::*;
use crate::text::{from_chars, trim, trimmed};

verus! {

/// An ASCII decimal digit.
pub open spec fn is_digit(c: char) -> bool {
    '0' <= c && c <= '9'
}

/// The value of a digit character.
pub open spec fn digit_val(c: char) -> nat {
    ((c as int) - ('0' as int)) as nat
}

/// The character of a digit value `d < 10`.
pub open spec fn digit_char(d: nat) -> char {
    ((d + ('0' as int)) as u32) as char
}

/// Every character of `d` is an ASCII digit.
pub open spec fn all_digits(d: Seq<char>) -> bool {
    forall|i: int| 0 <= i < d.len() ==> is_digit(#[trigger] d[i])
}

/// The number a run of digits spells in base ten.
pub open spec fn dec_value(d: Seq<char>) -> nat
    decreases d.len(),
{
    if d.len() == 0 {
        0
    } else {
        dec_value(d.drop_last()) * 10 + digit_val(d.last())
    }
}

/// The value of a non-empty all-digit text; `None` for anything else.
pub open spec fn digits_value(d: Seq<char>) -> Option<nat> {
    if d.len() > 0 && all_digits(d) {
        Some(dec_value(d))
    } else {
        None
    }
}

/// An unsigned integer text as the standard `FromStr` reads it: an optional `+`,
/// then digits; `None` when it is not of that form or exceeds `max`.
pub open spec fn unsigned_text(s: Seq<char>, max: nat) -> Option<nat> {
    let d = if s.len() > 0 && s[0] == '+' {
        s.drop_first()
    } else {
        s
    };
    match digits_value(d) {
        Some(n) => if n <= max {
            Some(n)
        } else {
            None
        },
        None => None,
    }
}

/// A signed integer text as the standard `FromStr` reads it: an optional `+` or
/// `-`, then digits; `None` when it is not of that form or out of `[min, max]`.
pub open spec fn signed_text(s: Seq<char>, min: int, max: int) -> Option<int> {
    let neg = s.len() > 0 && s[0] == '-';
    let d = if s.len() > 0 && (s[0] == '+' || s[0] == '-') {
        s.drop_first()
    } else {
        s
    };
    match digits_value(d) {
        Some(n) => {
            let v = if neg {
                -(n as int)
            } else {
                n as int
            };
            if min <= v <= max {
                Some(v)
            } else {
                None
            }
        },
        None => None,
    }
}

/// The decimal rendering of `n` (no sign, no leading zeros).
pub open spec fn dec_text(n: nat) -> Seq<char>
    decreases n,
{
    if n < 10 {
        seq![digit_char(n)]
    } else {
        dec_text(n / 10).push(digit_char(n % 10))
    }
}

/// The decimal rendering of a signed value, with `-` for negatives.
pub open spec fn int_text(v: int) -> Seq<char> {
    if v < 0 {
        seq!['-'] + dec_text((-v) as nat)
    } else {
        dec_text(v as nat)
    }
}

pub proof fn lemma_digit_char(d: nat)
    requires
        d < 10,
    ensures
        is_digit(digit_char(d)),
        digit_val(digit_char(d)) == d,
{
}

/// A prefix of a digit run never spells more than the whole run.
pub proof fn lemma_dec_value_prefix(d: Seq<char>, i: int)
    requires
        0 <= i <= d.len(),
        all_digits(d),
    ensures
        dec_value(d.take(i)) <= dec_value(d),
    decreases d.len() - i,
{
    if i < d.len() {
        lemma_dec_value_prefix(d, i + 1);
        assert(d.take(i + 1).drop_last() == d.take(i));
    } else {
        assert(d.take(i) == d);
    }
}

/// `dec_text` is a non-empty digit run, without a leading zero unless it is
/// `"0"`, and it spells `n`.
pub proof fn lemma_dec_text(n: nat)
    ensures
        dec_text(n).len() > 0,
        all_digits(dec_text(n)),
        dec_value(dec_text(n)) == n,
        dec_text(n).len() > 1 ==> dec_text(n)[0] != '0',
        n < 10 ==> dec_text(n).len() == 1,
        n >= 10 ==> dec_text(n).len() >= 2,
        10 <= n < 100 ==> dec_text(n).len() == 2,
        100 <= n < 1000 ==> dec_text(n).len() == 3,
    decreases n,
{
    if n < 10 {
        lemma_digit_char(n);
        assert(dec_text(n).drop_last() =~= Seq::<char>::empty());
        assert(dec_value(Seq::<char>::empty()) == 0);
        assert(dec_text(n).last() == digit_char(n));
    } else {
        lemma_dec_text(n / 10);
        lemma_digit_char(n % 10);
        let t = dec_text(n);
        assert(t.drop_last() == dec_text(n / 10));
        assert(t.last() == digit_char(n % 10));
        assert(n == (n / 10) * 10 + n % 10);
        assert(dec_value(t) == dec_value(dec_text(n / 10)) * 10 + digit_val(t.last()));
        assert(t[0] == dec_text(n / 10)[0]);
        if n / 10 < 10 {
            assert(dec_text(n / 10)[0] == digit_char(n / 10));
            lemma_digit_char(n / 10);
            assert(digit_val(digit_char(n / 10)) == n / 10);
            assert(n / 10 >= 1);
            assert(digit_char(n / 10) != '0');
        }
    }
}

/// A digit run without a leading zero is the rendering of its value.
pub proof fn lemma_dec_canonical(d: Seq<char>)
    requires
        d.len() > 0,
        all_digits(d),
        d.len() > 1 ==> d[0] != '0',
    ensures
        dec_text(dec_value(d)) == d,
    decreases d.len(),
{
    let n = dec_value(d);
    if d.len() == 1 {
        assert(d.drop_last() =~= Seq::<char>::empty());
        assert(dec_value(Seq::<char>::empty()) == 0);
        assert(d.last() == d[0]);
        assert(n == digit_val(d[0]));
        assert(n < 10);
        assert(dec_text(n) =~= d);
    } else {
        let p = d.drop_last();
        assert(all_digits(p)) by {
            assert forall|i: int| 0 <= i < p.len() implies is_digit(#[trigger] p[i]) by {
                assert(p[i] == d[i]);
            }
        }
        lemma_dec_canonical(p);
        lemma_leading_nonzero(p);
        assert(dec_value(p) >= 1);
        assert(n >= 10);
        assert(n / 10 == dec_value(p));
        assert(n % 10 == digit_val(d.last()));
        assert(dec_text(n) =~= d);
    }
}

/// A digit run of length at least two with a nonzero first digit is at least 10.
pub proof fn lemma_leading_nonzero(d: Seq<char>)
    requires
        d.len() > 0,
        all_digits(d),
        d[0] != '0',
    ensures
        dec_value(d) >= 1,
        d.len() >= 2 ==> dec_value(d) >= 10,
    decreases d.len(),
{
    if d.len() == 1 {
        assert(d.drop_last().len() == 0);
    } else {
        let p = d.drop_last();
        assert(all_digits(p)) by {
            assert forall|i: int| 0 <= i < p.len() implies is_digit(#[trigger] p[i]) by {
                assert(p[i] == d[i]);
            }
        }
        assert(p[0] == d[0]);
        lemma_leading_nonzero(p);
    }
}

/// The value of the digit run `v[from..to]` if it is at most `limit`.
pub fn parse_digits(v: &Vec<char>, from: usize, to: usize, limit: u64) -> (r: Option<u64>)
    requires
        from <= to <= v@.len(),
    ensures
        r == (match digits_value(v@.subrange(from as int, to as int)) {
            Some(n) => if n <= limit {
                Some(n as u64)
            } else {
                None::<u64>
            },
            None => None,
        }),
{
    let ghost d = v@.subrange(from as int, to as int);
    if from == to {
        return None;
    }
    let mut acc: u64 = 0;
    let mut i = from;
    while i < to
        invariant
            from <= i <= to <= v@.len(),
            d == v@.subrange(from as int, to as int),
            forall|k: int| 0 <= k < i - from ==> is_digit(#[trigger] d[k]),
            acc == dec_value(d.take(i - from)),
            acc <= limit,
        decreases to - i,
    {
        let c = v[i];
        if !('0' <= c && c <= '9') {
            assert(!is_digit(d[i - from]));
            return None;
        }
        let dg = (c as u32 - '0' as u32) as u64;
        assert(d.take(i - from + 1).drop_last() == d.take(i - from));
        assert(d.take(i - from + 1).last() == c);
        let next = match acc.checked_mul(10) {
            Some(m) => m.checked_add(dg),
            None => None,
        };
        match next {
            Some(x) if x <= limit => {
                acc = x;
            },
            _ => {
                proof {
                    let e = dec_value(d.take(i - from + 1));
                    assert(e > limit);
                    if all_digits(d) {
                        lemma_dec_value_prefix(d, i - from + 1);
                    }
                }
                return None;
            },
        }
        i = i + 1;
    }
    assert(d.take(to - from) == d);
    Some(acc)
}

/// Unsigned parse of `v[from..to]` with the standard `FromStr` rules and maximum `max`.
pub fn parse_unsigned(v: &Vec<char>, from: usize, to: usize, max: u64) -> (r: Option<u64>)
    requires
        from <= to <= v@.len(),
    ensures
        r matches Some(x) ==> unsigned_text(v@.subrange(from as int, to as int), max as nat) == Some(
            x as nat,
        ),
        r is None ==> unsigned_text(v@.subrange(from as int, to as int), max as nat) is None,
{
    let ghost s = v@.subrange(from as int, to as int);
    if from < to && v[from] == '+' {
        assert(s.drop_first() == v@.subrange(from + 1, to as int));
        parse_digits(v, from + 1, to, max)
    } else {
        parse_digits(v, from, to, max)
    }
}

/// Signed parse of `v[from..to]` with the standard `FromStr` rules for `i32`.
pub fn parse_i32_range(v: &Vec<char>, from: usize, to: usize) -> (r: Option<i32>)
    requires
        from <= to <= v@.len(),
    ensures
        r matches Some(x) ==> signed_text(
            v@.subrange(from as int, to as int),
            i32::MIN as int,
            i32::MAX as int,
        ) == Some(x as int),
        r is None ==> signed_text(
            v@.subrange(from as int, to as int),
            i32::MIN as int,
            i32::MAX as int,
        ) is None,
{
    let ghost s = v@.subrange(from as int, to as int);
    if from < to && (v[from] == '+' || v[from] == '-') {
        assert(s.drop_first() == v@.subrange(from + 1, to as int));
        let neg = v[from] == '-';
        let lim: u64 = if neg {
            2147483648
        } else {
            2147483647
        };
        match parse_digits(v, from + 1, to, lim) {
            Some(n) => if neg {
                Some((0 - (n as i64)) as i32)
            } else {
                Some(n as i32)
            },
            None => None,
        }
    } else {
        match parse_digits(v, from, to, 2147483647) {
            Some(n) => Some(n as i32),
            None => None,
        }
    }
}

/// Signed parse of `v[from..to]` with the standard `FromStr` rules for `i64`.
pub fn parse_i64_range(v: &Vec<char>, from: usize, to: usize) -> (r: Option<i64>)
    requires
        from <= to <= v@.len(),
    ensures
        r matches Some(x) ==> signed_text(
            v@.subrange(from as int, to as int),
            i64::MIN as int,
            i64::MAX as int,
        ) == Some(x as int),
        r is None ==> signed_text(
            v@.subrange(from as int, to as int),
            i64::MIN as int,
            i64::MAX as int,
        ) is None,
{
    let ghost s = v@.subrange(from as int, to as int);
    if from < to && (v[from] == '+' || v[from] == '-') {
        assert(s.drop_first() == v@.subrange(from + 1, to as int));
        let neg = v[from] == '-';
        let lim: u64 = if neg {
            9223372036854775808
        } else {
            9223372036854775807
        };
        match parse_digits(v, from + 1, to, lim) {
            Some(n) => if neg {
                if n == 9223372036854775808 {
                    Some(i64::MIN)
                } else {
                    Some(0 - (n as i64))
                }
            } else {
                Some(n as i64)
            },
            None => None,
        }
    } else {
        match parse_digits(v, from, to, 9223372036854775807) {
            Some(n) => Some(n as i64),
            None => None,
        }
    }
}

/// The decimal rendering of a signed `n` as a `String` (`i64::to_string`).
pub fn i64_text(n: i64) -> (s: String)
    ensures
        s@ == int_text(n as int),
{
    let mut v: Vec<char> = Vec::new();
    if n < 0 {
        v.push('-');
        let m: u64 = if n == i64::MIN {
            9223372036854775808
        } else {
            (0 - n) as u64
        };
        push_dec(&mut v, m);
    } else {
        push_dec(&mut v, n as u64);
    }
    from_chars(&v)
}

/// `s.trim().parse::<i32>()`, as an `Option`.
pub fn parse_i32_trimmed(s: &str) -> (r: Option<i32>)
    ensures
        r matches Some(x) ==> signed_text(trim(s@), i32::MIN as int, i32::MAX as int) == Some(
            x as int,
        ),
        r is None ==> signed_text(trim(s@), i32::MIN as int, i32::MAX as int) is None,
{
    let t = trimmed(s);
    assert(t@.subrange(0, t@.len() as int) == t@);
    parse_i32_range(&t, 0, t.len())
}

/// The digit character for `d < 10`.
fn digit_to_char(d: u64) -> (c: char)
    requires
        d < 10,
    ensures
        c == digit_char(d as nat),
{
    if d == 0 { '0' }
    else if d == 1 { '1' }
    else if d == 2 { '2' }
    else if d == 3 { '3' }
    else if d == 4 { '4' }
    else if d == 5 { '5' }
    else if d == 6 { '6' }
    else if d == 7 { '7' }
    else if d == 8 { '8' }
    else { '9' }
}

/// Appends the decimal rendering of `n` to `out`.
pub fn push_dec(out: &mut Vec<char>, n: u64)
    ensures
        final(out)@ == old(out)@ + dec_text(n as nat),
    decreases n,
{
    if n >= 10 {
        push_dec(out, n / 10);
    }
    out.push(digit_to_char(n % 10));
    proof {
        if n < 10 {
            assert(n % 10 == n);
        }
    }
}

/// The decimal rendering of `n` as a `String`.
pub fn u64_text(n: u64) -> (s: String)
    ensures
        s@ == dec_text(n as nat),
{
    let mut v: Vec<char> = Vec::new();
    push_dec(&mut v, n);
    assert(v@ == dec_text(n as nat));
    from_chars(&v)
}

/// The decimal rendering of a signed `n` as a `String` (`i32::to_string`).
pub fn i32_text(n: i32) -> (s: String)
    ensures
        s@ == int_text(n as int),
{
    let mut v: Vec<char> = Vec::new();
    if n < 0 {
        v.push('-');
        push_dec(&mut v, (0 - (n as i64)) as u64);
    } else {
        push_dec(&mut v, n as u64);
    }
    from_chars(&v)
}

} // verus!
