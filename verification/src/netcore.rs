//! Network primitives: IPv4 address text, prefix and netmask conversion,
//! interface-name and prefix validation, the `netcfg:` value rules, the
//! default-gateway extraction from a route listing, and the addressing mode.

use vstd::prelude::*;
use crate::text::{
    is_ws, lead_len, trim, trim_start, views, split_char, split_on, sub_vec, to_chars, trimmed,
    trim_bounds, from_chars, chars_eq, lemma_lead_len, lemma_split_char_none, words, split_words,
    lemma_split_char_append,
};
use crate::num::{
    all_digits, dec_value, dec_text, is_digit, parse_digits, parse_unsigned,
    unsigned_text, push_dec, lemma_dec_text, lemma_dec_canonical,
};

verus! {

/// An IPv4 octet as the standard address parser reads it: one to three digits,
/// no leading zero (other than `0` itself), value at most 255.
pub open spec fn octet_value(p: Seq<char>) -> Option<u8> {
    if 1 <= p.len() <= 3 && all_digits(p) && (p.len() == 1 || p[0] != '0') && dec_value(p)
        <= 255 {
        Some(dec_value(p) as u8)
    } else {
        None
    }
}

/// A dotted-quad IPv4 address text, as `Ipv4Addr::from_str` accepts it: exactly
/// four octets separated by `.`, nothing else.
pub open spec fn ipv4_value(s: Seq<char>) -> Option<(u8, u8, u8, u8)> {
    let ps = split_char(s, '.');
    if ps.len() == 4 {
        match (octet_value(ps[0]), octet_value(ps[1]), octet_value(ps[2]), octet_value(ps[3])) {
            (Some(a), Some(b), Some(c), Some(d)) => Some((a, b, c, d)),
            _ => None,
        }
    } else {
        None
    }
}

/// The dotted-quad rendering of an address (`Ipv4Addr`'s `Display`).
pub open spec fn ipv4_text(o: (u8, u8, u8, u8)) -> Seq<char> {
    dec_text(o.0 as nat) + seq!['.'] + dec_text(o.1 as nat) + seq!['.'] + dec_text(o.2 as nat)
        + seq!['.'] + dec_text(o.3 as nat)
}

/// The address as a big-endian 32-bit number (`u32::from(Ipv4Addr)`).
pub open spec fn ipv4_bits(o: (u8, u8, u8, u8)) -> u32 {
    ((o.0 as u32) << 24u32) | ((o.1 as u32) << 16u32) | ((o.2 as u32) << 8u32) | (o.3 as u32)
}

/// The four bytes of a 32-bit number, most significant first (`u32::to_be_bytes`).
pub open spec fn be_bytes(b: u32) -> (u8, u8, u8, u8) {
    ((b >> 24u32) as u8, (b >> 16u32) as u8, (b >> 8u32) as u8, b as u8)
}

/// The netmask of a prefix length `p <= 32`: `p` one bits followed by zeros.
pub open spec fn mask_bits(p: u32) -> u32 {
    if p == 0 {
        0
    } else {
        0xffff_ffffu32 << ((32 - p) as u32)
    }
}

/// `s` is the address text of the netmask with prefix length `p`.
pub open spec fn is_netmask_of(s: Seq<char>, p: u32) -> bool {
    &&& p <= 32
    &&& ipv4_value(s) is Some
    &&& ipv4_bits(ipv4_value(s)->0) == mask_bits(p)
}

/// Parses one octet `v[from..to]`.
fn parse_octet(v: &Vec<char>) -> (r: Option<u8>)
    ensures
        r == octet_value(v@),
{
    let n = v.len();
    if n < 1 || n > 3 {
        return None;
    }
    if n > 1 && v[0] == '0' {
        return None;
    }
    assert(v@.subrange(0, n as int) == v@);
    match parse_digits(v, 0, n, 255) {
        Some(x) => Some(x as u8),
        None => None,
    }
}

/// Parses the address text `v` with the rules of `Ipv4Addr::from_str`.
pub fn parse_ipv4_chars(v: &Vec<char>) -> (r: Option<(u8, u8, u8, u8)>)
    ensures
        r == ipv4_value(v@),
{
    let ps = split_on(v, '.');
    if ps.len() != 4 {
        return None;
    }
    assert(views(ps@)[0] == ps@[0]@);
    assert(views(ps@)[1] == ps@[1]@);
    assert(views(ps@)[2] == ps@[2]@);
    assert(views(ps@)[3] == ps@[3]@);
    let a = parse_octet(&ps[0]);
    let b = parse_octet(&ps[1]);
    let c = parse_octet(&ps[2]);
    let d = parse_octet(&ps[3]);
    match (a, b, c, d) {
        (Some(a), Some(b), Some(c), Some(d)) => Some((a, b, c, d)),
        _ => None,
    }
}

/// Appends the dotted-quad rendering of `o` to `out`.
fn push_ipv4(out: &mut Vec<char>, o: (u8, u8, u8, u8))
    ensures
        final(out)@ == old(out)@ + ipv4_text(o),
{
    push_dec(out, o.0 as u64);
    out.push('.');
    push_dec(out, o.1 as u64);
    out.push('.');
    push_dec(out, o.2 as u64);
    out.push('.');
    push_dec(out, o.3 as u64);
    assert(final(out)@ =~= old(out)@ + ipv4_text(o));
}

/// The dotted-quad rendering of `o` as a `String`.
pub fn ipv4_to_string(o: (u8, u8, u8, u8)) -> (s: String)
    ensures
        s@ == ipv4_text(o),
{
    let mut v: Vec<char> = Vec::new();
    push_ipv4(&mut v, o);
    assert(v@ =~= ipv4_text(o));
    from_chars(&v)
}

/// True if `s` parses as an IPv4 address.
pub fn valid_ipv4(s: &str) -> (r: bool)
    ensures
        r == ipv4_value(trim(s@)) is Some,
{
    let t = trimmed(s);
    parse_ipv4_chars(&t).is_some()
}

/// True if `p` is a valid IPv4 prefix length (0–32).
pub fn valid_prefix(p: i32) -> (r: bool)
    ensures
        r == (0 <= p <= 32),
{
    0 <= p && p <= 32
}

/// The 32-bit netmask of a prefix length `p <= 32`.
fn mask_of(p: u32) -> (m: u32)
    requires
        p <= 32,
    ensures
        m == mask_bits(p),
{
    if p == 0 {
        0
    } else {
        0xffff_ffffu32 << (32 - p)
    }
}

/// Convert an IPv4 prefix length to a dotted netmask (`24` → `255.255.255.0`);
/// lengths above 32 count as 32.
pub fn prefix_to_netmask(prefix: u8) -> (s: String)
    ensures
        s@ == ipv4_text(be_bytes(mask_bits(if prefix > 32 { 32u32 } else { prefix as u32 }))),
{
    let p: u32 = if prefix > 32 {
        32
    } else {
        prefix as u32
    };
    let bits = mask_of(p);
    let o = ((bits >> 24u32) as u8, (bits >> 16u32) as u8, (bits >> 8u32) as u8, bits as u8);
    ipv4_to_string(o)
}

/// Distinct prefix lengths give distinct netmasks.
pub proof fn lemma_mask_bits_injective(p: u32, q: u32)
    requires
        p <= 32,
        q <= 32,
        p != q,
    ensures
        mask_bits(p) != mask_bits(q),
{
    assert(p <= 32 && q <= 32 && p != q ==> (if p == 0 {
        0u32
    } else {
        0xffff_ffffu32 << ((32 - p) as u32)
    }) != (if q == 0 {
        0u32
    } else {
        0xffff_ffffu32 << ((32 - q) as u32)
    })) by (bit_vector);
}

/// Convert a dotted netmask to a prefix length (`255.255.255.0` → `24`). `None`
/// unless `mask` is an address whose bits are some ones followed by zeros.
pub fn netmask_to_prefix(mask: &str) -> (r: Option<u8>)
    ensures
        r matches Some(p) ==> is_netmask_of(trim(mask@), p as u32),
        r is None ==> forall|p: u32| !#[trigger] is_netmask_of(trim(mask@), p),
{
    let t = trimmed(mask);
    let o = match parse_ipv4_chars(&t) {
        Some(o) => o,
        None => return None,
    };
    let bits: u32 = ((o.0 as u32) << 24u32) | ((o.1 as u32) << 16u32) | ((o.2 as u32) << 8u32) | (
    o.3 as u32);
    let mut p: u32 = 0;
    while p <= 32
        invariant
            bits == ipv4_bits(o),
            ipv4_value(trim(mask@)) == Some(o),
            p <= 33,
            forall|q: u32| q < p ==> bits != #[trigger] mask_bits(q),
        decreases 33 - p,
    {
        if bits == mask_of(p) {
            return Some(p as u8);
        }
        p = p + 1;
    }
    None
}


/// The rendering of an octet value reads back as that value.
pub proof fn lemma_octet_roundtrip(x: u8)
    ensures
        octet_value(dec_text(x as nat)) == Some(x),
        forall|i: int| 0 <= i < dec_text(x as nat).len() ==> #[trigger] dec_text(x as nat)[i] != '.'
            && !is_ws(dec_text(x as nat)[i]),
{
    lemma_dec_text(x as nat);
    let d = dec_text(x as nat);
    assert forall|i: int| 0 <= i < d.len() implies #[trigger] d[i] != '.' && !is_ws(d[i]) by {
        assert(is_digit(d[i]));
    }
}

/// Splitting `x` + `.` + `rest`, where `x` has no `.`, yields `x` then the pieces of `rest`.
proof fn lemma_split_one(x: Seq<char>, rest: Seq<char>)
    requires
        forall|i: int| 0 <= i < x.len() ==> #[trigger] x[i] != '.',
    ensures
        split_char(x + seq!['.'] + rest, '.') == seq![x] + split_char(rest, '.'),
{
    lemma_split_char_none(x, '.');
    lemma_split_char_append(x, rest, '.');
}

/// Four dot-free pieces joined with dots split back into those pieces.
proof fn lemma_split_four(a: Seq<char>, b: Seq<char>, c: Seq<char>, d: Seq<char>)
    requires
        forall|i: int| 0 <= i < a.len() ==> #[trigger] a[i] != '.',
        forall|i: int| 0 <= i < b.len() ==> #[trigger] b[i] != '.',
        forall|i: int| 0 <= i < c.len() ==> #[trigger] c[i] != '.',
        forall|i: int| 0 <= i < d.len() ==> #[trigger] d[i] != '.',
    ensures
        split_char(a + seq!['.'] + b + seq!['.'] + c + seq!['.'] + d, '.') == seq![a, b, c, d],
{
    let dot = seq!['.'];
    lemma_split_char_none(d, '.');
    lemma_split_one(c, d);
    let t3 = c + dot + d;
    lemma_split_one(b, t3);
    let t2 = b + dot + t3;
    lemma_split_one(a, t2);
    assert(a + dot + b + dot + c + dot + d =~= a + dot + t2);
    assert(split_char(a + dot + t2, '.') =~= seq![a, b, c, d]);
}

/// The rendering of an address reads back as that address.
pub proof fn lemma_ipv4_roundtrip(o: (u8, u8, u8, u8))
    ensures
        ipv4_value(ipv4_text(o)) == Some(o),
{
    let a = dec_text(o.0 as nat);
    let b = dec_text(o.1 as nat);
    let c = dec_text(o.2 as nat);
    let d = dec_text(o.3 as nat);
    lemma_octet_roundtrip(o.0);
    lemma_octet_roundtrip(o.1);
    lemma_octet_roundtrip(o.2);
    lemma_octet_roundtrip(o.3);
    lemma_split_four(a, b, c, d);
}

/// An address rendering has no whitespace.
pub proof fn lemma_ipv4_text_no_ws(o: (u8, u8, u8, u8))
    ensures
        forall|i: int| 0 <= i < ipv4_text(o).len() ==> !is_ws(#[trigger] ipv4_text(o)[i]),
{
    let t = ipv4_text(o);
    let a = dec_text(o.0 as nat);
    let b = dec_text(o.1 as nat);
    let c = dec_text(o.2 as nat);
    let d = dec_text(o.3 as nat);
    lemma_octet_roundtrip(o.0);
    lemma_octet_roundtrip(o.1);
    lemma_octet_roundtrip(o.2);
    lemma_octet_roundtrip(o.3);
    assert forall|i: int| 0 <= i < t.len() implies !is_ws(#[trigger] t[i]) by {
        if i < a.len() {
            assert(t[i] == a[i]);
        } else if i == a.len() {
        } else if i < a.len() + 1 + b.len() {
            assert(t[i] == b[i - a.len() - 1]);
        } else if i == a.len() + 1 + b.len() {
        } else if i < a.len() + 2 + b.len() + c.len() {
            assert(t[i] == c[i - a.len() - 2 - b.len()]);
        } else if i == a.len() + 2 + b.len() + c.len() {
        } else {
            assert(t[i] == d[i - a.len() - 3 - b.len() - c.len()]);
        }
    }
}

/// An address rendering has no whitespace, so trimming leaves it alone.
pub proof fn lemma_ipv4_text_trimmed(o: (u8, u8, u8, u8))
    ensures
        trim(ipv4_text(o)) == ipv4_text(o),
{
    lemma_ipv4_text_no_ws(o);
    lemma_no_ws_trim(ipv4_text(o));
}

/// A text without whitespace is its own trim.
pub proof fn lemma_no_ws_trim(t: Seq<char>)
    requires
        forall|i: int| 0 <= i < t.len() ==> !is_ws(#[trigger] t[i]),
    ensures
        trim(t) == t,
{
    if t.len() == 0 {
        crate::text::lemma_lead_len(t, |c: char| is_ws(c), 0);
        assert(trim_start(t) =~= t);
        crate::text::lemma_trail_len(t, |c: char| is_ws(c), 0);
        assert(trim(t) =~= t);
    } else {
        crate::text::lemma_lead_len(t, |c: char| is_ws(c), 0);
        assert(trim_start(t) =~= t);
        crate::text::lemma_trail_len(t, |c: char| is_ws(c), 0);
        assert(trim(t) =~= t);
    }
}

/// Law: an accepted address text is already in canonical form — rendering the
/// address it denotes gives back exactly the text (so a parsed address is
/// reported as it was written).
pub proof fn law_ipv4_canonical(s: Seq<char>)
    requires
        ipv4_value(s) is Some,
    ensures
        ipv4_text(ipv4_value(s)->0) == s,
{
    let ps = split_char(s, '.');
    let o = ipv4_value(s)->0;
    assert forall|i: int| 0 <= i < 4 implies #[trigger] dec_text(dec_value(ps[i])) == ps[i] by {
        lemma_dec_canonical(ps[i]);
    }
    assert(dec_text(o.0 as nat) == ps[0]);
    assert(dec_text(o.1 as nat) == ps[1]);
    assert(dec_text(o.2 as nat) == ps[2]);
    assert(dec_text(o.3 as nat) == ps[3]);
    crate::text::lemma_split_join(s, '.');
    let dot = seq!['.'];
    assert(ps.drop_last().drop_last().drop_last() =~= seq![ps[0]]);
    assert(ps.drop_last().drop_last() =~= seq![ps[0], ps[1]]);
    assert(ps.drop_last() =~= seq![ps[0], ps[1], ps[2]]);
    assert(crate::text::join(seq![ps[0]], dot) == ps[0]);
    assert(crate::text::join(seq![ps[0], ps[1]], dot) == ps[0] + dot + ps[1]);
    assert(crate::text::join(seq![ps[0], ps[1], ps[2]], dot) == ps[0] + dot + ps[1] + dot + ps[2]);
    assert(crate::text::join(ps, dot) == ps[0] + dot + ps[1] + dot + ps[2] + dot + ps[3]);
}

/// The bytes of a 32-bit number put back together give the number.
pub proof fn lemma_be_bytes_bits(b: u32)
    ensures
        ipv4_bits(be_bytes(b)) == b,
{
    assert(((((b >> 24u32) as u8) as u32) << 24u32) | ((((b >> 16u32) as u8) as u32) << 16u32) | (
    (((b >> 8u32) as u8) as u32) << 8u32) | ((b as u8) as u32) == b) by (bit_vector);
}

/// Law: the netmask text of a prefix length `p <= 32` is recognised as the
/// netmask of `p` and of no other length, so `netmask_to_prefix` gives back `p`.
pub proof fn law_netmask_prefix_roundtrip(p: u8)
    requires
        p <= 32,
    ensures
        is_netmask_of(trim(ipv4_text(be_bytes(mask_bits(p as u32)))), p as u32),
        forall|q: u32| #[trigger] is_netmask_of(trim(ipv4_text(be_bytes(mask_bits(p as u32)))), q)
            ==> q == p,
{
    let o = be_bytes(mask_bits(p as u32));
    lemma_ipv4_text_trimmed(o);
    lemma_ipv4_roundtrip(o);
    lemma_be_bytes_bits(mask_bits(p as u32));
    assert forall|q: u32| #[trigger] is_netmask_of(trim(ipv4_text(o)), q) implies q == p by {
        if q != p {
            lemma_mask_bits_injective(p as u32, q);
        }
    }
}


/// `c != '/'`.
pub open spec fn not_slash(c: char) -> bool {
    c != '/'
}

/// The `(address, prefix)` an `addr/list` payload such as `10.0.2.15/24`
/// describes: the trimmed text split at its first `/`, each side trimmed, the
/// left an IPv4 address (given back in its dotted-quad rendering), the right a
/// `u8` no greater than 32.
pub open spec fn addr_list_value(s: Seq<char>) -> Option<(Seq<char>, u8)> {
    let t = trim(s);
    let k = lead_len(t, |c: char| not_slash(c));
    if k == t.len() {
        None
    } else {
        match (
            ipv4_value(trim(t.subrange(0, k as int))),
            unsigned_text(trim(t.subrange(k as int + 1, t.len() as int)), 255),
        ) {
            (Some(o), Some(p)) => if p <= 32 {
                Some((ipv4_text(o), p as u8))
            } else {
                None
            },
            _ => None,
        }
    }
}

/// Parse the netcfg `ifaces/<iface>/addr/list` payload (`"10.0.2.15/24"`) into
/// `(ip, prefix)`. `None` for a non-CIDR value (placeholders included).
pub fn parse_addr_list(s: &str) -> (r: Option<(String, u8)>)
    ensures
        r matches Some(x) ==> addr_list_value(s@) == Some((x.0@, x.1)),
        r is None ==> addr_list_value(s@) is None,
{
    let t = trimmed(s);
    let n = t.len();
    let mut k: usize = 0;
    while k < n && t[k] != '/'
        invariant
            k <= n == t@.len(),
            forall|i: int| 0 <= i < k ==> not_slash(#[trigger] t@[i]),
        decreases n - k,
    {
        k = k + 1;
    }
    proof {
        lemma_lead_len(t@, |c: char| not_slash(c), k as int);
    }
    if k == n {
        return None;
    }
    let (a0, a1) = trim_bounds(&t, 0, k);
    let ipv = sub_vec(&t, a0, a1);
    let (b0, b1) = trim_bounds(&t, k + 1, n);
    let ip = match parse_ipv4_chars(&ipv) {
        Some(o) => o,
        None => return None,
    };
    let pr = match parse_unsigned(&t, b0, b1, 255) {
        Some(p) => p,
        None => return None,
    };
    if pr > 32 {
        return None;
    }
    Some((ipv4_to_string(ip), pr as u8))
}

/// An interface-name character: ASCII alphanumeric, `-` or `_`.
pub open spec fn iface_char(c: char) -> bool {
    ||| ('a' <= c && c <= 'z')
    ||| ('A' <= c && c <= 'Z')
    ||| ('0' <= c && c <= '9')
    ||| c == '-'
    ||| c == '_'
}

/// A plausible interface name: 1–15 characters, each ASCII alphanumeric, `-`
/// or `_` — no whitespace, `/`, `.` or `:` anywhere, surrounding whitespace
/// included. (All such characters are one byte, so the length is also the
/// byte length.)
pub open spec fn iface_ok(s: Seq<char>) -> bool {
    &&& 0 < s.len() <= 15
    &&& forall|i: int| 0 <= i < s.len() ==> iface_char(#[trigger] s[i])
}

/// True for a plausible interface name (see [`iface_ok`]). The name goes into
/// the root helper's `netcfg:` node paths, so anything that could leave the
/// interface's node, whitespace included, is refused.
pub fn valid_iface(s: &str) -> (r: bool)
    ensures
        r == iface_ok(s@),
{
    let t = to_chars(s);
    if t.len() == 0 || t.len() > 15 {
        return false;
    }
    let mut i: usize = 0;
    while i < t.len()
        invariant
            i <= t@.len(),
            t@ == s@,
            0 < t@.len() <= 15,
            forall|j: int| 0 <= j < i ==> iface_char(#[trigger] t@[j]),
        decreases t@.len() - i,
    {
        let c = t[i];
        if !(('a' <= c && c <= 'z') || ('A' <= c && c <= 'Z') || ('0' <= c && c <= '9') || c == '-'
            || c == '_') {
            assert(!iface_char(t@[i as int]));
            return false;
        }
        i = i + 1;
    }
    true
}

/// What a `default` route line gives: `None` if it has no `via` word, otherwise
/// `Some` of the word after the first `via` (itself `None` when `via` is last).
pub open spec fn via_word(ws: Seq<Seq<char>>) -> Option<Option<Seq<char>>>
    decreases ws.len(),
{
    if ws.len() == 0 {
        None
    } else if ws[0] == "via"@ {
        if ws.len() > 1 {
            Some(Some(ws[1]))
        } else {
            Some(None)
        }
    } else {
        via_word(ws.drop_first())
    }
}

/// Whether a route line, after its leading whitespace, starts with `default`.
pub open spec fn is_default_line(l: Seq<char>) -> bool {
    let t = trim_start(l);
    t.len() >= 7 && t.subrange(0, 7) == "default"@
}

/// The default gateway a sequence of route lines gives: the first `default` line
/// that has a `via` word decides — the word after it, or `None` if there is
/// none; `None` when no `default` line has a `via`.
pub open spec fn gateway_of_lines(ls: Seq<Seq<char>>) -> Option<Seq<char>>
    decreases ls.len(),
{
    if ls.len() == 0 {
        None
    } else if is_default_line(ls[0]) && via_word(words(ls[0])) is Some {
        via_word(words(ls[0]))->0
    } else {
        gateway_of_lines(ls.drop_first())
    }
}

/// The default gateway of a `route/list` dump. The lines are the pieces between
/// `\n`s: the `\r` of a `\r\n` ending and a final empty piece are whitespace or
/// empty, so they change neither the `default` test nor the words.
pub open spec fn default_gateway(route_list: Seq<char>) -> Option<Seq<char>> {
    gateway_of_lines(split_char(route_list, '\n'))
}

/// The word after `via` is one of the words.
proof fn lemma_via_word_in(ws: Seq<Seq<char>>)
    ensures
        via_word(ws) matches Some(Some(g)) ==> exists|k: int| 0 <= k < ws.len() && ws[k] == g,
    decreases ws.len(),
{
    if ws.len() > 0 && ws[0] != "via"@ {
        lemma_via_word_in(ws.drop_first());
        if let Some(Some(g)) = via_word(ws) {
            let k = choose|k: int| 0 <= k < ws.drop_first().len() && ws.drop_first()[k] == g;
            assert(ws[k + 1] == g);
        }
    } else if ws.len() > 1 {
        assert(ws[1] == ws[1]);
    }
}

/// A default gateway found in route lines is a single word, with nothing to trim.
proof fn lemma_gateway_of_lines_trimmed(ls: Seq<Seq<char>>)
    ensures
        gateway_of_lines(ls) matches Some(g) ==> trim(g) == g,
    decreases ls.len(),
{
    if ls.len() > 0 {
        if is_default_line(ls[0]) && via_word(words(ls[0])) is Some {
            lemma_via_word_in(words(ls[0]));
            if let Some(g) = gateway_of_lines(ls) {
                let k = choose|k: int| 0 <= k < words(ls[0]).len() && words(ls[0])[k] == g;
                crate::text::lemma_words_no_ws(ls[0]);
                assert(crate::text::no_ws(words(ls[0])[k]));
                lemma_no_ws_trim(g);
            }
        } else {
            lemma_gateway_of_lines_trimmed(ls.drop_first());
        }
    }
}

/// The default gateway of a route listing has nothing to trim.
pub proof fn lemma_default_gateway_trimmed(route_list: Seq<char>)
    ensures
        default_gateway(route_list) matches Some(g) ==> trim(g) == g,
{
    lemma_gateway_of_lines_trimmed(split_char(route_list, '\n'));
}

/// Pull the default-route gateway out of the netcfg `route/list` dump. Lines
/// read `default  via 10.0.2.2 dev eth0 src 10.0.2.15`; the `via` word of the
/// first `default` line that has one is taken.
pub fn parse_default_gateway(route_list: &str) -> (r: Option<String>)
    ensures
        r matches Some(g) ==> default_gateway(route_list@) == Some(g@),
        r is None ==> default_gateway(route_list@) is None,
{
    let v = to_chars(route_list);
    let lines = split_on(&v, '\n');
    let ghost ls = views(lines@);
    assert(ls.subrange(0, ls.len() as int) == ls);
    let mut i: usize = 0;
    while i < lines.len()
        invariant
            i <= lines@.len(),
            ls == views(lines@),
            ls == split_char(route_list@, '\n'),
            gateway_of_lines(ls) == gateway_of_lines(ls.subrange(i as int, ls.len() as int)),
        decreases lines@.len() - i,
    {
        let line = &lines[i];
        let ghost rest = ls.subrange(i as int, ls.len() as int);
        assert(rest[0] == line@);
        assert(rest.drop_first() == ls.subrange(i + 1, ls.len() as int));
        let (lo, _hi) = trim_bounds(line, 0, line.len());
        assert(line@.subrange(0, line@.len() as int) == line@);
        let is_default = line.len() >= 7 && lo <= line.len() - 7 && range_eq_default(line, lo);
        if is_default {
            assert(is_default_line(line@)) by {
                assert(line@.subrange(lo as int, line@.len() as int).subrange(0, 7) == line@.subrange(
                    lo as int,
                    lo + 7,
                ));
            }
            let ws = split_words(line, 0, line.len());
            let ghost wv = views(ws@);
            assert(wv.subrange(0, wv.len() as int) == wv);
            let mut j: usize = 0;
            while j < ws.len()
                invariant
                    j <= ws@.len(),
                    wv == views(ws@),
                    wv == words(line@),
                    is_default_line(line@),
                    i < ls.len(),
                    ls == split_char(route_list@, '\n'),
                    gateway_of_lines(ls) == gateway_of_lines(rest),
                    rest == ls.subrange(i as int, ls.len() as int),
                    rest[0] == line@,
                    via_word(wv) == via_word(wv.subrange(j as int, wv.len() as int)),
                decreases ws@.len() - j,
            {
                let ghost wr = wv.subrange(j as int, wv.len() as int);
                assert(wr[0] == ws@[j as int]@);
                assert(wr.drop_first() == wv.subrange(j + 1, wv.len() as int));
                if crate::text::chars_eq(&ws[j], "via") {
                    if j + 1 < ws.len() {
                        assert(wr[1] == ws@[j + 1]@);
                        assert(via_word(wr) == Some(Some(wr[1])));
                        assert(gateway_of_lines(rest) == Some(wr[1]));
                        return Some(from_chars(&ws[j + 1]));
                    } else {
                        assert(via_word(wr) == Some(None::<Seq<char>>));
                        assert(gateway_of_lines(rest) is None);
                        return None;
                    }
                }
                j = j + 1;
            }
            assert(wv.subrange(j as int, wv.len() as int).len() == 0);
        } else {
            assert(!is_default_line(line@)) by {
                if is_default_line(line@) {
                    assert(line@.subrange(lo as int, line@.len() as int).subrange(0, 7)
                        == line@.subrange(lo as int, lo + 7));
                }
            }
        }
        i = i + 1;
    }
    assert(ls.subrange(i as int, ls.len() as int).len() == 0);
    None
}

/// Whether `v[lo..lo + 7]` is `default`.
fn range_eq_default(v: &Vec<char>, lo: usize) -> (r: bool)
    requires
        v.len() >= 7,
        lo <= v.len() - 7,
    ensures
        r == (v@.subrange(lo as int, lo + 7) == "default"@),
{
    crate::text::range_eq(v, lo, lo + 7, "default")
}


/// Where the persisted addressing policy lives (`dhcp` or `static`).
pub const NET_MODE_PATH: &'static str = "/etc/net/mode";

/// How the interface gets its address.
#[derive(Clone, Copy, Debug, PartialEq, Eq, Structural)]
pub enum NetMode {
    /// Leased from a DHCP server (the default).
    Dhcp,
    /// Fixed address configured by the user.
    Static,
}

impl Default for NetMode {
    fn default() -> (m: Self)
        ensures
            m == NetMode::Dhcp,
    {
        NetMode::Dhcp
    }
}

/// The token a mode is written as.
pub open spec fn mode_token(m: NetMode) -> Seq<char> {
    match m {
        NetMode::Dhcp => "dhcp"@,
        NetMode::Static => "static"@,
    }
}

impl NetMode {
    /// The token written to [`NET_MODE_PATH`].
    pub fn as_str(self) -> (s: &'static str)
        ensures
            s@ == mode_token(self),
    {
        match self {
            NetMode::Dhcp => "dhcp",
            NetMode::Static => "static",
        }
    }

    /// Human label for the network tab.
    pub fn label(self) -> (s: &'static str)
        ensures
            s@ == (match self {
                NetMode::Dhcp => "Automatyczna (DHCP)"@,
                NetMode::Static => "Statyczna"@,
            }),
    {
        match self {
            NetMode::Dhcp => "Automatyczna (DHCP)",
            NetMode::Static => "Statyczna",
        }
    }
}

/// The code of a character after ASCII lower-casing (`char::to_ascii_lowercase`).
pub open spec fn ascii_lower(c: char) -> int {
    if 'A' <= c && c <= 'Z' {
        (c as int) + 32
    } else {
        c as int
    }
}

/// `a` and `b` are equal ignoring ASCII case (`str::eq_ignore_ascii_case` on texts
/// of which `b` is ASCII).
pub open spec fn eq_ignore_ascii_case(a: Seq<char>, b: Seq<char>) -> bool {
    a.len() == b.len() && forall|i: int| 0 <= i < a.len() ==> ascii_lower(#[trigger] a[i])
        == ascii_lower(b[i])
}

/// The mode a marker text stands for: `static` in any ASCII case, after
/// trimming, is static; anything else (empty, garbled) is DHCP.
pub open spec fn net_mode_of(s: Seq<char>) -> NetMode {
    if eq_ignore_ascii_case(trim(s), "static"@) {
        NetMode::Static
    } else {
        NetMode::Dhcp
    }
}

fn to_ascii_lower(c: char) -> (r: u32)
    ensures
        r as int == ascii_lower(c),
{
    if 'A' <= c && c <= 'Z' {
        (c as u32) + 32
    } else {
        c as u32
    }
}

/// Parse the mode marker. Anything that isn't `static` (ignoring ASCII case and
/// surrounding whitespace) reads as DHCP.
pub fn parse_net_mode(s: &str) -> (m: NetMode)
    ensures
        m == net_mode_of(s@),
{
    let t = trimmed(s);
    let w = to_chars("static");
    if t.len() != w.len() {
        return NetMode::Dhcp;
    }
    let mut i: usize = 0;
    while i < t.len()
        invariant
            t@ == trim(s@),
            w@ == "static"@,
            t@.len() == w@.len(),
            i <= t@.len(),
            forall|j: int| 0 <= j < i ==> ascii_lower(#[trigger] t@[j]) == ascii_lower(w@[j]),
        decreases t@.len() - i,
    {
        if to_ascii_lower(t[i]) != to_ascii_lower(w[i]) {
            return NetMode::Dhcp;
        }
        i = i + 1;
    }
    NetMode::Static
}

/// Law: a mode marker written with [`NetMode::as_str`] reads back as that mode,
/// both as the bare token and as the line the helper writes to the marker file.
pub proof fn law_net_mode_roundtrip(m: NetMode)
    ensures
        net_mode_of(mode_token(m)) == m,
        net_mode_of(mode_token(m) + "\n"@) == m,
{
    reveal_strlit("static");
    reveal_strlit("dhcp");
    let t = mode_token(m);
    assert forall|i: int| 0 <= i < t.len() implies !is_ws(#[trigger] t[i]) by {}
    lemma_no_ws_trim(t);
    crate::text::lemma_trim_line(t);
}

/// What a `netcfg:` read means: the trimmed text, unless it is empty or one of
/// smolnetd's placeholders (`Not configured`, `Device not found`).
pub open spec fn netcfg_value_of(s: Seq<char>) -> Option<Seq<char>> {
    let t = trim(s);
    if t.len() == 0 || t == "Not configured"@ || t == "Device not found"@ {
        None
    } else {
        Some(t)
    }
}

/// The value of a single-line `netcfg:` read, with placeholders and empty
/// results mapped to `None`, so a placeholder never passes as a real value.
pub fn netcfg_value(s: &str) -> (r: Option<String>)
    ensures
        r matches Some(x) ==> netcfg_value_of(s@) == Some(x@),
        r is None ==> netcfg_value_of(s@) is None,
{
    let t = trimmed(s);
    if t.len() == 0 || chars_eq(&t, "Not configured") || chars_eq(&t, "Device not found") {
        None
    } else {
        Some(from_chars(&t))
    }
}

} // verus!
