//! IPv4 and MAC addresses in the forms the quarantine keys on.
use vstd::prelude::*;
use crate::text::{
    chars_of, decimal, names_of, spec_decimal, split_on, split_vec, string_from_chars, trim,
    trim_vec, upper_char, to_upper_char,
};

verus! {

/// An ASCII decimal digit.
pub open spec fn is_digit(c: char) -> bool {
    '0' <= c && c <= '9'
}

/// The value of a string of decimal digits.
pub open spec fn digits_value(p: Seq<char>) -> int
    decreases p.len(),
{
    if p.len() == 0 {
        0
    } else {
        digits_value(p.drop_last()) * 10 + (p.last() as u32 - 48)
    }
}

/// One dotted part of an IPv4 address as the standard parser takes it: one to three
/// digits, no leading zero, at most 255.
pub open spec fn octet_ok(p: Seq<char>) -> bool {
    &&& 1 <= p.len() <= 3
    &&& forall|i: int| 0 <= i < p.len() ==> is_digit(#[trigger] p[i])
    &&& (p.len() == 1 || p[0] != '0')
    &&& digits_value(p) <= 255
}

/// The four octets that `s` denotes as an IPv4 address in dotted decimal, if it is one.
pub open spec fn spec_ipv4(s: Seq<char>) -> Option<Seq<u8>> {
    let parts = split_on(s, '.');
    if parts.len() == 4 && forall|i: int| 0 <= i < 4 ==> octet_ok(#[trigger] parts[i]) {
        Some(Seq::new(4, |i: int| digits_value(parts[i]) as u8))
    } else {
        None
    }
}

/// The dotted decimal text of four octets.
pub open spec fn ipv4_text(o: Seq<u8>) -> Seq<char> {
    spec_decimal(o[0] as nat) + seq!['.'] + spec_decimal(o[1] as nat) + seq!['.'] + spec_decimal(
        o[2] as nat,
    ) + seq!['.'] + spec_decimal(o[3] as nat)
}

/// The key under which an address is filed: the trimmed text parsed as IPv4 and
/// written back in dotted decimal; nothing for anything else.
pub open spec fn spec_normalize_ip(s: Seq<char>) -> Option<Seq<char>> {
    match spec_ipv4(trim(s)) {
        Some(o) => Some(ipv4_text(o)),
        None => None,
    }
}

/// Loopback, unspecified, multicast or broadcast.
pub open spec fn is_reserved_v4(o: Seq<u8>) -> bool {
    ||| o[0] == 127
    ||| (o[0] == 0 && o[1] == 0 && o[2] == 0 && o[3] == 0)
    ||| (224 <= o[0] && o[0] <= 239)
    ||| (o[0] == 255 && o[1] == 255 && o[2] == 255 && o[3] == 255)
}

fn digit_value(c: char) -> (r: u32)
    requires
        is_digit(c),
    ensures
        r == c as u32 - 48,
        r < 10,
{
    (c as u32) - 48
}

/// The octet that `p` denotes, if it is a valid dotted part.
fn parse_octet(p: &[char]) -> (r: Option<u8>)
    ensures
        r == if octet_ok(p@) {
            Some(digits_value(p@) as u8)
        } else {
            None::<u8>
        },
{
    if p.len() < 1 || p.len() > 3 {
        return None;
    }
    let mut v: u32 = 0;
    let mut i: usize = 0;
    while i < p.len()
        invariant
            i <= p@.len(),
            p@.len() <= 3,
            forall|j: int| 0 <= j < i ==> is_digit(#[trigger] p@[j]),
            v == digits_value(p@.subrange(0, i as int)),
            v < 1000,
            i == 0 ==> v == 0,
            i == 1 ==> v < 10,
            i == 2 ==> v < 100,
        decreases p@.len() - i,
    {
        if !('0' <= p[i] && p[i] <= '9') {
            return None;
        }
        let d = digit_value(p[i]);
        proof {
            assert(p@.subrange(0, i + 1).drop_last() =~= p@.subrange(0, i as int));
        }
        v = v * 10 + d;
        i += 1;
    }
    assert(p@.subrange(0, p@.len() as int) =~= p@);
    if p.len() > 1 && p[0] == '0' {
        return None;
    }
    if v > 255 {
        return None;
    }
    Some(v as u8)
}

/// The octets of an IPv4 address in dotted decimal, if `s` is one.
pub fn parse_ipv4(s: &[char]) -> (r: Option<Vec<u8>>)
    ensures
        match r {
            Some(o) => spec_ipv4(s@) == Some(o@),
            None => spec_ipv4(s@) is None,
        },
{
    let parts = split_vec(s, '.');
    if parts.len() != 4 {
        return None;
    }
    let mut out: Vec<u8> = Vec::new();
    let mut i: usize = 0;
    while i < 4
        invariant
            i <= 4,
            parts@.len() == 4,
            names_of(parts@) == split_on(s@, '.'),
            out@.len() == i,
            forall|j: int| 0 <= j < i ==> octet_ok(#[trigger] split_on(s@, '.')[j]),
            forall|j: int| 0 <= j < i ==> out@[j] == digits_value(#[trigger] split_on(s@, '.')[j]) as u8,
        decreases 4 - i,
    {
        assert(parts@[i as int]@ == split_on(s@, '.')[i as int]);
        match parse_octet(parts[i].as_slice()) {
            Some(b) => {
                out.push(b);
            },
            None => {
                return None;
            },
        }
        i += 1;
    }
    assert(out@ =~= Seq::new(4, |j: int| digits_value(split_on(s@, '.')[j]) as u8));
    Some(out)
}

/// The dotted decimal text of four octets.
pub fn ipv4_to_text(o: &Vec<u8>) -> (r: String)
    requires
        o@.len() == 4,
    ensures
        r@ == ipv4_text(o@),
{
    let mut s = decimal(o[0] as u128);
    s.append(".");
    let b = decimal(o[1] as u128);
    s.append(b.as_str());
    s.append(".");
    let c = decimal(o[2] as u128);
    s.append(c.as_str());
    s.append(".");
    let d = decimal(o[3] as u128);
    s.append(d.as_str());
    proof {
        reveal_strlit(".");
    }
    assert(s@ =~= ipv4_text(o@));
    s
}

/// The key under which an address is filed, if it is an IPv4 address.
pub fn normalize_ip(ip: &str) -> (r: Option<String>)
    ensures
        match r {
            Some(t) => spec_normalize_ip(ip@) == Some(t@),
            None => spec_normalize_ip(ip@) is None,
        },
{
    let c = chars_of(ip);
    let t = trim_vec(c.as_slice());
    match parse_ipv4(t.as_slice()) {
        Some(o) => Some(ipv4_to_text(&o)),
        None => None,
    }
}

/// Whether the octets name a loopback, unspecified, multicast or broadcast address.
pub fn is_reserved_ipv4(o: &Vec<u8>) -> (r: bool)
    requires
        o@.len() == 4,
    ensures
        r == is_reserved_v4(o@),
{
    o[0] == 127 || (o[0] == 0 && o[1] == 0 && o[2] == 0 && o[3] == 0) || (224 <= o[0] && o[0] <= 239)
        || (o[0] == 255 && o[1] == 255 && o[2] == 255 && o[3] == 255)
}

/// An ASCII letter or digit.
pub open spec fn is_ascii_alnum(c: char) -> bool {
    ('0' <= c && c <= '9') || ('a' <= c && c <= 'z') || ('A' <= c && c <= 'Z')
}

/// An ASCII hexadecimal digit.
pub open spec fn is_hex(c: char) -> bool {
    ('0' <= c && c <= '9') || ('a' <= c && c <= 'f') || ('A' <= c && c <= 'F')
}

/// The ASCII letters and digits of `s`, in order.
pub open spec fn alnum_only(s: Seq<char>) -> Seq<char>
    decreases s.len(),
{
    if s.len() == 0 {
        s
    } else if is_ascii_alnum(s.last()) {
        alnum_only(s.drop_last()).push(s.last())
    } else {
        alnum_only(s.drop_last())
    }
}

/// Twelve hex digits written as six colon-separated pairs.
pub open spec fn colon_pairs(u: Seq<char>) -> Seq<char> {
    Seq::new(17, |k: int| if k % 3 == 2 { ':' } else { u[(k / 3) * 2 + k % 3] })
}

/// The form a MAC is compared in: its ASCII letters and digits, which must be twelve
/// hex digits, upper-cased and paired with colons; nothing for a malformed, all-zero
/// or broadcast MAC.
pub open spec fn spec_normalize_mac(s: Seq<char>) -> Option<Seq<char>> {
    let c = alnum_only(trim(s));
    let u = c.map_values(|ch: char| upper_char(ch));
    if c.len() != 12 || !(forall|i: int| 0 <= i < c.len() ==> is_hex(#[trigger] c[i])) {
        None
    } else if (forall|i: int| 0 <= i < 12 ==> #[trigger] u[i] == '0') || (forall|i: int|
        0 <= i < 12 ==> #[trigger] u[i] == 'F') {
        None
    } else {
        Some(colon_pairs(u))
    }
}

/// The normalized form of a MAC address, if it is a usable one.
pub fn normalize_mac(mac: &str) -> (r: Option<String>)
    ensures
        match r {
            Some(t) => spec_normalize_mac(mac@) == Some(t@),
            None => spec_normalize_mac(mac@) is None,
        },
{
    let c = chars_of(mac);
    let t = trim_vec(c.as_slice());
    let ghost ts = t@;
    let mut clean: Vec<char> = Vec::new();
    let mut i: usize = 0;
    while i < t.len()
        invariant
            i <= t@.len(),
            ts == t@,
            clean@ == alnum_only(ts.subrange(0, i as int)),
        decreases t@.len() - i,
    {
        let ch = t[i];
        proof {
            assert(ts.subrange(0, i + 1).drop_last() =~= ts.subrange(0, i as int));
        }
        if ('0' <= ch && ch <= '9') || ('a' <= ch && ch <= 'z') || ('A' <= ch && ch <= 'Z') {
            clean.push(ch);
        }
        i += 1;
    }
    assert(ts.subrange(0, ts.len() as int) =~= ts);
    let ghost cs = clean@;
    let ghost us = cs.map_values(|ch: char| upper_char(ch));
    assert(cs == alnum_only(trim(mac@)));
    if clean.len() != 12 {
        return None;
    }
    let mut upper: Vec<char> = Vec::new();
    let mut all_zero = true;
    let mut all_f = true;
    let mut k: usize = 0;
    while k < 12
        invariant
            k <= 12,
            cs == clean@,
            cs == alnum_only(trim(mac@)),
            cs.len() == 12,
            us == cs.map_values(|ch: char| upper_char(ch)),
            forall|j: int| 0 <= j < k ==> is_hex(#[trigger] cs[j]),
            upper@ == us.subrange(0, k as int),
            all_zero == forall|j: int| 0 <= j < k ==> #[trigger] us[j] == '0',
            all_f == forall|j: int| 0 <= j < k ==> #[trigger] us[j] == 'F',
        decreases 12 - k,
    {
        let ch = clean[k];
        if !(('0' <= ch && ch <= '9') || ('a' <= ch && ch <= 'f') || ('A' <= ch && ch <= 'F')) {
            assert(!is_hex(cs[k as int]));
            assert(!(forall|i: int| 0 <= i < cs.len() ==> is_hex(#[trigger] cs[i])));
            return None;
        }
        let u = to_upper_char(ch);
        assert(u == us[k as int]);
        upper.push(u);
        if u != '0' {
            all_zero = false;
        }
        if u != 'F' {
            all_f = false;
        }
        k += 1;
    }
    assert(upper@ =~= us);
    if all_zero || all_f {
        return None;
    }
    let mut out: Vec<char> = Vec::new();
    let mut p: usize = 0;
    while p < 17
        invariant
            p <= 17,
            upper@ == us,
            us.len() == 12,
            out@ == colon_pairs(us).subrange(0, p as int),
        decreases 17 - p,
    {
        let ch = if p % 3 == 2 {
            ':'
        } else {
            upper[(p / 3) * 2 + p % 3]
        };
        out.push(ch);
        p += 1;
        assert(out@ =~= colon_pairs(us).subrange(0, p as int));
    }
    assert(out@ =~= colon_pairs(us));
    Some(string_from_chars(out.as_slice()))
}

} // verus!
