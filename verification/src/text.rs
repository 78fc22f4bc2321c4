//! Character-sequence helpers shared by the name, rule and text heuristics.
use vstd::prelude::*;

verus! {

/// ASCII lower-casing of one character; every other character is unchanged.
pub open spec fn lower_char(c: char) -> char {
    if 'A' <= c && c <= 'Z' {
        ((c as u32) + 32) as char
    } else {
        c
    }
}

/// ASCII upper-casing of one character; every other character is unchanged.
pub open spec fn upper_char(c: char) -> char {
    if 'a' <= c && c <= 'z' {
        ((c as u32) - 32) as char
    } else {
        c
    }
}

/// ASCII lower-casing of a whole sequence.
pub open spec fn lower_seq(s: Seq<char>) -> Seq<char> {
    Seq::new(s.len(), |i: int| lower_char(s[i]))
}

/// Whether every character of `s` is ASCII.
pub open spec fn all_ascii(s: Seq<char>) -> bool {
    forall|i: int| 0 <= i < s.len() ==> (s[i] as u32) < 128
}

/// `needle` occurs in `hay` starting at index `i`.
pub open spec fn occurs_at(hay: Seq<char>, needle: Seq<char>, i: int) -> bool {
    0 <= i && i + needle.len() <= hay.len() && hay.subrange(i, i + needle.len()) == needle
}

/// `needle` occurs somewhere in `hay`.
pub open spec fn contains_seq(hay: Seq<char>, needle: Seq<char>) -> bool {
    exists|i: int| occurs_at(hay, needle, i)
}

/// `s` begins with `p`.
pub open spec fn starts_with(s: Seq<char>, p: Seq<char>) -> bool {
    p.len() <= s.len() && s.subrange(0, p.len() as int) == p
}

/// `s` ends with `p`.
pub open spec fn ends_with(s: Seq<char>, p: Seq<char>) -> bool {
    p.len() <= s.len() && s.subrange(s.len() - p.len(), s.len() as int) == p
}

/// Unicode `White_Space` characters, the set that `char::is_whitespace` recognises.
pub open spec fn is_ws(c: char) -> bool {
    let u = c as u32;
    (0x09 <= u && u <= 0x0D) || u == 0x20 || u == 0x85 || u == 0xA0 || u == 0x1680 || (0x2000
        <= u && u <= 0x200A) || u == 0x2028 || u == 0x2029 || u == 0x202F || u == 0x205F || u
        == 0x3000
}

/// Number of leading characters of `s` that satisfy whitespace.
pub open spec fn lead_ws(s: Seq<char>) -> nat
    decreases s.len(),
{
    if s.len() > 0 && is_ws(s[0]) {
        1 + lead_ws(s.drop_first())
    } else {
        0
    }
}

/// Number of trailing whitespace characters of `s`.
pub open spec fn trail_ws(s: Seq<char>) -> nat
    decreases s.len(),
{
    if s.len() > 0 && is_ws(s.last()) {
        1 + trail_ws(s.drop_last())
    } else {
        0
    }
}

/// `s` without leading whitespace.
pub open spec fn trim_start(s: Seq<char>) -> Seq<char> {
    s.subrange(lead_ws(s) as int, s.len() as int)
}

/// `s` without trailing whitespace.
pub open spec fn trim_end(s: Seq<char>) -> Seq<char> {
    s.subrange(0, s.len() - trail_ws(s))
}

/// `s` without whitespace at either end, as `str::trim` gives it.
pub open spec fn trim(s: Seq<char>) -> Seq<char> {
    trim_end(trim_start(s))
}

/// Number of trailing copies of `c` at the end of `s`.
pub open spec fn trail_char(s: Seq<char>, c: char) -> nat
    decreases s.len(),
{
    if s.len() > 0 && s.last() == c {
        1 + trail_char(s.drop_last(), c)
    } else {
        0
    }
}

/// `s` without any trailing `c`, as `str::trim_end_matches(c)` gives it.
pub open spec fn trim_end_char(s: Seq<char>, c: char) -> Seq<char> {
    s.subrange(0, s.len() - trail_char(s, c))
}

pub proof fn lemma_lead_ws_bound(s: Seq<char>)
    ensures
        lead_ws(s) <= s.len(),
        lead_ws(s) < s.len() ==> !is_ws(s[lead_ws(s) as int]),
        forall|i: int| 0 <= i < lead_ws(s) ==> is_ws(#[trigger] s[i]),
    decreases s.len(),
{
    if s.len() > 0 && is_ws(s[0]) {
        lemma_lead_ws_bound(s.drop_first());
        assert forall|i: int| 0 <= i < lead_ws(s) implies is_ws(#[trigger] s[i]) by {
            if i > 0 {
                assert(s[i] == s.drop_first()[i - 1]);
            }
        }
    }
}

pub proof fn lemma_trail_ws_bound(s: Seq<char>)
    ensures
        trail_ws(s) <= s.len(),
        trail_ws(s) < s.len() ==> !is_ws(s[s.len() - trail_ws(s) - 1]),
        forall|i: int| s.len() - trail_ws(s) <= i < s.len() ==> is_ws(#[trigger] s[i]),
    decreases s.len(),
{
    if s.len() > 0 && is_ws(s.last()) {
        lemma_trail_ws_bound(s.drop_last());
        assert forall|i: int| s.len() - trail_ws(s) <= i < s.len() implies is_ws(
            #[trigger] s[i],
        ) by {
            if i < s.len() - 1 {
                assert(s[i] == s.drop_last()[i]);
            }
        }
    }
}

pub proof fn lemma_trail_char_bound(s: Seq<char>, c: char)
    ensures
        trail_char(s, c) <= s.len(),
        trail_char(s, c) < s.len() ==> s[s.len() - trail_char(s, c) - 1] != c,
        forall|i: int| s.len() - trail_char(s, c) <= i < s.len() ==> #[trigger] s[i] == c,
    decreases s.len(),
{
    if s.len() > 0 && s.last() == c {
        lemma_trail_char_bound(s.drop_last(), c);
        assert forall|i: int| s.len() - trail_char(s, c) <= i < s.len() implies #[trigger] s[i]
            == c by {
            if i < s.len() - 1 {
                assert(s[i] == s.drop_last()[i]);
            }
        }
    }
}

/// Whitespace test, as `char::is_whitespace` decides it.
pub fn is_whitespace_char(c: char) -> (r: bool)
    ensures
        r == is_ws(c),
{
    let u = c as u32;
    (0x09 <= u && u <= 0x0D) || u == 0x20 || u == 0x85 || u == 0xA0 || u == 0x1680 || (0x2000
        <= u && u <= 0x200A) || u == 0x2028 || u == 0x2029 || u == 0x202F || u == 0x205F || u
        == 0x3000
}

/// ASCII lower-casing of one character.
pub fn to_lower_char(c: char) -> (r: char)
    ensures
        r == lower_char(c),
{
    if 'A' <= c && c <= 'Z' {
        let u: u8 = (c as u8) + 32;
        u as char
    } else {
        c
    }
}

/// ASCII upper-casing of one character.
pub fn to_upper_char(c: char) -> (r: char)
    ensures
        r == upper_char(c),
{
    if 'a' <= c && c <= 'z' {
        let u: u8 = (c as u8) - 32;
        u as char
    } else {
        c
    }
}

/// The characters of `s`, in order.
pub fn chars_of(s: &str) -> (v: Vec<char>)
    ensures
        v@ == s@,
{
    let mut v: Vec<char> = Vec::new();
    for c in it: s.chars()
        invariant
            v@ == it.seq().take(it.index() as int),
            it.seq() == s@,
    {
        v.push(c);
        assert(v@ == it.seq().take(it.index() + 1));
    }
    assert(v@ == s@);
    v
}

/// A `String` holding exactly the characters of `v`.
/// Calls `String`'s `FromIterator<char>` impl; the contract claims that the string
/// holds the collected characters in order, as std documents.
#[verifier::external_body]
pub fn string_from_chars(v: &[char]) -> (s: String)
    ensures
        s@ == v@,
{
    v.iter().collect()
}

/// Character-wise equality of two slices.
pub fn eq_chars(a: &[char], b: &[char]) -> (r: bool)
    ensures
        r == (a@ == b@),
{
    if a.len() != b.len() {
        return false;
    }
    let mut i: usize = 0;
    while i < a.len()
        invariant
            a.len() == b.len(),
            i <= a.len(),
            forall|j: int| 0 <= j < i ==> a@[j] == b@[j],
        decreases a.len() - i,
    {
        if a[i] != b[i] {
            return false;
        }
        i += 1;
    }
    assert(a@ =~= b@);
    true
}

/// Equality of a character slice with the characters of a string slice.
pub fn eq_str(a: &[char], b: &str) -> (r: bool)
    ensures
        r == (a@ == b@),
{
    let bc = chars_of(b);
    eq_chars(a, bc.as_slice())
}

/// The sub-slice `a[from..to]` as an owned vector.
pub fn slice_vec(a: &[char], from: usize, to: usize) -> (r: Vec<char>)
    requires
        from <= to <= a.len(),
    ensures
        r@ == a@.subrange(from as int, to as int),
{
    let mut r: Vec<char> = Vec::new();
    let mut i = from;
    while i < to
        invariant
            from <= i <= to <= a.len(),
            r@ == a@.subrange(from as int, i as int),
        decreases to - i,
    {
        r.push(a[i]);
        i += 1;
        assert(r@ =~= a@.subrange(from as int, i as int));
    }
    r
}

/// ASCII lower-casing of a whole slice.
pub fn lower_vec(a: &[char]) -> (r: Vec<char>)
    ensures
        r@ == lower_seq(a@),
{
    let mut r: Vec<char> = Vec::new();
    let mut i: usize = 0;
    while i < a.len()
        invariant
            i <= a.len(),
            r@.len() == i,
            forall|j: int| 0 <= j < i ==> r@[j] == lower_char(a@[j]),
        decreases a.len() - i,
    {
        r.push(to_lower_char(a[i]));
        i += 1;
    }
    assert(r@ =~= lower_seq(a@));
    r
}

/// Whether `needle` occurs in `hay` at index `i`.
pub fn occurs_at_exec(hay: &[char], needle: &[char], i: usize) -> (r: bool)
    ensures
        r == occurs_at(hay@, needle@, i as int),
{
    if i > hay.len() || needle.len() > hay.len() - i {
        return false;
    }
    let mut k: usize = 0;
    while k < needle.len()
        invariant
            i + needle.len() <= hay.len(),
            k <= needle.len(),
            forall|j: int| 0 <= j < k ==> hay@[i + j] == needle@[j],
        decreases needle.len() - k,
    {
        if hay[i + k] != needle[k] {
            assert(hay@.subrange(i as int, i + needle.len())[k as int] != needle@[k as int]);
            return false;
        }
        k += 1;
    }
    assert(hay@.subrange(i as int, i + needle.len()) =~= needle@);
    true
}

/// The first index at which `needle` occurs in `hay`, if any.
pub fn find_seq(hay: &[char], needle: &[char]) -> (r: Option<usize>)
    ensures
        r is None <==> !contains_seq(hay@, needle@),
        r matches Some(i) ==> occurs_at(hay@, needle@, i as int) && forall|j: int|
            0 <= j < i ==> !occurs_at(hay@, needle@, j),
{
    let mut i: usize = 0;
    loop
        invariant
            i <= hay.len(),
            forall|j: int| 0 <= j < i ==> !occurs_at(hay@, needle@, j),
        decreases hay.len() - i,
    {
        if occurs_at_exec(hay, needle, i) {
            return Some(i);
        }
        if i == hay.len() {
            assert forall|j: int| !occurs_at(hay@, needle@, j) by {
                if 0 <= j && j < i {
                }
            }
            return None;
        }
        i += 1;
    }
}

/// Whether `needle` occurs in `hay`.
pub fn contains_chars(hay: &[char], needle: &[char]) -> (r: bool)
    ensures
        r == contains_seq(hay@, needle@),
{
    find_seq(hay, needle).is_some()
}

/// Whether `needle` (a string slice) occurs in `hay`.
pub fn contains_str(hay: &[char], needle: &str) -> (r: bool)
    ensures
        r == contains_seq(hay@, needle@),
{
    let n = chars_of(needle);
    contains_chars(hay, n.as_slice())
}

/// Whether `hay` begins with `p`.
pub fn starts_with_str(hay: &[char], p: &str) -> (r: bool)
    ensures
        r == starts_with(hay@, p@),
{
    let n = chars_of(p);
    let r = occurs_at_exec(hay, n.as_slice(), 0);
    assert(r == starts_with(hay@, p@));
    r
}

/// Whether `hay` ends with `p`.
pub fn ends_with_str(hay: &[char], p: &str) -> (r: bool)
    ensures
        r == ends_with(hay@, p@),
{
    let n = chars_of(p);
    if n.len() > hay.len() {
        return false;
    }
    occurs_at_exec(hay, n.as_slice(), hay.len() - n.len())
}

/// Whether the character `c` occurs in `s`.
pub fn has_char(s: &[char], c: char) -> (r: bool)
    ensures
        r == s@.contains(c),
{
    let mut i: usize = 0;
    while i < s.len()
        invariant
            i <= s.len(),
            forall|j: int| 0 <= j < i ==> s@[j] != c,
        decreases s.len() - i,
    {
        if s[i] == c {
            return true;
        }
        i += 1;
    }
    false
}

/// `s` without whitespace at either end.
pub fn trim_vec(s: &[char]) -> (r: Vec<char>)
    ensures
        r@ == trim(s@),
{
    proof {
        lemma_lead_ws_bound(s@);
    }
    let mut a: usize = 0;
    while a < s.len() && is_whitespace_char(s[a])
        invariant
            a <= s.len(),
            a <= lead_ws(s@),
            lead_ws(s@) <= s.len(),
            forall|i: int| 0 <= i < lead_ws(s@) ==> is_ws(#[trigger] s@[i]),
            lead_ws(s@) < s.len() ==> !is_ws(s@[lead_ws(s@) as int]),
        decreases s.len() - a,
    {
        a += 1;
    }
    assert(a == lead_ws(s@));
    let t = slice_vec(s, a, s.len());
    proof {
        lemma_trail_ws_bound(t@);
    }
    let mut b: usize = t.len();
    while b > 0 && is_whitespace_char(t[b - 1])
        invariant
            b <= t.len(),
            t.len() - b <= trail_ws(t@),
            trail_ws(t@) <= t@.len(),
            forall|i: int| t@.len() - trail_ws(t@) <= i < t@.len() ==> is_ws(#[trigger] t@[i]),
            trail_ws(t@) < t@.len() ==> !is_ws(t@[t@.len() - trail_ws(t@) - 1]),
        decreases b,
    {
        b -= 1;
    }
    assert(t.len() - b == trail_ws(t@));
    slice_vec(t.as_slice(), 0, b)
}

/// `s` without trailing whitespace.
pub fn trim_end_vec(s: &[char]) -> (r: Vec<char>)
    ensures
        r@ == trim_end(s@),
{
    proof {
        lemma_trail_ws_bound(s@);
    }
    let mut b: usize = s.len();
    while b > 0 && is_whitespace_char(s[b - 1])
        invariant
            b <= s.len(),
            s.len() - b <= trail_ws(s@),
            trail_ws(s@) <= s@.len(),
            forall|i: int| s@.len() - trail_ws(s@) <= i < s@.len() ==> is_ws(#[trigger] s@[i]),
            trail_ws(s@) < s@.len() ==> !is_ws(s@[s@.len() - trail_ws(s@) - 1]),
        decreases b,
    {
        b -= 1;
    }
    slice_vec(s, 0, b)
}

/// `s` without any trailing copies of `c`.
pub fn trim_end_char_vec(s: &[char], c: char) -> (r: Vec<char>)
    ensures
        r@ == trim_end_char(s@, c),
{
    proof {
        lemma_trail_char_bound(s@, c);
    }
    let mut b: usize = s.len();
    while b > 0 && s[b - 1] == c
        invariant
            b <= s.len(),
            s.len() - b <= trail_char(s@, c),
            trail_char(s@, c) <= s@.len(),
            forall|i: int| s@.len() - trail_char(s@, c) <= i < s@.len() ==> #[trigger] s@[i] == c,
            trail_char(s@, c) < s@.len() ==> s@[s@.len() - trail_char(s@, c) - 1] != c,
        decreases b,
    {
        b -= 1;
    }
    slice_vec(s, 0, b)
}

} // verus!

verus! {

/// Name for what `str::to_lowercase` returns: the Unicode lower-case mapping.
pub uninterp spec fn spec_unicode_lowercase(s: Seq<char>) -> Seq<char>;

/// Lower-cases `s` by the Unicode rules.
/// Calls `str::to_lowercase`; the contract names the result and states what std
/// documents for ASCII text: each ASCII letter is lower-cased, nothing else changes.
#[verifier::external_body]
pub fn unicode_lowercase(s: &str) -> (r: String)
    ensures
        r@ == spec_unicode_lowercase(s@),
        all_ascii(s@) ==> r@ == lower_seq(s@),
{
    s.to_lowercase()
}

/// Number of leading characters of `s` that differ from `c`.
pub open spec fn first_pos(s: Seq<char>, c: char) -> nat
    decreases s.len(),
{
    if s.len() == 0 || s[0] == c {
        0
    } else {
        1 + first_pos(s.drop_first(), c)
    }
}

/// The part of `s` before the first `c`, as `s.split(c).next()` gives it.
pub open spec fn take_until(s: Seq<char>, c: char) -> Seq<char> {
    s.subrange(0, first_pos(s, c) as int)
}

/// Number of leading characters of `s` that are not whitespace.
pub open spec fn first_ws(s: Seq<char>) -> nat
    decreases s.len(),
{
    if s.len() == 0 || is_ws(s[0]) {
        0
    } else {
        1 + first_ws(s.drop_first())
    }
}

pub proof fn lemma_first_pos(s: Seq<char>, c: char, i: int)
    requires
        0 <= i <= s.len(),
        forall|j: int| 0 <= j < i ==> s[j] != c,
        i == s.len() || s[i] == c,
    ensures
        first_pos(s, c) == i,
    decreases s.len(),
{
    if s.len() > 0 && s[0] != c {
        assert forall|j: int| 0 <= j < i - 1 implies s.drop_first()[j] != c by {
            assert(s.drop_first()[j] == s[j + 1]);
        }
        lemma_first_pos(s.drop_first(), c, i - 1);
    }
}

pub proof fn lemma_first_ws(s: Seq<char>, i: int)
    requires
        0 <= i <= s.len(),
        forall|j: int| 0 <= j < i ==> !is_ws(s[j]),
        i == s.len() || is_ws(s[i]),
    ensures
        first_ws(s) == i,
    decreases s.len(),
{
    if s.len() > 0 && !is_ws(s[0]) {
        assert forall|j: int| 0 <= j < i - 1 implies !is_ws(s.drop_first()[j]) by {
            assert(s.drop_first()[j] == s[j + 1]);
        }
        lemma_first_ws(s.drop_first(), i - 1);
    }
}

/// The part of `s` before the first `c`.
pub fn take_until_vec(s: &[char], c: char) -> (r: Vec<char>)
    ensures
        r@ == take_until(s@, c),
{
    let mut i: usize = 0;
    while i < s.len() && s[i] != c
        invariant
            i <= s.len(),
            forall|j: int| 0 <= j < i ==> s@[j] != c,
        decreases s.len() - i,
    {
        i += 1;
    }
    proof {
        lemma_first_pos(s@, c, i as int);
    }
    slice_vec(s, 0, i)
}

/// Index of the first whitespace character of `s`, or its length.
pub fn first_ws_index(s: &[char]) -> (r: usize)
    ensures
        r == first_ws(s@),
        r <= s.len(),
{
    let mut i: usize = 0;
    while i < s.len() && !is_whitespace_char(s[i])
        invariant
            i <= s.len(),
            forall|j: int| 0 <= j < i ==> !is_ws(s@[j]),
        decreases s.len() - i,
    {
        i += 1;
    }
    proof {
        lemma_first_ws(s@, i as int);
    }
    i
}

} // verus!

verus! {

/// `s` without leading whitespace.
pub fn trim_start_vec(s: &[char]) -> (r: Vec<char>)
    ensures
        r@ == trim_start(s@),
{
    proof {
        lemma_lead_ws_bound(s@);
    }
    let mut a: usize = 0;
    while a < s.len() && is_whitespace_char(s[a])
        invariant
            a <= s.len(),
            a <= lead_ws(s@),
            lead_ws(s@) <= s.len(),
            forall|i: int| 0 <= i < lead_ws(s@) ==> is_ws(#[trigger] s@[i]),
            lead_ws(s@) < s.len() ==> !is_ws(s@[lead_ws(s@) as int]),
        decreases s.len() - a,
    {
        a += 1;
    }
    slice_vec(s, a, s.len())
}

/// The first whitespace-separated token of `s`, as `split_whitespace().next()` gives it
/// (empty when there is none).
pub open spec fn ws_token(s: Seq<char>) -> Seq<char> {
    trim_start(s).subrange(0, first_ws(trim_start(s)) as int)
}

/// The first whitespace-separated token of `s`.
pub fn ws_token_vec(s: &[char]) -> (r: Vec<char>)
    ensures
        r@ == ws_token(s@),
{
    let t = trim_start_vec(s);
    let k = first_ws_index(t.as_slice());
    slice_vec(t.as_slice(), 0, k)
}


/// The texts held by a list of character vectors.
pub open spec fn names_of(items: Seq<Vec<char>>) -> Seq<Seq<char>> {
    Seq::new(items.len(), |i: int| items[i]@)
}

pub proof fn lemma_first_pos_bound(s: Seq<char>, c: char)
    ensures
        first_pos(s, c) <= s.len(),
        first_pos(s, c) < s.len() ==> s[first_pos(s, c) as int] == c,
        forall|j: int| 0 <= j < first_pos(s, c) ==> s[j] != c,
    decreases s.len(),
{
    if s.len() > 0 && s[0] != c {
        lemma_first_pos_bound(s.drop_first(), c);
        assert forall|j: int| 0 <= j < first_pos(s, c) implies s[j] != c by {
            if j > 0 {
                assert(s[j] == s.drop_first()[j - 1]);
            }
        }
    }
}

/// The pieces of `s` between occurrences of `c`, as `str::split` gives them.
pub open spec fn split_on(s: Seq<char>, c: char) -> Seq<Seq<char>>
    decreases s.len(),
{
    let p = first_pos(s, c);
    if p >= s.len() {
        seq![s]
    } else {
        seq![s.subrange(0, p as int)] + split_on(s.subrange(p as int + 1, s.len() as int), c)
    }
}

/// Splits `s` at every `c`.
pub fn split_vec(s: &[char], c: char) -> (r: Vec<Vec<char>>)
    ensures
        names_of(r@) == split_on(s@, c),
        r@.len() >= 1,
{
    let mut pieces: Vec<Vec<char>> = Vec::new();
    let mut start: usize = 0;
    let mut i: usize = 0;
    assert(names_of(pieces@) =~= Seq::<Seq<char>>::empty());
    assert(s@.subrange(0, s@.len() as int) =~= s@);
    assert(names_of(pieces@) + split_on(s@, c) =~= split_on(s@, c));
    while i < s.len()
        invariant
            start <= i <= s.len(),
            forall|j: int| start <= j < i ==> s@[j] != c,
            names_of(pieces@) + split_on(s@.subrange(start as int, s@.len() as int), c) == split_on(s@, c),
        decreases s.len() - i,
    {
        if s[i] == c {
            let ghost rest = s@.subrange(start as int, s@.len() as int);
            proof {
                lemma_first_pos(rest, c, i - start);
                assert(rest.subrange(0, i - start) =~= s@.subrange(start as int, i as int));
                assert(rest.subrange(i - start + 1, rest.len() as int) =~= s@.subrange(i + 1, s@.len() as int));
            }
            let piece = slice_vec(s, start, i);
            let ghost before = names_of(pieces@);
            pieces.push(piece);
            proof {
                assert(names_of(pieces@) =~= before.push(piece@));
                assert(names_of(pieces@) + split_on(s@.subrange(i + 1, s@.len() as int), c) =~= before + split_on(rest, c));
            }
            start = i + 1;
        }
        i += 1;
    }
    let ghost rest = s@.subrange(start as int, s@.len() as int);
    proof {
        lemma_first_pos(rest, c, rest.len() as int);
        assert(split_on(rest, c) == seq![rest]);
    }
    let piece = slice_vec(s, start, s.len());
    let ghost before = names_of(pieces@);
    pieces.push(piece);
    assert(names_of(pieces@) =~= before + seq![rest]);
    pieces
}

/// The character of a decimal digit.
pub open spec fn digit_char(d: nat) -> char {
    if d == 0 {
        '0'
    } else if d == 1 {
        '1'
    } else if d == 2 {
        '2'
    } else if d == 3 {
        '3'
    } else if d == 4 {
        '4'
    } else if d == 5 {
        '5'
    } else if d == 6 {
        '6'
    } else if d == 7 {
        '7'
    } else if d == 8 {
        '8'
    } else {
        '9'
    }
}

/// The decimal text of `n`, without leading zeros.
pub open spec fn spec_decimal(n: nat) -> Seq<char>
    decreases n,
{
    if n < 10 {
        seq![digit_char(n)]
    } else {
        spec_decimal(n / 10).push(digit_char(n % 10))
    }
}

fn digit(d: u128) -> (r: char)
    requires
        d < 10,
    ensures
        r == digit_char(d as nat),
{
    if d == 0 {
        '0'
    } else if d == 1 {
        '1'
    } else if d == 2 {
        '2'
    } else if d == 3 {
        '3'
    } else if d == 4 {
        '4'
    } else if d == 5 {
        '5'
    } else if d == 6 {
        '6'
    } else if d == 7 {
        '7'
    } else if d == 8 {
        '8'
    } else {
        '9'
    }
}

/// The decimal digits of `n`.
pub fn decimal_vec(n: u128) -> (r: Vec<char>)
    ensures
        r@ == spec_decimal(n as nat),
    decreases n,
{
    if n < 10 {
        let mut v: Vec<char> = Vec::new();
        v.push(digit(n));
        assert(v@ =~= seq![digit_char(n as nat)]);
        v
    } else {
        let mut v = decimal_vec(n / 10);
        v.push(digit(n % 10));
        v
    }
}

/// The decimal text of `n`.
pub fn decimal(n: u128) -> (r: String)
    ensures
        r@ == spec_decimal(n as nat),
{
    let v = decimal_vec(n);
    string_from_chars(v.as_slice())
}


pub proof fn lemma_lead_ws_exact(s: Seq<char>, i: int)
    requires
        0 <= i <= s.len(),
        forall|j: int| 0 <= j < i ==> is_ws(s[j]),
        i == s.len() || !is_ws(s[i]),
    ensures
        lead_ws(s) == i,
    decreases s.len(),
{
    if s.len() > 0 && is_ws(s[0]) {
        assert forall|j: int| 0 <= j < i - 1 implies is_ws(s.drop_first()[j]) by {
            assert(s.drop_first()[j] == s[j + 1]);
        }
        lemma_lead_ws_exact(s.drop_first(), i - 1);
    }
}

/// The whitespace-separated tokens of `s`, as `split_whitespace` gives them.
pub open spec fn ws_tokens(s: Seq<char>) -> Seq<Seq<char>>
    decreases s.len(),
{
    let t = trim_start(s);
    if t.len() == 0 {
        Seq::empty()
    } else {
        proof {
            lemma_lead_ws_bound(s);
            lemma_first_ws_pos(t);
        }
        let k = first_ws(t);
        seq![t.subrange(0, k as int)] + ws_tokens(t.subrange(k as int, t.len() as int))
    }
}

pub proof fn lemma_first_ws_pos(t: Seq<char>)
    ensures
        first_ws(t) <= t.len(),
        t.len() > 0 && !is_ws(t[0]) ==> first_ws(t) >= 1,
    decreases t.len(),
{
    if t.len() > 0 && !is_ws(t[0]) {
        lemma_first_ws_pos(t.drop_first());
    }
}

/// The whitespace-separated tokens of `s`.
pub fn ws_tokens_vec(s: &[char]) -> (r: Vec<Vec<char>>)
    ensures
        names_of(r@) == ws_tokens(s@),
{
    let mut out: Vec<Vec<char>> = Vec::new();
    let mut i: usize = 0;
    assert(s@.subrange(0, s@.len() as int) =~= s@);
    assert(names_of(out@) =~= Seq::<Seq<char>>::empty());
    assert(names_of(out@) + ws_tokens(s@) =~= ws_tokens(s@));
    while i < s.len()
        invariant
            i <= s@.len(),
            names_of(out@) + ws_tokens(s@.subrange(i as int, s@.len() as int)) == ws_tokens(s@),
        decreases s@.len() - i,
    {
        let ghost rest = s@.subrange(i as int, s@.len() as int);
        let mut a: usize = i;
        while a < s.len() && is_whitespace_char(s[a])
            invariant
                i <= a <= s@.len(),
                forall|j: int| i <= j < a ==> is_ws(s@[j]),
            decreases s@.len() - a,
        {
            a += 1;
        }
        proof {
            lemma_lead_ws_exact(rest, a - i);
            assert(trim_start(rest) =~= s@.subrange(a as int, s@.len() as int));
        }
        if a == s.len() {
            proof {
                assert(trim_start(rest).len() == 0);
                assert(ws_tokens(rest) == Seq::<Seq<char>>::empty());
                assert(s@.subrange(a as int, s@.len() as int) =~= rest.subrange(rest.len() as int, rest.len() as int));
                assert(ws_tokens(s@.subrange(a as int, s@.len() as int)) =~= Seq::<Seq<char>>::empty());
            }
            i = a;
        } else {
            let mut b: usize = a;
            while b < s.len() && !is_whitespace_char(s[b])
                invariant
                    a <= b <= s@.len(),
                    forall|j: int| a <= j < b ==> !is_ws(s@[j]),
                decreases s@.len() - b,
            {
                b += 1;
            }
            let ghost t = s@.subrange(a as int, s@.len() as int);
            proof {
                lemma_first_ws(t, b - a);
                assert(t.subrange(0, b - a) =~= s@.subrange(a as int, b as int));
                assert(t.subrange(b - a, t.len() as int) =~= s@.subrange(b as int, s@.len() as int));
            }
            let tok = slice_vec(s, a, b);
            let ghost before = names_of(out@);
            out.push(tok);
            proof {
                assert(names_of(out@) =~= before.push(tok@));
                assert(ws_tokens(rest) == seq![tok@] + ws_tokens(s@.subrange(b as int, s@.len() as int)));
                assert(names_of(out@) + ws_tokens(s@.subrange(b as int, s@.len() as int)) =~= before + ws_tokens(rest));
            }
            i = b;
        }
    }
    assert(ws_tokens(s@.subrange(s@.len() as int, s@.len() as int)) =~= Seq::<Seq<char>>::empty()) by {
        assert(trim_start(s@.subrange(s@.len() as int, s@.len() as int)).len() == 0);
    }
    assert(names_of(out@) + Seq::<Seq<char>>::empty() =~= names_of(out@));
    out
}


pub proof fn lemma_trim_first(s: Seq<char>)
    ensures
        trim(s).len() > 0 ==> !is_ws(trim(s)[0]),
{
    lemma_lead_ws_bound(s);
    lemma_trail_ws_bound(trim_start(s));
    if trim(s).len() > 0 {
        assert(trim(s)[0] == trim_start(s)[0]);
        assert(trim_start(s)[0] == s[lead_ws(s) as int]);
    }
}

/// A trimmed, non-empty text has at least one token.
pub proof fn lemma_trimmed_has_token(s: Seq<char>)
    ensures
        trim(s).len() > 0 ==> ws_tokens(trim(s)).len() >= 1,
{
    lemma_trim_first(s);
    let w = trim(s);
    if w.len() > 0 {
        lemma_lead_ws_exact(w, 0);
        assert(trim_start(w) =~= w);
    }
}


/// Name for what `String::from_utf8_lossy` gives: the decoded text with each invalid
/// sequence replaced by U+FFFD.
pub uninterp spec fn spec_utf8_lossy(b: Seq<u8>) -> Seq<char>;

/// Decodes bytes as UTF-8, replacing invalid sequences.
/// Calls `String::from_utf8_lossy`; the contract names its result and states what std
/// documents: valid input is decoded unchanged, and since every character, a
/// replacement one included, stands for at least one input byte, there are no more
/// characters than bytes.
#[verifier::external_body]
pub fn utf8_lossy(b: &[u8]) -> (r: String)
    ensures
        r@ == spec_utf8_lossy(b@),
        r@.len() <= b@.len(),
        vstd::utf8::valid_utf8(b@) ==> r@ == vstd::utf8::decode_utf8(b@),
{
    String::from_utf8_lossy(b).to_string()
}


/// Name for what `str::to_uppercase` returns: the Unicode upper-case mapping.
pub uninterp spec fn spec_unicode_uppercase(s: Seq<char>) -> Seq<char>;

/// Upper-cases `s` by the Unicode rules.
/// Calls `str::to_uppercase`; the contract names the result and states what std
/// documents for ASCII text: each ASCII letter is upper-cased, nothing else changes.
#[verifier::external_body]
pub fn unicode_uppercase(s: &str) -> (r: String)
    ensures
        r@ == spec_unicode_uppercase(s@),
        all_ascii(s@) ==> r@ == s@.map_values(|c: char| upper_char(c)),
{
    s.to_uppercase()
}

} // verus!

verus! {

/// ASCII letters and digits.
pub open spec fn ascii_alnum(c: char) -> bool {
    ('a' <= c && c <= 'z') || ('A' <= c && c <= 'Z') || ('0' <= c && c <= '9')
}

/// Name for what `char::is_alphanumeric` answers: whether `c` has the Unicode
/// `Alphabetic` or `Numeric` property.
pub uninterp spec fn spec_is_alphanumeric(c: char) -> bool;

/// Whether `c` is a letter or a digit by the Unicode tables.
/// Calls `char::is_alphanumeric`; the contract names the answer and states what std
/// documents for ASCII: exactly the ASCII letters and digits qualify.
#[verifier::external_body]
pub fn is_alphanumeric(c: char) -> (r: bool)
    ensures
        r == spec_is_alphanumeric(c),
        (c as u32) < 128 ==> (r == ascii_alnum(c)),
{
    c.is_alphanumeric()
}

} // verus!

verus! {

/// `a` comes strictly before `b` in lexicographic order of code points, the order in
/// which `str`'s `Ord` puts them (UTF-8 keeps code-point order byte by byte).
pub open spec fn lex_lt(a: Seq<char>, b: Seq<char>) -> bool
    decreases a.len(),
{
    if a.len() == 0 {
        b.len() > 0
    } else if b.len() == 0 {
        false
    } else if a[0] != b[0] {
        a[0] < b[0]
    } else {
        lex_lt(a.drop_first(), b.drop_first())
    }
}

pub proof fn lemma_lex_irreflexive(a: Seq<char>)
    ensures
        !lex_lt(a, a),
    decreases a.len(),
{
    if a.len() > 0 {
        lemma_lex_irreflexive(a.drop_first());
    }
}

pub proof fn lemma_lex_transitive(a: Seq<char>, b: Seq<char>, c: Seq<char>)
    requires
        lex_lt(a, b),
        lex_lt(b, c),
    ensures
        lex_lt(a, c),
    decreases a.len(),
{
    if a.len() > 0 && b.len() > 0 && c.len() > 0 && a[0] == b[0] && b[0] == c[0] {
        lemma_lex_transitive(a.drop_first(), b.drop_first(), c.drop_first());
    }
}

pub proof fn lemma_lex_total(a: Seq<char>, b: Seq<char>)
    requires
        a != b,
    ensures
        lex_lt(a, b) || lex_lt(b, a),
    decreases a.len(),
{
    if a.len() > 0 && b.len() > 0 && a[0] == b[0] {
        if a.drop_first() == b.drop_first() {
            assert(a =~= seq![a[0]] + a.drop_first());
            assert(b =~= seq![b[0]] + b.drop_first());
        }
        lemma_lex_total(a.drop_first(), b.drop_first());
    } else if a.len() == 0 && b.len() == 0 {
        assert(a =~= b);
    }
}

/// Whether `a` comes strictly before `b` in lexicographic code-point order.
pub fn lex_lt_exec(a: &[char], b: &[char]) -> (r: bool)
    ensures
        r == lex_lt(a@, b@),
{
    let mut i: usize = 0;
    assert(a@.subrange(0, a@.len() as int) =~= a@);
    assert(b@.subrange(0, b@.len() as int) =~= b@);
    while i < a.len() && i < b.len() && a[i] == b[i]
        invariant
            i <= a@.len(),
            i <= b@.len(),
            lex_lt(a@, b@) == lex_lt(a@.subrange(i as int, a@.len() as int), b@.subrange(i as int, b@.len() as int)),
        decreases a@.len() - i,
    {
        proof {
            let sa = a@.subrange(i as int, a@.len() as int);
            let sb = b@.subrange(i as int, b@.len() as int);
            assert(sa.drop_first() =~= a@.subrange(i + 1, a@.len() as int));
            assert(sb.drop_first() =~= b@.subrange(i + 1, b@.len() as int));
        }
        i += 1;
    }
    if i == a.len() {
        i < b.len()
    } else if i == b.len() {
        false
    } else {
        a[i] < b[i]
    }
}

} // verus!

verus! {

/// A signed integer in decimal, with a leading `-` when negative.
pub open spec fn spec_int_text(n: int) -> Seq<char> {
    if n < 0 {
        "-"@ + spec_decimal((-n) as nat)
    } else {
        spec_decimal(n as nat)
    }
}

/// `n` in decimal, as `{}` prints it.
pub fn int_text(n: i64) -> (r: String)
    ensures
        r@ == spec_int_text(n as int),
{
    let w: i128 = n as i128;
    if w < 0 {
        let mut s = String::from_str("-");
        let m: i128 = -w;
        s.append(decimal(m as u128).as_str());
        s
    } else {
        decimal(w as u128)
    }
}

} // verus!
