//! Token-level text tests of the file analyzer: split-token obfuscation, whole-word
//! command matches, and the byte-window snippet around a match.
use vstd::prelude::*;
use crate::security::heuristics::{utf8_len, utf8_width};
use crate::text::{
    has_char, is_alphanumeric, names_of, occurs_at, occurs_at_exec, slice_vec,
    spec_is_alphanumeric, trail_char, trim_end_char, trim_end_char_vec,
};

verus! {

/// Characters that may belong to a token around the separator `sep`.
pub open spec fn split_token_char(c: char, sep: char) -> bool {
    spec_is_alphanumeric(c) || c == '_' || c == '-' || c == '.' || c == sep
}

/// Number of leading characters of `s` before the first token break.
pub open spec fn first_break(s: Seq<char>, sep: char) -> nat
    decreases s.len(),
{
    if s.len() == 0 || !split_token_char(s[0], sep) {
        0
    } else {
        1 + first_break(s.drop_first(), sep)
    }
}

/// The pieces of `s` between token breaks, as `str::split` with the break predicate
/// gives them (empty pieces included).
pub open spec fn split_tokens(s: Seq<char>, sep: char) -> Seq<Seq<char>>
    decreases s.len(),
{
    let p = first_break(s, sep);
    if p >= s.len() {
        seq![s]
    } else {
        seq![s.subrange(0, p as int)] + split_tokens(s.subrange(p as int + 1, s.len() as int), sep)
    }
}

/// Number of leading copies of `c` in `s`.
pub open spec fn lead_char(s: Seq<char>, c: char) -> nat
    decreases s.len(),
{
    if s.len() > 0 && s[0] == c {
        1 + lead_char(s.drop_first(), c)
    } else {
        0
    }
}

/// `s` without `c` at either end, as `str::trim_matches(c)` gives it.
pub open spec fn trim_char(s: Seq<char>, c: char) -> Seq<char> {
    trim_end_char(s.subrange(lead_char(s, c) as int, s.len() as int), c)
}

/// `s` with every `c` removed.
pub open spec fn without_char(s: Seq<char>, c: char) -> Seq<char>
    decreases s.len(),
{
    if s.len() == 0 {
        s
    } else if s.last() == c {
        without_char(s.drop_last(), c)
    } else {
        without_char(s.drop_last(), c).push(s.last())
    }
}

/// A token that spells `keyword` once the separators inside it are removed, with at
/// least one separator between its own characters.
pub open spec fn split_token_hit(token: Seq<char>, keyword: Seq<char>, sep: char) -> bool {
    let interior = trim_char(token, sep);
    interior.contains(sep) && without_char(interior, sep) == keyword
}

/// Some token of `text` is `keyword` split by `sep`.
pub open spec fn spec_has_split_token(text: Seq<char>, keyword: Seq<char>, sep: char) -> bool {
    exists|i: int|
        0 <= i < split_tokens(text, sep).len() && #[trigger] split_token_hit(
            split_tokens(text, sep)[i],
            keyword,
            sep,
        )
}

proof fn lemma_first_break(s: Seq<char>, sep: char, i: int)
    requires
        0 <= i <= s.len(),
        forall|j: int| 0 <= j < i ==> split_token_char(s[j], sep),
        i == s.len() || !split_token_char(s[i], sep),
    ensures
        first_break(s, sep) == i,
    decreases s.len(),
{
    if s.len() > 0 && split_token_char(s[0], sep) {
        assert forall|j: int| 0 <= j < i - 1 implies split_token_char(s.drop_first()[j], sep) by {
            assert(s.drop_first()[j] == s[j + 1]);
        }
        lemma_first_break(s.drop_first(), sep, i - 1);
    }
}

fn is_split_token_char(c: char, sep: char) -> (r: bool)
    ensures
        r == split_token_char(c, sep),
{
    is_alphanumeric(c) || c == '_' || c == '-' || c == '.' || c == sep
}

/// Splits `s` at every token break.
fn split_tokens_vec(s: &[char], sep: char) -> (r: Vec<Vec<char>>)
    ensures
        names_of(r@) == split_tokens(s@, sep),
{
    let mut pieces: Vec<Vec<char>> = Vec::new();
    let mut start: usize = 0;
    let mut i: usize = 0;
    assert(s@.subrange(0, s@.len() as int) =~= s@);
    assert(names_of(pieces@) + split_tokens(s@, sep) =~= split_tokens(s@, sep));
    while i < s.len()
        invariant
            start <= i <= s.len(),
            forall|j: int| start <= j < i ==> split_token_char(s@[j], sep),
            names_of(pieces@) + split_tokens(s@.subrange(start as int, s@.len() as int), sep)
                == split_tokens(s@, sep),
        decreases s.len() - i,
    {
        if !is_split_token_char(s[i], sep) {
            let ghost rest = s@.subrange(start as int, s@.len() as int);
            proof {
                lemma_first_break(rest, sep, i - start);
                assert(rest.subrange(0, i - start) =~= s@.subrange(start as int, i as int));
                assert(rest.subrange(i - start + 1, rest.len() as int) =~= s@.subrange(
                    i + 1,
                    s@.len() as int,
                ));
            }
            let piece = slice_vec(s, start, i);
            let ghost before = names_of(pieces@);
            pieces.push(piece);
            proof {
                assert(names_of(pieces@) =~= before.push(piece@));
                assert(names_of(pieces@) + split_tokens(s@.subrange(i + 1, s@.len() as int), sep)
                    =~= before + split_tokens(rest, sep));
            }
            start = i + 1;
        }
        i += 1;
    }
    let ghost rest = s@.subrange(start as int, s@.len() as int);
    proof {
        lemma_first_break(rest, sep, rest.len() as int);
    }
    let piece = slice_vec(s, start, s.len());
    let ghost before = names_of(pieces@);
    pieces.push(piece);
    assert(names_of(pieces@) =~= before + seq![rest]);
    pieces
}

pub proof fn lemma_lead_char(s: Seq<char>, c: char, i: int)
    requires
        0 <= i <= s.len(),
        forall|j: int| 0 <= j < i ==> s[j] == c,
        i == s.len() || s[i] != c,
    ensures
        lead_char(s, c) == i,
    decreases s.len(),
{
    if s.len() > 0 && s[0] == c {
        assert forall|j: int| 0 <= j < i - 1 implies s.drop_first()[j] == c by {
            assert(s.drop_first()[j] == s[j + 1]);
        }
        lemma_lead_char(s.drop_first(), c, i - 1);
    }
}

/// `s` without `c` at either end.
fn trim_char_vec(s: &[char], c: char) -> (r: Vec<char>)
    ensures
        r@ == trim_char(s@, c),
{
    let mut a: usize = 0;
    while a < s.len() && s[a] == c
        invariant
            a <= s.len(),
            forall|j: int| 0 <= j < a ==> s@[j] == c,
        decreases s.len() - a,
    {
        a += 1;
    }
    proof {
        lemma_lead_char(s@, c, a as int);
    }
    let t = slice_vec(s, a, s.len());
    trim_end_char_vec(t.as_slice(), c)
}

/// `s` without `c` at either end, as a string.
pub fn trim_char_text(s: &str, c: char) -> (r: String)
    ensures
        r@ == trim_char(s@, c),
{
    let v = crate::text::chars_of(s);
    let t = trim_char_vec(v.as_slice(), c);
    crate::text::string_from_chars(t.as_slice())
}

/// `s` with every `c` removed.
fn without_char_vec(s: &[char], c: char) -> (r: Vec<char>)
    ensures
        r@ == without_char(s@, c),
{
    let mut r: Vec<char> = Vec::new();
    let mut i: usize = 0;
    assert(s@.subrange(0, 0) =~= Seq::<char>::empty());
    while i < s.len()
        invariant
            i <= s.len(),
            r@ == without_char(s@.subrange(0, i as int), c),
        decreases s.len() - i,
    {
        proof {
            assert(s@.subrange(0, i + 1).drop_last() =~= s@.subrange(0, i as int));
        }
        if s[i] != c {
            r.push(s[i]);
        }
        i += 1;
    }
    assert(s@.subrange(0, s@.len() as int) =~= s@);
    r
}

/// Whether some token of `text` spells `keyword` with `separator` inserted between its
/// characters; separators only around a whole token (quoting) do not count.
pub fn has_split_token(text: &str, keyword: &str, separator: char) -> (r: bool)
    ensures
        r == spec_has_split_token(text@, keyword@, separator),
{
    let chars = crate::text::chars_of(text);
    let kw = crate::text::chars_of(keyword);
    let toks = split_tokens_vec(chars.as_slice(), separator);
    let ghost ts = split_tokens(text@, separator);
    let mut k: usize = 0;
    while k < toks.len()
        invariant
            k <= toks.len(),
            names_of(toks@) == ts,
            ts == split_tokens(text@, separator),
            kw@ == keyword@,
            forall|j: int| 0 <= j < k ==> !#[trigger] split_token_hit(ts[j], keyword@, separator),
        decreases toks.len() - k,
    {
        let interior = trim_char_vec(toks[k].as_slice(), separator);
        assert(toks@[k as int]@ == ts[k as int]);
        if has_char(interior.as_slice(), separator) {
            let joined = without_char_vec(interior.as_slice(), separator);
            if crate::text::eq_chars(joined.as_slice(), kw.as_slice()) {
                assert(split_token_hit(ts[k as int], keyword@, separator));
                return true;
            }
        }
        k += 1;
    }
    false
}

/// Characters that continue a word on either side of a command match.
pub open spec fn word_char(c: char) -> bool {
    spec_is_alphanumeric(c) || c == '_'
}

/// The occurrence of `kw` at `p` has no word character right before or right after it.
pub open spec fn bounded_at(text: Seq<char>, kw: Seq<char>, p: int) -> bool {
    &&& (p == 0 || !word_char(text[p - 1]))
    &&& (p + kw.len() == text.len() || !word_char(text[p + kw.len()]))
}

/// Scanning the non-overlapping occurrences of `kw` from index `i` on, as
/// `str::match_indices` yields them, some occurrence is a whole word.
pub open spec fn whole_word_from(text: Seq<char>, kw: Seq<char>, i: int) -> bool
    decreases text.len() + 1 - i,
{
    if i < 0 || kw.len() == 0 || i + kw.len() > text.len() {
        false
    } else if occurs_at(text, kw, i) {
        bounded_at(text, kw, i) || whole_word_from(text, kw, i + kw.len())
    } else {
        whole_word_from(text, kw, i + 1)
    }
}

/// Whether `keyword` occurs in `text` as a whole word: no letter, digit or underscore
/// touches the match on either side.
pub fn contains_command_token(text: &[char], keyword: &[char]) -> (r: bool)
    requires
        keyword@.len() > 0,
    ensures
        r == whole_word_from(text@, keyword@, 0),
{
    let kw = keyword;
    let mut i: usize = 0;
    while i <= text.len() && kw.len() <= text.len() - i
        invariant
            kw@ == keyword@,
            kw@.len() > 0,
            i <= text.len() + 1,
            whole_word_from(text@, kw@, 0) == whole_word_from(text@, kw@, i as int),
        decreases text.len() + 1 - i,
    {
        if occurs_at_exec(text, kw, i) {
            let before_ok = i == 0 || !(is_alphanumeric(text[i - 1]) || text[i - 1] == '_');
            let end = i + kw.len();
            let after_ok = end == text.len() || !(is_alphanumeric(text[end]) || text[end] == '_');
            if before_ok && after_ok {
                return true;
            }
            i = end;
        } else {
            i += 1;
        }
    }
    false
}

/// Number of UTF-8 bytes taken by the first `k` characters of `s`.
pub open spec fn prefix_bytes(s: Seq<char>, k: int) -> nat {
    utf8_len(s.subrange(0, k))
}

/// The last character index whose byte offset does not pass `b`, counting up from `k`.
pub open spec fn floor_char(s: Seq<char>, b: int, k: nat) -> nat
    decreases s.len() - k,
{
    if k < s.len() && prefix_bytes(s, (k + 1) as int) <= b {
        floor_char(s, b, k + 1)
    } else {
        k
    }
}

/// The first character index, from `k` on, whose byte offset reaches `b`.
pub open spec fn ceil_char(s: Seq<char>, b: int, k: nat) -> nat
    decreases s.len() - k,
{
    if k < s.len() && prefix_bytes(s, k as int) < b {
        ceil_char(s, b, k + 1)
    } else {
        k
    }
}

/// `s` on one line: each line feed becomes a space and each carriage return is dropped.
pub open spec fn one_line(s: Seq<char>) -> Seq<char>
    decreases s.len(),
{
    if s.len() == 0 {
        s
    } else if s.last() == '\n' {
        one_line(s.drop_last()).push(' ')
    } else if s.last() == '\r' {
        one_line(s.drop_last())
    } else {
        one_line(s.drop_last()).push(s.last())
    }
}

/// The text from 20 bytes before `byte_idx` to 30 bytes after the pattern that starts
/// there, widened to whole characters and put on one line.
pub open spec fn snippet_around(s: Seq<char>, byte_idx: int, pattern_len: int) -> Seq<char> {
    let start_b = if byte_idx >= 20 { byte_idx - 20 } else { 0 };
    let end_b = if byte_idx + pattern_len + 30 <= utf8_len(s) {
        byte_idx + pattern_len + 30
    } else {
        utf8_len(s) as int
    };
    one_line(s.subrange(floor_char(s, start_b, 0) as int, ceil_char(s, end_b, 0) as int))
}

proof fn lemma_prefix_step(s: Seq<char>, k: int)
    requires
        0 <= k < s.len(),
    ensures
        prefix_bytes(s, (k + 1) as int) == prefix_bytes(s, k) + utf8_width(s[k]),
{
    assert(s.subrange(0, k + 1).drop_last() =~= s.subrange(0, k));
}

proof fn lemma_prefix_mono(s: Seq<char>, j: int, k: int)
    requires
        0 <= j <= k <= s.len(),
    ensures
        prefix_bytes(s, j) + (k - j) <= prefix_bytes(s, k),
    decreases k - j,
{
    if j < k {
        lemma_prefix_step(s, k - 1);
        lemma_prefix_mono(s, j, k - 1);
    }
}

proof fn lemma_floor_ceil(s: Seq<char>, b: int, e: int, k: nat)
    requires
        k <= s.len(),
        prefix_bytes(s, k as int) <= b,
        b <= e,
    ensures
        floor_char(s, b, k) <= ceil_char(s, e, k),
        floor_char(s, b, k) <= s.len(),
        ceil_char(s, e, k) <= s.len(),
    decreases s.len() - k,
{
    if k < s.len() {
        lemma_prefix_step(s, k as int);
        if prefix_bytes(s, (k + 1) as int) <= b {
            lemma_floor_ceil(s, b, e, k + 1);
        } else {
            lemma_ceil_bound(s, e, k);
        }
    }
}

proof fn lemma_ceil_bound(s: Seq<char>, e: int, k: nat)
    requires
        k <= s.len(),
    ensures
        k <= ceil_char(s, e, k) <= s.len(),
    decreases s.len() - k,
{
    if k < s.len() && prefix_bytes(s, k as int) < e {
        lemma_ceil_bound(s, e, k + 1);
    }
}

proof fn lemma_floor_bound(s: Seq<char>, b: int, k: nat)
    requires
        k <= s.len(),
    ensures
        k <= floor_char(s, b, k) <= s.len(),
    decreases s.len() - k,
{
    if k < s.len() && prefix_bytes(s, (k + 1) as int) <= b {
        lemma_floor_bound(s, b, k + 1);
    }
}

proof fn lemma_ceil_total(s: Seq<char>, k: nat)
    requires
        k <= s.len(),
    ensures
        ceil_char(s, utf8_len(s) as int, k) == s.len(),
    decreases s.len() - k,
{
    assert(s.subrange(0, s.len() as int) =~= s);
    if k < s.len() {
        lemma_prefix_mono(s, (k + 1) as int, s.len() as int);
        lemma_prefix_step(s, k as int);
        lemma_ceil_total(s, k + 1);
    }
}

/// `s` on one line.
fn one_line_vec(s: &[char]) -> (r: Vec<char>)
    ensures
        r@ == one_line(s@),
{
    let mut r: Vec<char> = Vec::new();
    let mut i: usize = 0;
    assert(s@.subrange(0, 0) =~= Seq::<char>::empty());
    while i < s.len()
        invariant
            i <= s.len(),
            r@ == one_line(s@.subrange(0, i as int)),
        decreases s.len() - i,
    {
        proof {
            assert(s@.subrange(0, i + 1).drop_last() =~= s@.subrange(0, i as int));
        }
        if s[i] == '\n' {
            r.push(' ');
        } else if s[i] != '\r' {
            r.push(s[i]);
        }
        i += 1;
    }
    assert(s@.subrange(0, s@.len() as int) =~= s@);
    r
}

/// The snippet around a match at byte offset `byte_idx` of length `pattern_len`: about
/// 20 bytes before and 30 bytes after, never cutting a character, on one line.
pub fn safe_char_boundary_slice(s: &[char], byte_idx: usize, pattern_len: usize) -> (r: Vec<char>)
    requires
        byte_idx + pattern_len + 30 <= usize::MAX,
    ensures
        r@ == snippet_around(s@, byte_idx as int, pattern_len as int),
{
    let start_b: u128 = if byte_idx >= 20 {
        (byte_idx - 20) as u128
    } else {
        0
    };
    let total = crate::security::heuristics::utf8_len_of(s);
    let want_end: u128 = (byte_idx + pattern_len + 30) as u128;
    let end_b: u128 = if want_end <= total {
        want_end
    } else {
        total
    };
    // Walk the characters once, tracking the byte offset of the current index.
    let mut k: usize = 0;
    let mut off: u128 = 0;
    assert(s@.subrange(0, 0) =~= Seq::<char>::empty());
    while k < s.len() && off + crate::security::heuristics::char_width(s[k]) <= start_b
        invariant
            k <= s.len(),
            off == prefix_bytes(s@, k as int),
            off <= 4 * k,
            floor_char(s@, start_b as int, 0) == floor_char(s@, start_b as int, k as nat),
        decreases s.len() - k,
    {
        proof {
            lemma_prefix_step(s@, k as int);
        }
        off = off + crate::security::heuristics::char_width(s[k]);
        k += 1;
    }
    proof {
        if k < s.len() {
            lemma_prefix_step(s@, k as int);
        }
    }
    let from = k;
    let mut m: usize = 0;
    let mut off2: u128 = 0;
    while m < s.len() && off2 < end_b
        invariant
            m <= s.len(),
            off2 == prefix_bytes(s@, m as int),
            off2 <= 4 * m,
            ceil_char(s@, end_b as int, 0) == ceil_char(s@, end_b as int, m as nat),
        decreases s.len() - m,
    {
        proof {
            lemma_prefix_step(s@, m as int);
        }
        off2 = off2 + crate::security::heuristics::char_width(s[m]);
        m += 1;
    }
    proof {
        assert(prefix_bytes(s@, 0) == 0) by {
            assert(s@.subrange(0, 0) =~= Seq::<char>::empty());
        }
        if start_b <= end_b {
            lemma_floor_ceil(s@, start_b as int, end_b as int, 0);
        } else {
            lemma_ceil_total(s@, 0);
            lemma_floor_bound(s@, start_b as int, 0);
        }
    }
    let piece = slice_vec(s, from, m);
    one_line_vec(piece.as_slice())
}

} // verus!
