//! Shape tests on queried names: algorithmically generated domains and darknet
//! pseudo-TLDs.
use vstd::prelude::*;
use crate::text::{
    chars_of, ends_with, ends_with_str, eq_str, lower_char, names_of, spec_unicode_lowercase,
    split_on, split_vec, string_from_chars, to_lower_char, trim, trim_end_char, trim_end_char_vec,
    trim_vec, unicode_lowercase,
};

verus! {

/// UTF-8 width of a character in bytes.
pub open spec fn utf8_width(c: char) -> nat {
    let u = c as u32;
    if u < 0x80 {
        1
    } else if u < 0x800 {
        2
    } else if u < 0x10000 {
        3
    } else {
        4
    }
}

/// The length of `s` in UTF-8 bytes, as `str::len` counts it.
pub open spec fn utf8_len(s: Seq<char>) -> nat
    decreases s.len(),
{
    if s.len() == 0 {
        0
    } else {
        utf8_len(s.drop_last()) + utf8_width(s.last())
    }
}

/// UTF-8 width of a character in bytes.
pub fn char_width(c: char) -> (r: u128)
    ensures
        r == utf8_width(c),
        1 <= r <= 4,
{
    let u = c as u32;
    if u < 0x80 {
        1
    } else if u < 0x800 {
        2
    } else if u < 0x10000 {
        3
    } else {
        4
    }
}

/// The UTF-8 length of `s`.
pub fn utf8_len_of(s: &[char]) -> (r: u128)
    ensures
        r == utf8_len(s@),
        r <= 4 * s@.len(),
{
    let mut n: u128 = 0;
    let mut i: usize = 0;
    while i < s.len()
        invariant
            i <= s@.len(),
            n == utf8_len(s@.subrange(0, i as int)),
            n <= 4 * i,
        decreases s@.len() - i,
    {
        proof {
            assert(s@.subrange(0, i + 1).drop_last() =~= s@.subrange(0, i as int));
        }
        let u = s[i] as u32;
        let w: u128 = if u < 0x80 {
            1
        } else if u < 0x800 {
            2
        } else if u < 0x10000 {
            3
        } else {
            4
        };
        n = n + w;
        i += 1;
    }
    assert(s@.subrange(0, s@.len() as int) =~= s@);
    n
}

/// A lower-case ASCII vowel.
pub open spec fn is_vowel(c: char) -> bool {
    c == 'a' || c == 'e' || c == 'i' || c == 'o' || c == 'u'
}

/// An ASCII letter.
pub open spec fn is_ascii_alpha(c: char) -> bool {
    ('a' <= c && c <= 'z') || ('A' <= c && c <= 'Z')
}

/// Vowels, consonants, digits, the current consonant run and the longest one over `s`
/// (letters compared in ASCII lower case; anything else breaks a run).
pub open spec fn dga_scan(s: Seq<char>) -> (nat, nat, nat, nat, nat)
    decreases s.len(),
{
    if s.len() == 0 {
        (0, 0, 0, 0, 0)
    } else {
        let (v, c, d, run, mx) = dga_scan(s.drop_last());
        let ch = lower_char(s.last());
        if is_vowel(ch) {
            (v + 1, c, d, 0, mx)
        } else if is_ascii_alpha(ch) {
            let r = run + 1;
            (v, c + 1, d, r, if r > mx { r } else { mx })
        } else if '0' <= ch && ch <= '9' {
            (v, c, d + 1, 0, mx)
        } else {
            (v, c, d, 0, mx)
        }
    }
}

/// What the shape of a name says about it being algorithmically generated.
#[derive(Clone, Copy, Debug, PartialEq, Eq, Structural)]
pub enum DgaShape {
    /// Not generated.
    Ordinary,
    /// Generated.
    Generated,
    /// Generated exactly when its second-level label has an entropy of at least 3.55.
    EntropyDecides,
}

/// The labels of a name with surrounding whitespace and trailing dots removed.
pub open spec fn clean_labels(domain: Seq<char>) -> Seq<Seq<char>> {
    split_on(trim_end_char(trim(domain), '.'), '.')
}

/// The second-level label: the next-to-last label, when there are two or more.
pub open spec fn second_level(domain: Seq<char>) -> Option<Seq<char>> {
    let parts = clean_labels(domain);
    if parts.len() < 2 {
        None
    } else {
        Some(parts[parts.len() - 2])
    }
}

/// The shape test: a second-level label of 8 to 36 bytes is generated when it has a
/// run of six consonants or, from 12 bytes, no vowel; from 14 bytes with at least
/// three digits and seven consonants its entropy decides.
pub open spec fn dga_shape(domain: Seq<char>) -> DgaShape {
    match second_level(domain) {
        None => DgaShape::Ordinary,
        Some(sld) => {
            let n = utf8_len(sld);
            let (v, c, d, run, mx) = dga_scan(sld);
            if n < 8 || n > 36 {
                DgaShape::Ordinary
            } else if mx >= 6 {
                DgaShape::Generated
            } else if n >= 12 && v == 0 {
                DgaShape::Generated
            } else if n >= 14 && d >= 3 && c >= 7 {
                DgaShape::EntropyDecides
            } else {
                DgaShape::Ordinary
            }
        },
    }
}

/// The second-level label of `domain`, if it has two labels or more.
pub fn dga_second_level(domain: &str) -> (r: Option<String>)
    ensures
        match r {
            Some(s) => second_level(domain@) == Some(s@),
            None => second_level(domain@) is None,
        },
{
    let c = chars_of(domain);
    let t = trim_vec(c.as_slice());
    let t2 = trim_end_char_vec(t.as_slice(), '.');
    let parts = split_vec(t2.as_slice(), '.');
    if parts.len() < 2 {
        return None;
    }
    let i = parts.len() - 2;
    assert(parts@[i as int]@ == names_of(parts@)[i as int]);
    Some(string_from_chars(parts[i].as_slice()))
}

/// The shape verdict on `domain`.
pub fn dga_shape_of(domain: &str) -> (r: DgaShape)
    ensures
        r == dga_shape(domain@),
{
    let sld = match dga_second_level(domain) {
        Some(s) => chars_of(s.as_str()),
        None => {
            return DgaShape::Ordinary;
        },
    };
    let n = utf8_len_of(sld.as_slice());
    if n < 8 || n > 36 {
        return DgaShape::Ordinary;
    }
    let mut v: usize = 0;
    let mut c: usize = 0;
    let mut d: usize = 0;
    let mut run: usize = 0;
    let mut mx: usize = 0;
    let mut i: usize = 0;
    while i < sld.len()
        invariant
            i <= sld@.len(),
            dga_scan(sld@.subrange(0, i as int)) == (v as nat, c as nat, d as nat, run as nat, mx as nat),
            v <= i && c <= i && d <= i && run <= i && mx <= i,
        decreases sld@.len() - i,
    {
        proof {
            assert(sld@.subrange(0, i + 1).drop_last() =~= sld@.subrange(0, i as int));
        }
        let ch = to_lower_char(sld[i]);
        if ch == 'a' || ch == 'e' || ch == 'i' || ch == 'o' || ch == 'u' {
            v += 1;
            run = 0;
        } else if ('a' <= ch && ch <= 'z') || ('A' <= ch && ch <= 'Z') {
            c += 1;
            run += 1;
            if run > mx {
                mx = run;
            }
        } else if '0' <= ch && ch <= '9' {
            d += 1;
            run = 0;
        } else {
            run = 0;
        }
        i += 1;
    }
    assert(sld@.subrange(0, sld@.len() as int) =~= sld@);
    if mx >= 6 {
        DgaShape::Generated
    } else if n >= 12 && v == 0 {
        DgaShape::Generated
    } else if n >= 14 && d >= 3 && c >= 7 {
        DgaShape::EntropyDecides
    } else {
        DgaShape::Ordinary
    }
}

/// Whether `domain` looks algorithmically generated, given whether the entropy of its
/// second-level label reaches 3.55 bits (consulted only when the shape leaves it open).
pub fn is_dga_domain(domain: &str, sld_entropy_high: bool) -> (r: bool)
    ensures
        r == match dga_shape(domain@) {
            DgaShape::Generated => true,
            DgaShape::EntropyDecides => sld_entropy_high,
            DgaShape::Ordinary => false,
        },
{
    match dga_shape_of(domain) {
        DgaShape::Generated => true,
        DgaShape::EntropyDecides => sld_entropy_high,
        DgaShape::Ordinary => false,
    }
}

/// A darknet pseudo-TLD: the trimmed, lower-cased name without trailing dots is
/// `onion`, `bit` or `bazar`, or ends in one of them after a dot.
pub open spec fn spec_is_darknet(domain: Seq<char>) -> bool {
    let l = spec_unicode_lowercase(trim_end_char(trim(domain), '.'));
    ||| ends_with(l, ".onion"@)
    ||| l == "onion"@
    ||| ends_with(l, ".bit"@)
    ||| l == "bit"@
    ||| ends_with(l, ".bazar"@)
    ||| l == "bazar"@
}

/// Whether `domain` falls under `.onion`, `.bit` or `.bazar`, names that no public
/// resolver answers.
pub fn is_darknet_pseudo_tld(domain: &str) -> (r: bool)
    ensures
        r == spec_is_darknet(domain@),
{
    let c = chars_of(domain);
    let t = trim_vec(c.as_slice());
    let t2 = trim_end_char_vec(t.as_slice(), '.');
    let s = string_from_chars(t2.as_slice());
    let low = unicode_lowercase(s.as_str());
    let l = chars_of(low.as_str());
    ends_with_str(l.as_slice(), ".onion") || eq_str(l.as_slice(), "onion") || ends_with_str(
        l.as_slice(),
        ".bit",
    ) || eq_str(l.as_slice(), "bit") || ends_with_str(l.as_slice(), ".bazar") || eq_str(
        l.as_slice(),
        "bazar",
    )
}

/// Darknet pseudo-TLDs are always answered with NXDOMAIN.
pub fn must_nxdomain_darknet(domain: &str) -> (r: bool)
    ensures
        r == spec_is_darknet(domain@),
{
    is_darknet_pseudo_tld(domain)
}

/// An ASCII vowel in either case.
pub open spec fn ascii_vowel_any_case(c: char) -> bool {
    c == 'a' || c == 'e' || c == 'i' || c == 'o' || c == 'u' || c == 'A' || c == 'E' || c == 'I' || c == 'O' || c
        == 'U'
}

/// A label with no ASCII vowel counts no vowel.
proof fn lemma_no_vowel_scan(s: Seq<char>)
    requires
        forall|i: int| 0 <= i < s.len() ==> !ascii_vowel_any_case(#[trigger] s[i]),
    ensures
        dga_scan(s).0 == 0,
    decreases s.len(),
{
    if s.len() > 0 {
        lemma_no_vowel_scan(s.drop_last());
        let c = s.last();
        assert(!ascii_vowel_any_case(c));
        assert(!is_vowel(lower_char(c)));
    }
}

/// A name whose second-level label is 12 to 36 bytes long and holds no ASCII vowel is
/// taken for generated, whatever the entropy of that label: `is_dga_domain` gives
/// `true` for it with either entropy flag.
pub proof fn lemma_vowelless_label_is_generated(domain: Seq<char>, sld: Seq<char>)
    requires
        second_level(domain) == Some(sld),
        12 <= utf8_len(sld) <= 36,
        forall|i: int| 0 <= i < sld.len() ==> !ascii_vowel_any_case(#[trigger] sld[i]),
    ensures
        dga_shape(domain) == DgaShape::Generated,
{
    lemma_no_vowel_scan(sld);
}

} // verus!
