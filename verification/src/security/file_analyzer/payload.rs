//! Binary-level checks of the file analyzer: the PE header walk, base64 runs and
//! the content digests.
use vstd::prelude::*;
use base64::Engine;
use md5::Digest;

verus! {

/// Little-endian 16-bit value at `o`.
pub open spec fn le16(b: Seq<u8>, o: int) -> int {
    b[o] as int + 256 * b[o + 1] as int
}

/// Little-endian 32-bit value at `o`.
pub open spec fn le32(b: Seq<u8>, o: int) -> int {
    b[o] as int + 256 * b[o + 1] as int + 65536 * b[o + 2] as int + 16777216 * b[o + 3] as int
}

/// The section header at `base` describes raw data that lies after the header table
/// (which ends at `end`) and inside the file; an empty section is always fine.
pub open spec fn section_ok(b: Seq<u8>, base: int, end: int) -> bool {
    le32(b, base + 16) > 0 ==> (le32(b, base + 20) >= end && le32(b, base + 20) + le32(
        b,
        base + 16,
    ) <= b.len())
}

/// Offset of the PE signature, read from offset 0x3c.
pub open spec fn pe_offset(b: Seq<u8>) -> int {
    le32(b, 0x3c)
}

/// Offset of the section table: after the file header and the optional header.
pub open spec fn pe_table(b: Seq<u8>) -> int {
    pe_offset(b) + 24 + le16(b, pe_offset(b) + 20)
}

/// End of the section table.
pub open spec fn pe_end(b: Seq<u8>) -> int {
    pe_table(b) + 40 * le16(b, pe_offset(b) + 6)
}

/// The `k`-th section header is consistent.
pub open spec fn nth_section_ok(b: Seq<u8>, k: int) -> bool {
    section_ok(b, pe_table(b) + 40 * k, pe_end(b))
}

/// Minimum optional-header size for a magic value, or 0 for an unknown magic.
pub open spec fn optional_minimum(magic: int) -> int {
    if magic == 0x10b {
        96
    } else if magic == 0x20b {
        112
    } else {
        0
    }
}

/// `b` starts with a structurally consistent PE image: `MZ`, a PE signature at an
/// offset of at least 64 with room for the file header, a PE32 or PE32+ optional
/// header of at least its minimum size, 1 to 96 section headers inside the data, and
/// every non-empty section's raw data after the headers and inside the data.
pub open spec fn pe_structure(b: Seq<u8>) -> bool {
    let pe = pe_offset(b);
    let sections = le16(b, pe + 6);
    let optional_size = le16(b, pe + 20);
    let magic = le16(b, pe + 24);
    &&& b.len() >= 0x40
    &&& b[0] == 0x4d && b[1] == 0x5a
    &&& 64 <= pe && pe + 24 <= b.len()
    &&& b[pe] == 0x50 && b[pe + 1] == 0x45 && b[pe + 2] == 0 && b[pe + 3] == 0
    &&& pe + 26 <= b.len()
    &&& optional_minimum(magic) > 0
    &&& 1 <= sections <= 96
    &&& optional_size >= optional_minimum(magic)
    &&& pe_end(b) <= b.len()
    &&& forall|k: int| 0 <= k < sections ==> #[trigger] nth_section_ok(b, k)
}

fn read16(b: &[u8], o: u64) -> (r: u64)
    requires
        o + 2 <= b.len(),
    ensures
        r == le16(b@, o as int),
{
    let i = o as usize;
    (b[i] as u64) + 256 * (b[i + 1] as u64)
}

fn read32(b: &[u8], o: u64) -> (r: u64)
    requires
        o + 4 <= b.len(),
    ensures
        r == le32(b@, o as int),
{
    let i = o as usize;
    (b[i] as u64) + 256 * (b[i + 1] as u64) + 65536 * (b[i + 2] as u64) + 16777216 * (b[i
        + 3] as u64)
}

/// Whether `bytes` hold a structurally valid PE image header: the section table and
/// every section's raw data must lie inside the data.
pub fn has_pe_structure(bytes: &[u8]) -> (r: bool)
    ensures
        r == pe_structure(bytes@),
{
    let len = bytes.len() as u64;
    if len < 2 || bytes[0] != 0x4d || bytes[1] != 0x5a {
        return false;
    }
    if len < 0x40 {
        return false;
    }
    let pe = read32(bytes, 0x3c);
    if pe < 64 || len < 24 || pe > len - 24 {
        return false;
    }
    let p = pe as usize;
    if bytes[p] != 0x50 || bytes[p + 1] != 0x45 || bytes[p + 2] != 0 || bytes[p + 3] != 0 {
        return false;
    }
    let sections = read16(bytes, pe + 6);
    let optional_size = read16(bytes, pe + 20);
    let optional = pe + 24;
    if optional + 2 > len {
        return false;
    }
    let magic = read16(bytes, optional);
    let minimum: u64 = if magic == 0x10b {
        96
    } else if magic == 0x20b {
        112
    } else {
        return false;
    };
    if sections == 0 || sections > 96 || optional_size < minimum {
        return false;
    }
    let table = optional + optional_size;
    let end = table + sections * 40;
    if end > len {
        return false;
    }
    let mut k: u64 = 0;
    while k < sections
        invariant
            k <= sections <= 96,
            len == bytes@.len(),
            table == pe_table(bytes@),
            end == pe_end(bytes@),
            sections == le16(bytes@, pe_offset(bytes@) + 6),
            end <= len,
            forall|j: int| 0 <= j < k ==> #[trigger] nth_section_ok(bytes@, j),
        decreases sections - k,
    {
        let base = table + k * 40;
        let size = read32(bytes, base + 16);
        let offset = read32(bytes, base + 20);
        if size > 0 && (offset < end || offset + size > len) {
            assert(!nth_section_ok(bytes@, k as int));
            return false;
        }
        k += 1;
    }
    true
}

/// Characters of the standard base64 alphabet, padding included.
pub open spec fn b64_char(c: char) -> bool {
    ('a' <= c && c <= 'z') || ('A' <= c && c <= 'Z') || ('0' <= c && c <= '9') || c == '+' || c
        == '/' || c == '='
}

/// Whether `c` belongs to the standard base64 alphabet or is padding.
pub fn is_b64_char(c: char) -> (r: bool)
    ensures
        r == b64_char(c),
{
    ('a' <= c && c <= 'z') || ('A' <= c && c <= 'Z') || ('0' <= c && c <= '9') || c == '+' || c
        == '/' || c == '='
}

/// The bytes of an ASCII text.
pub open spec fn ascii_bytes(s: Seq<char>) -> Seq<u8> {
    Seq::new(s.len(), |i: int| s[i] as u8)
}

/// Name for what the standard-alphabet, padded base64 decoder of the `base64` crate
/// yields for an input: the decoded bytes, or nothing when the input is not valid.
pub uninterp spec fn spec_base64_decode(input: Seq<u8>) -> Option<Seq<u8>>;

/// Decodes standard base64.
/// Calls `base64::engine::general_purpose::STANDARD.decode`; the contract names the
/// result and ties it to the input bytes, a decode error giving `None`.
#[verifier::external_body]
fn base64_decode_bytes(input: &[u8]) -> (r: Option<Vec<u8>>)
    ensures
        match r {
            Some(v) => spec_base64_decode(input@) == Some(v@),
            None => spec_base64_decode(input@) is None,
        },
{
    base64::engine::general_purpose::STANDARD.decode(input).ok()
}

/// Decodes a run of base64 characters.
pub fn base64_decode(text: &[char]) -> (r: Option<Vec<u8>>)
    requires
        forall|i: int| 0 <= i < text@.len() ==> b64_char(#[trigger] text@[i]),
    ensures
        match r {
            Some(v) => spec_base64_decode(ascii_bytes(text@)) == Some(v@),
            None => spec_base64_decode(ascii_bytes(text@)) is None,
        },
{
    let mut bytes: Vec<u8> = Vec::new();
    let mut i: usize = 0;
    while i < text.len()
        invariant
            i <= text.len(),
            bytes@.len() == i,
            forall|j: int| 0 <= j < text@.len() ==> b64_char(#[trigger] text@[j]),
            forall|j: int| 0 <= j < i ==> bytes@[j] == text@[j] as u8,
        decreases text.len() - i,
    {
        let c = text[i];
        assert(b64_char(text@[i as int]));
        let b: u8 = c as u8;
        bytes.push(b);
        i += 1;
    }
    assert(bytes@ =~= ascii_bytes(text@));
    base64_decode_bytes(bytes.as_slice())
}

/// Name for the MD5 digest of some bytes.
pub uninterp spec fn spec_md5(data: Seq<u8>) -> Seq<u8>;

/// Name for the SHA-1 digest of some bytes.
pub uninterp spec fn spec_sha1(data: Seq<u8>) -> Seq<u8>;

/// Name for the SHA-256 digest of some bytes.
pub uninterp spec fn spec_sha256(data: Seq<u8>) -> Seq<u8>;

/// The MD5 digest.
/// Calls `md5::Md5::digest`; the contract names the result, which is 16 bytes long as
/// the hasher's output size says.
#[verifier::external_body]
fn md5_digest(data: &[u8]) -> (r: Vec<u8>)
    ensures
        r@ == spec_md5(data@),
        r@.len() == 16,
{
    md5::Md5::digest(data).to_vec()
}

/// The SHA-1 digest.
/// Calls `sha1::Sha1::digest`; the contract names the result, which is 20 bytes long
/// as the hasher's output size says.
#[verifier::external_body]
fn sha1_digest(data: &[u8]) -> (r: Vec<u8>)
    ensures
        r@ == spec_sha1(data@),
        r@.len() == 20,
{
    sha1::Sha1::digest(data).to_vec()
}

/// The SHA-256 digest.
/// Calls `sha2::Sha256::digest`; the contract names the result, which is 32 bytes
/// long as the hasher's output size says.
#[verifier::external_body]
pub(crate) fn sha256_digest(data: &[u8]) -> (r: Vec<u8>)
    ensures
        r@ == spec_sha256(data@),
        r@.len() == 32,
{
    sha2::Sha256::digest(data).to_vec()
}

/// Lower-case hexadecimal digit of a value below 16.
pub open spec fn hex_digit(v: int) -> char {
    if v < 10 {
        (v + 48) as char
    } else {
        (v + 87) as char
    }
}

/// Lower-case hexadecimal text of some bytes, two digits per byte.
pub open spec fn hex_text(b: Seq<u8>) -> Seq<char>
    decreases b.len(),
{
    if b.len() == 0 {
        Seq::empty()
    } else {
        hex_text(b.drop_last()) + seq![hex_digit(b.last() as int / 16), hex_digit(b.last() as int % 16)]
    }
}

fn hex_digit_exec(v: u8) -> (r: char)
    requires
        v < 16,
    ensures
        r == hex_digit(v as int),
{
    if v < 10 {
        (v + 48) as char
    } else {
        (v + 87) as char
    }
}

/// Lower-case hexadecimal text of `b`, as `{:x}` prints a digest.
pub fn hex_lower(b: &[u8]) -> (r: String)
    ensures
        r@ == hex_text(b@),
{
    let mut out: Vec<char> = Vec::new();
    let mut i: usize = 0;
    assert(b@.subrange(0, 0) =~= Seq::<u8>::empty());
    while i < b.len()
        invariant
            i <= b.len(),
            out@ == hex_text(b@.subrange(0, i as int)),
        decreases b.len() - i,
    {
        proof {
            assert(b@.subrange(0, i + 1).drop_last() =~= b@.subrange(0, i as int));
        }
        out.push(hex_digit_exec(b[i] / 16));
        out.push(hex_digit_exec(b[i] % 16));
        i += 1;
        assert(out@ =~= hex_text(b@.subrange(0, i as int)));
    }
    assert(b@.subrange(0, b@.len() as int) =~= b@);
    crate::text::string_from_chars(out.as_slice())
}

/// The MD5, SHA-1 and SHA-256 digests of `data`, each as lower-case hexadecimal.
pub fn file_digests(data: &[u8]) -> (r: (String, String, String))
    ensures
        r.0@ == hex_text(spec_md5(data@)),
        r.1@ == hex_text(spec_sha1(data@)),
        r.2@ == hex_text(spec_sha256(data@)),
{
    let m = md5_digest(data);
    let s1 = sha1_digest(data);
    let s2 = sha256_digest(data);
    (hex_lower(m.as_slice()), hex_lower(s1.as_slice()), hex_lower(s2.as_slice()))
}

} // verus!
