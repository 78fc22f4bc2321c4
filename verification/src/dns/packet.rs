//! Wire-format handling of DNS messages: question parsing, answer synthesis and
//! TTL extraction.
use vstd::prelude::*;
use vstd::utf8::*;
use crate::dns::DnsBlocker;
use crate::text::{chars_of, string_from_chars};

verus! {

/// Walk of the question name that starts at offset `pos` after `steps` labels were
/// read: `None` when the name is malformed, else the raw labels and the offset just
/// past the name (a compression pointer ends the name two bytes on).
pub open spec fn qname_walk(pkt: Seq<u8>, pos: int, steps: nat, labels: Seq<Seq<u8>>) -> Option<
    (Seq<Seq<u8>>, int),
>
    decreases pkt.len() - pos,
{
    if pos < 0 || pos >= pkt.len() {
        Some((labels, pos))
    } else if steps >= 128 {
        None
    } else {
        let l = pkt[pos] as int;
        if l == 0 {
            Some((labels, pos + 1))
        } else if l >= 0xC0 {
            Some((labels, pos + 2))
        } else if pos + 1 + l > pkt.len() {
            None
        } else {
            qname_walk(pkt, pos + 1 + l, steps + 1, labels.push(pkt.subrange(pos + 1, pos + 1 + l)))
        }
    }
}

/// The names joined by dots.
pub open spec fn join_dot(ls: Seq<Seq<char>>) -> Seq<char>
    decreases ls.len(),
{
    if ls.len() == 0 {
        Seq::empty()
    } else if ls.len() == 1 {
        ls[0]
    } else {
        join_dot(ls.drop_last()) + seq!['.'] + ls.last()
    }
}

/// Every label is valid UTF-8.
pub open spec fn labels_utf8(ls: Seq<Seq<u8>>) -> bool {
    forall|i: int| 0 <= i < ls.len() ==> valid_utf8(#[trigger] ls[i])
}

/// The labels decoded as UTF-8.
pub open spec fn decode_labels(ls: Seq<Seq<u8>>) -> Seq<Seq<char>> {
    Seq::new(ls.len(), |i: int| decode_utf8(ls[i]))
}

/// Big-endian 16-bit value of two bytes.
pub open spec fn be16(hi: u8, lo: u8) -> u16 {
    (hi as int * 256 + lo as int) as u16
}

/// Big-endian 32-bit value of four bytes.
pub open spec fn be32(a: u8, b: u8, c: u8, d: u8) -> u32 {
    (a as int * 16777216 + b as int * 65536 + c as int * 256 + d as int) as u32
}

/// The first question of a DNS message: its dotted name and query type.
pub open spec fn spec_query_info(pkt: Seq<u8>) -> Option<(Seq<char>, u16)> {
    if pkt.len() < 12 {
        None
    } else {
        match qname_walk(pkt, 12, 0, Seq::empty()) {
            None => None,
            Some((labels, pos)) => {
                if labels.len() == 0 || pos + 2 > pkt.len() || !labels_utf8(labels) {
                    None
                } else {
                    Some((join_dot(decode_labels(labels)), be16(pkt[pos], pkt[pos + 1])))
                }
            },
        }
    }
}

/// Walk used when an answer is synthesised: the name ends at a zero label or a
/// compression pointer; a label that runs past the end is refused.
pub open spec fn question_walk(q: Seq<u8>, pos: int, steps: nat) -> Option<int>
    decreases q.len() - pos,
{
    if pos < 0 || pos >= q.len() {
        Some(pos)
    } else if steps >= 128 {
        None
    } else {
        let l = q[pos] as int;
        if l == 0 {
            Some(pos + 1)
        } else if l >= 0xC0 {
            Some(pos + 2)
        } else if pos + 1 + l > q.len() {
            None
        } else {
            question_walk(q, pos + 1 + l, steps + 1)
        }
    }
}

/// Offset just past the first question (name, type and class), when it lies inside
/// the message.
pub open spec fn question_end(q: Seq<u8>) -> Option<int> {
    match question_walk(q, 12, 0) {
        None => None,
        Some(p) => if p + 4 > q.len() {
            None
        } else {
            Some(p + 4)
        },
    }
}

/// The header of a synthesised answer: the query id, flags `81 80`, the query's
/// question count, one answer, no authority or additional records.
pub open spec fn answer_header(q: Seq<u8>) -> Seq<u8> {
    q.subrange(0, 2) + seq![0x81u8, 0x80u8] + q.subrange(4, 6) + seq![0u8, 1u8, 0u8, 0u8, 0u8, 0u8]
}

/// The A answer record (name pointer to the question, class IN, TTL 10) for `ip`.
pub open spec fn a_record(ip: Seq<u8>) -> Seq<u8> {
    seq![0xC0u8, 0x0Cu8, 0u8, 1u8, 0u8, 1u8, 0u8, 0u8, 0u8, 0x0Au8, 0u8, 4u8] + ip
}

/// The AAAA answer record (type 28, class IN, TTL 10) for `ip6`.
pub open spec fn aaaa_record(ip6: Seq<u8>) -> Seq<u8> {
    seq![0xC0u8, 0x0Cu8, 0u8, 0x1Cu8, 0u8, 1u8, 0u8, 0u8, 0u8, 0x0Au8, 0u8, 0x10u8] + ip6
}

/// The A answer that points the query's name at `ip`.
pub open spec fn spec_sinkhole_a(q: Seq<u8>, ip: Seq<u8>) -> Option<Seq<u8>> {
    if q.len() < 12 {
        None
    } else {
        match question_end(q) {
            None => None,
            Some(end) => Some(answer_header(q) + q.subrange(12, end) + a_record(ip)),
        }
    }
}

/// The AAAA answer that points the query's name at `ip6`.
pub open spec fn spec_sinkhole_aaaa(q: Seq<u8>, ip6: Seq<u8>) -> Option<Seq<u8>> {
    if q.len() < 12 {
        None
    } else {
        match question_end(q) {
            None => None,
            Some(end) => Some(answer_header(q) + q.subrange(12, end) + aaaa_record(ip6)),
        }
    }
}

/// The query turned into an error response with response code `rcode`: the response
/// bit set, the low four bits of byte 3 replaced, all record counts cleared.
pub open spec fn spec_error_response(q: Seq<u8>, rcode: u8) -> Option<Seq<u8>> {
    if q.len() < 12 {
        None
    } else {
        Some(
            q.subrange(0, 2) + seq![q[2] | 0x80u8, (q[3] & 0xF0u8) | rcode] + seq![
                0u8,
                0u8,
                0u8,
                0u8,
                0u8,
                0u8,
            ] + q.subrange(12, q.len() as int),
        )
    }
}

/// A response answers a query: same id, the response bit set, and the same first
/// question name and type.
pub open spec fn spec_response_matches(resp: Seq<u8>, query: Seq<u8>) -> bool {
    &&& resp.len() >= 12
    &&& query.len() >= 12
    &&& resp[0] == query[0]
    &&& resp[1] == query[1]
    &&& resp[2] >= 0x80
    &&& spec_query_info(query) is Some
    &&& spec_query_info(resp) == spec_query_info(query)
}

proof fn lemma_qname_walk_prefix(pkt: Seq<u8>, pos: int, steps: nat, labels: Seq<Seq<u8>>)
    ensures
        qname_walk(pkt, pos, steps, labels) matches Some((ls, _)) ==> ls.len() >= labels.len()
            && ls.subrange(0, labels.len() as int) == labels,
    decreases pkt.len() - pos,
{
    if pos < 0 || pos >= pkt.len() {
        assert(labels.subrange(0, labels.len() as int) =~= labels);
    } else if steps >= 128 {
    } else {
        let l = pkt[pos] as int;
        if l == 0 || l >= 0xC0 {
            assert(labels.subrange(0, labels.len() as int) =~= labels);
        } else if pos + 1 + l > pkt.len() {
        } else {
            let nl = labels.push(pkt.subrange(pos + 1, pos + 1 + l));
            lemma_qname_walk_prefix(pkt, pos + 1 + l, steps + 1, nl);
            if let Some((ls, _)) = qname_walk(pkt, pos + 1 + l, steps + 1, nl) {
                assert(ls.subrange(0, labels.len() as int) =~= nl.subrange(0, labels.len() as int));
            }
        }
    }
}

/// Reading two bytes as a big-endian u16.
pub fn read_be16(hi: u8, lo: u8) -> (r: u16)
    ensures
        r == be16(hi, lo),
{
    let r = ((hi as u16) << 8) | (lo as u16);
    assert(((hi as u16) << 8) | (lo as u16) == hi as u16 * 256 + lo as u16) by (bit_vector);
    r
}

/// Reading four bytes as a big-endian u32.
pub fn read_be32(a: u8, b: u8, c: u8, d: u8) -> (r: u32)
    ensures
        r == be32(a, b, c, d),
{
    let r = ((a as u32) << 24) | ((b as u32) << 16) | ((c as u32) << 8) | (d as u32);
    assert(((a as u32) << 24) | ((b as u32) << 16) | ((c as u32) << 8) | (d as u32) == a as u32
        * 16777216 + b as u32 * 65536 + c as u32 * 256 + d as u32) by (bit_vector);
    r
}

/// Decodes a byte string as UTF-8.
/// Calls `std::str::from_utf8`; the contract claims that it succeeds exactly on valid
/// UTF-8 and then yields the decoded characters.
#[verifier::external_body]
fn utf8_decode(b: &[u8]) -> (r: Option<String>)
    ensures
        r is Some <==> valid_utf8(b@),
        r matches Some(s) ==> s@ == decode_utf8(b@),
{
    std::str::from_utf8(b).ok().map(|s| s.to_string())
}

impl DnsBlocker {
    /// The first question's dotted name and query type; `None` for a message
    /// shorter than a header, a malformed or non-UTF-8 name, or a missing type.
    pub fn parse_query_info(pkt: &[u8]) -> (r: Option<(String, u16)>)
        ensures
            match r {
                Some((name, qtype)) => spec_query_info(pkt@) == Some((name@, qtype)),
                None => spec_query_info(pkt@) is None,
            },
    {
        if pkt.len() < 12 {
            return None;
        }
        let mut pos: usize = 12;
        let mut steps: usize = 0;
        let mut name: Vec<char> = Vec::new();
        let ghost mut labels: Seq<Seq<u8>> = Seq::empty();
        let ghost whole = qname_walk(pkt@, 12, 0, Seq::empty());
        let mut end: u128 = 12;
        loop
            invariant
                pkt@.len() >= 12,
                12 <= pos <= pkt@.len(),
                steps <= 128,
                steps == labels.len(),
                whole == qname_walk(pkt@, 12, 0, Seq::empty()),
                whole == qname_walk(pkt@, pos as int, steps as nat, labels),
                labels_utf8(labels),
                labels.len() > 0 ==> name@ == join_dot(decode_labels(labels)),
                labels.len() == 0 ==> name@.len() == 0,
            ensures
                whole == Some((labels, end as int)),
                end <= pkt@.len() + 2,
                steps == labels.len(),
                labels_utf8(labels),
                labels.len() > 0 ==> name@ == join_dot(decode_labels(labels)),
            decreases pkt@.len() - pos,
        {
            if pos >= pkt.len() {
                end = pos as u128;
                break;
            }
            if steps >= 128 {
                return None;
            }
            let l = pkt[pos] as usize;
            if l == 0 {
                end = pos as u128 + 1;
                break;
            }
            if l >= 0xC0 {
                end = pos as u128 + 2;
                break;
            }
            if l > pkt.len() - pos - 1 {
                return None;
            }
            let seg = &pkt[pos + 1..pos + 1 + l];
            proof {
                lemma_qname_walk_prefix(
                    pkt@,
                    pos + 1 + l,
                    (steps + 1) as nat,
                    labels.push(pkt@.subrange(pos + 1, pos + 1 + l)),
                );
            }
            let label = match utf8_decode(seg) {
                Some(s) => s,
                None => {
                    proof {
                        let nl = labels.push(pkt@.subrange(pos + 1, pos + 1 + l));
                        if let Some((ls, _)) = whole {
                            assert(ls.subrange(0, nl.len() as int)[steps as int] == nl[steps as int]);
                            assert(!valid_utf8(ls[steps as int]));
                        }
                    }
                    return None;
                },
            };
            let lc = chars_of(label.as_str());
            proof {
                let nl = labels.push(pkt@.subrange(pos + 1, pos + 1 + l));
                assert(decode_labels(nl).drop_last() =~= decode_labels(labels));
            }
            if steps > 0 {
                name.push('.');
            }
            let mut k: usize = 0;
            let ghost before = name@;
            while k < lc.len()
                invariant
                    k <= lc.len(),
                    name@ == before + lc@.subrange(0, k as int),
                decreases lc.len() - k,
            {
                name.push(lc[k]);
                k += 1;
                assert(name@ =~= before + lc@.subrange(0, k as int));
            }
            proof {
                assert(lc@.subrange(0, lc@.len() as int) =~= lc@);
                let nl = labels.push(pkt@.subrange(pos + 1, pos + 1 + l));
                assert(seg@ == pkt@.subrange(pos + 1, pos + 1 + l));
                assert(decode_labels(nl).last() == lc@);
                if steps == 0 {
                    assert(name@ =~= join_dot(decode_labels(nl)));
                } else {
                    assert(decode_labels(nl).len() >= 2);
                    assert(join_dot(decode_labels(nl)) == join_dot(decode_labels(nl).drop_last())
                        + seq!['.'] + decode_labels(nl).last());
                    assert(name@ =~= join_dot(decode_labels(nl)));
                }
                labels = nl;
            }
            pos = pos + 1 + l;
            steps = steps + 1;
        }
        if steps == 0 || end + 2 > pkt.len() as u128 {
            return None;
        }
        let e = end as usize;
        let qtype = read_be16(pkt[e], pkt[e + 1]);
        let s = string_from_chars(name.as_slice());
        Some((s, qtype))
    }

    /// The first question's dotted name; `None` exactly when `parse_query_info` gives none.
    pub fn parse_query_name(pkt: &[u8]) -> (r: Option<String>)
        ensures
            match r {
                Some(name) => spec_query_info(pkt@) matches Some((n, _)) && n == name@,
                None => spec_query_info(pkt@) is None,
            },
    {
        match Self::parse_query_info(pkt) {
            Some((name, _)) => Some(name),
            None => None,
        }
    }
}


/// Appends `src[from..to]` to `dst`.
fn extend_from(dst: &mut Vec<u8>, src: &[u8], from: usize, to: usize)
    requires
        from <= to <= src.len(),
    ensures
        final(dst)@ == old(dst)@ + src@.subrange(from as int, to as int),
{
    let ghost start = dst@;
    let mut i = from;
    while i < to
        invariant
            from <= i <= to <= src.len(),
            dst@ == start + src@.subrange(from as int, i as int),
        decreases to - i,
    {
        dst.push(src[i]);
        i += 1;
        assert(dst@ =~= start + src@.subrange(from as int, i as int));
    }
}

/// Offset just past the question name, as the answer builders walk it.
fn question_name_end(q: &[u8]) -> (r: Option<usize>)
    requires
        q.len() >= 12,
    ensures
        match r {
            Some(p) => question_walk(q@, 12, 0) == Some(p as int) && p + 4 <= q.len() && p >= 12,
            None => question_end(q@) is None,
        },
{
    let mut pos: usize = 12;
    let mut steps: usize = 0;
    let ghost whole = question_walk(q@, 12, 0);
    let mut end: u128 = 12;
    loop
        invariant
            12 <= pos <= q@.len(),
            steps <= 128,
            whole == question_walk(q@, 12, 0),
            whole == question_walk(q@, pos as int, steps as nat),
        ensures
            whole == Some(end as int),
            end <= q@.len() + 2,
            end >= 12,
        decreases q@.len() - pos,
    {
        if pos >= q.len() {
            end = pos as u128;
            break;
        }
        if steps >= 128 {
            return None;
        }
        let l = q[pos] as usize;
        if l == 0 {
            end = pos as u128 + 1;
            break;
        }
        if l >= 0xC0 {
            end = pos as u128 + 2;
            break;
        }
        if l > q.len() - pos - 1 {
            return None;
        }
        pos = pos + 1 + l;
        steps = steps + 1;
    }
    if end + 4 > q.len() as u128 {
        return None;
    }
    Some(end as usize)
}

/// Builds an answer: header, the query's question, and one record.
fn build_answer(q: &[u8], record: &[u8]) -> (r: Option<Vec<u8>>)
    requires
        q.len() >= 12,
    ensures
        match r {
            Some(v) => question_end(q@) matches Some(end) && v@ == answer_header(q@) + q@.subrange(
                12,
                end,
            ) + record@,
            None => question_end(q@) is None,
        },
{
    let p = match question_name_end(q) {
        Some(p) => p,
        None => return None,
    };
    let end = p + 4;
    let mut r: Vec<u8> = Vec::new();
    extend_from(&mut r, q, 0, 2);
    r.push(0x81);
    r.push(0x80);
    extend_from(&mut r, q, 4, 6);
    r.push(0x00);
    r.push(0x01);
    r.push(0x00);
    r.push(0x00);
    r.push(0x00);
    r.push(0x00);
    assert(r@ =~= answer_header(q@));
    extend_from(&mut r, q, 12, end);
    let ghost mid = r@;
    let mut i: usize = 0;
    while i < record.len()
        invariant
            i <= record.len(),
            r@ == mid + record@.subrange(0, i as int),
        decreases record.len() - i,
    {
        r.push(record[i]);
        i += 1;
        assert(r@ =~= mid + record@.subrange(0, i as int));
    }
    assert(record@.subrange(0, record@.len() as int) =~= record@);
    Some(r)
}

/// A query turned into an error response with the given response code.
fn error_response(q: &[u8], rcode: u8) -> (r: Option<Vec<u8>>)
    requires
        rcode < 16,
    ensures
        match r {
            Some(v) => spec_error_response(q@, rcode) == Some(v@),
            None => spec_error_response(q@, rcode) is None,
        },
{
    if q.len() < 12 {
        return None;
    }
    let mut r: Vec<u8> = Vec::new();
    r.push(q[0]);
    r.push(q[1]);
    r.push(q[2] | 0x80);
    r.push((q[3] & 0xF0) | rcode);
    r.push(0);
    r.push(0);
    r.push(0);
    r.push(0);
    r.push(0);
    r.push(0);
    extend_from(&mut r, q, 12, q.len());
    assert(r@ =~= q@.subrange(0, 2) + seq![q@[2] | 0x80u8, (q@[3] & 0xF0u8) | rcode] + seq![
        0u8,
        0u8,
        0u8,
        0u8,
        0u8,
        0u8,
    ] + q@.subrange(12, q@.len() as int));
    Some(r)
}

impl DnsBlocker {
    /// The NXDOMAIN (response code 3) answer to a query.
    pub fn build_nxdomain(q: &[u8]) -> (r: Option<Vec<u8>>)
        ensures
            match r {
                Some(v) => spec_error_response(q@, 3) == Some(v@),
                None => spec_error_response(q@, 3) is None,
            },
    {
        error_response(q, 3)
    }

    /// The SERVFAIL (response code 2) answer to a query.
    pub fn build_servfail(q: &[u8]) -> (r: Option<Vec<u8>>)
        ensures
            match r {
                Some(v) => spec_error_response(q@, 2) == Some(v@),
                None => spec_error_response(q@, 2) is None,
            },
    {
        error_response(q, 2)
    }

    /// The A answer that resolves the query's name to `ip`.
    pub fn build_sinkhole_a_record(q: &[u8], ip: [u8; 4]) -> (r: Option<Vec<u8>>)
        ensures
            match r {
                Some(v) => spec_sinkhole_a(q@, ip@) == Some(v@),
                None => spec_sinkhole_a(q@, ip@) is None,
            },
    {
        if q.len() < 12 {
            return None;
        }
        let rec: [u8; 16] = [
            0xC0,
            0x0C,
            0x00,
            0x01,
            0x00,
            0x01,
            0x00,
            0x00,
            0x00,
            0x0A,
            0x00,
            0x04,
            ip[0],
            ip[1],
            ip[2],
            ip[3],
        ];
        assert(rec@ =~= a_record(ip@));
        build_answer(q, &rec)
    }

    /// The AAAA answer that resolves the query's name to `ip6`.
    pub fn build_sinkhole_aaaa_record(q: &[u8], ip6: [u8; 16]) -> (r: Option<Vec<u8>>)
        ensures
            match r {
                Some(v) => spec_sinkhole_aaaa(q@, ip6@) == Some(v@),
                None => spec_sinkhole_aaaa(q@, ip6@) is None,
            },
    {
        if q.len() < 12 {
            return None;
        }
        let mut rec: Vec<u8> = Vec::new();
        rec.push(0xC0);
        rec.push(0x0C);
        rec.push(0x00);
        rec.push(0x1C);
        rec.push(0x00);
        rec.push(0x01);
        rec.push(0x00);
        rec.push(0x00);
        rec.push(0x00);
        rec.push(0x0A);
        rec.push(0x00);
        rec.push(0x10);
        let mut i: usize = 0;
        let ghost head = rec@;
        while i < 16
            invariant
                i <= 16,
                rec@ == head + ip6@.subrange(0, i as int),
            decreases 16 - i,
        {
            rec.push(ip6[i]);
            i += 1;
            assert(rec@ =~= head + ip6@.subrange(0, i as int));
        }
        assert(rec@ =~= aaaa_record(ip6@));
        build_answer(q, rec.as_slice())
    }

    /// Whether `resp` answers `query`: same id, the response bit set, and the same
    /// first question name and type.
    pub fn response_matches_query(resp: &[u8], query: &[u8]) -> (r: bool)
        ensures
            r == spec_response_matches(resp@, query@),
    {
        if resp.len() < 12 || query.len() < 12 {
            return false;
        }
        if resp[0] != query[0] || resp[1] != query[1] {
            return false;
        }
        let flags = resp[2];
        assert(flags & 0x80 == 0 <==> flags < 0x80) by (bit_vector);
        if flags & 0x80 == 0 {
            return false;
        }
        match (Self::parse_query_info(query), Self::parse_query_info(resp)) {
            (Some((q_name, q_type)), Some((r_name, r_type))) => {
                let a = crate::text::chars_of(q_name.as_str());
                let b = crate::text::chars_of(r_name.as_str());
                crate::text::eq_chars(a.as_slice(), b.as_slice()) && r_type == q_type
            },
            _ => false,
        }
    }
}

/// Skip of the question name while reading TTLs: the offset after it and the number
/// of labels read so far, or `None` once more than 128 are read.
pub open spec fn ttl_skip_question(r: Seq<u8>, pos: int, guard: nat) -> Option<(int, nat)>
    decreases r.len() + 256 - pos,
{
    if pos < 0 || pos >= r.len() {
        Some((pos, guard))
    } else if guard + 1 > 128 {
        None
    } else {
        let b = r[pos] as int;
        if b >= 0xC0 {
            Some((pos + 2, guard + 1))
        } else if b == 0 {
            Some((pos + 1, guard + 1))
        } else {
            ttl_skip_question(r, pos + 1 + b, guard + 1)
        }
    }
}

/// Skip of an uncompressed record name, or `None` once more than 128 labels are read.
pub open spec fn ttl_skip_name(r: Seq<u8>, pos: int, lg: nat) -> Option<int>
    decreases r.len() + 256 - pos,
{
    if pos < 0 || pos >= r.len() {
        Some(pos)
    } else if lg + 1 > 128 {
        None
    } else {
        let l = r[pos] as int;
        if l == 0 {
            Some(pos + 1)
        } else {
            ttl_skip_name(r, pos + 1 + l, lg + 1)
        }
    }
}

/// Smaller of two TTLs.
pub open spec fn min_u32(a: u32, b: u32) -> u32 {
    if a <= b {
        a
    } else {
        b
    }
}

/// Walk over the answer records: `k` records left, `guard` counts steps, `m` is the
/// smallest TTL seen. `None` when a record name runs over 128 labels.
pub open spec fn ttl_answers(r: Seq<u8>, pos: int, k: nat, guard: nat, m: u32) -> Option<u32>
    decreases k,
{
    if k == 0 || guard + 1 > 256 || pos >= r.len() || pos < 0 {
        Some(m)
    } else {
        let after = if r[pos] >= 0xC0 {
            Some(pos + 2)
        } else {
            ttl_skip_name(r, pos, 0)
        };
        match after {
            None => None,
            Some(p) => if p + 10 > r.len() {
                Some(m)
            } else {
                ttl_answers(
                    r,
                    p + 10 + be16(r[p + 8], r[p + 9]) as int,
                    (k - 1) as nat,
                    guard + 1,
                    min_u32(m, be32(r[p + 4], r[p + 5], r[p + 6], r[p + 7])),
                )
            },
        }
    }
}

/// The smallest TTL among a response's answer records.
pub open spec fn spec_min_ttl(r: Seq<u8>) -> Option<u32> {
    if r.len() < 12 || be16(r[6], r[7]) == 0 {
        None
    } else {
        match ttl_skip_question(r, 12, 0) {
            None => None,
            Some((p, g)) => match ttl_answers(r, p + 4, be16(r[6], r[7]) as nat, g, u32::MAX) {
                None => None,
                Some(m) => if m == u32::MAX {
                    None
                } else {
                    Some(m)
                },
            },
        }
    }
}

/// How long an answer is cached: its smallest TTL (10 when it has none) held to 1..=60.
pub open spec fn spec_cache_ttl(r: Seq<u8>) -> u64 {
    let t = match spec_min_ttl(r) {
        Some(t) => t,
        None => 10u32,
    };
    if t < 1 {
        1
    } else if t > 60 {
        60
    } else {
        t as u64
    }
}

fn skip_name_exec(r: &[u8], start: u128) -> (res: Option<u128>)
    requires
        start < r@.len(),
    ensures
        res is None <==> ttl_skip_name(r@, start as int, 0) is None,
        res matches Some(p) ==> ttl_skip_name(r@, start as int, 0) == Some(p as int),
        res matches Some(p) ==> p <= r@.len() + 256,
{
    let n = r.len();
    let mut pos = start;
    let mut lg: u128 = 0;
    let ghost whole = ttl_skip_name(r@, start as int, 0);
    while pos < r.len() as u128
        invariant
            pos <= r@.len() + 256,
            r@.len() <= usize::MAX,
            whole == ttl_skip_name(r@, start as int, 0),
            lg <= 128,
            whole == ttl_skip_name(r@, pos as int, lg as nat),
        decreases r@.len() + 256 - pos,
    {
        let pu = pos as usize;
        assert(pu as int == pos as int);
        if lg + 1 > 128 {
            return None;
        }
        lg += 1;
        let l = r[pu];
        if l == 0 {
            return Some(pos + 1);
        }
        pos = pos + 1 + l as u128;
    }
    Some(pos)
}

impl DnsBlocker {
    /// The smallest TTL among the answer records of a response.
    pub fn extract_min_ttl(resp: &[u8]) -> (r: Option<u32>)
        ensures
            r == spec_min_ttl(resp@),
    {
        if resp.len() < 12 {
            return None;
        }
        let an_count = read_be16(resp[6], resp[7]);
        if an_count == 0 {
            return None;
        }
        let len = resp.len() as u128;
        let mut pos: u128 = 12;
        let mut guard: u128 = 0;
        let ghost q = ttl_skip_question(resp@, 12, 0);
        let mut brk = false;
        while pos < len
            invariant_except_break
                q == ttl_skip_question(resp@, pos as int, guard as nat),
            invariant
                len == resp@.len(),
                len <= usize::MAX,
                q == ttl_skip_question(resp@, 12, 0),
                resp@.len() >= 12,
                an_count == be16(resp@[6], resp@[7]),
                an_count != 0,
                pos <= len + 256,
                guard <= 128,
            ensures
                q == Some((pos as int, guard as nat)),
            decreases len + 256 - pos,
        {
            let pu = pos as usize;
            assert(pu as int == pos as int);
            if guard + 1 > 128 {
                return None;
            }
            guard += 1;
            let b = resp[pu];
            if b >= 0xC0 {
                pos += 2;
                brk = true;
                break;
            } else if b == 0 {
                pos += 1;
                brk = true;
                break;
            } else {
                pos = pos + 1 + b as u128;
            }
        }
        assert(q == Some((pos as int, guard as nat)));
        pos += 4;
        let mut min_ttl: u32 = u32::MAX;
        let mut k: u16 = an_count;
        let ghost total = ttl_answers(resp@, pos as int, an_count as nat, guard as nat, u32::MAX);
        while k > 0
            invariant_except_break
                total == ttl_answers(resp@, pos as int, k as nat, guard as nat, min_ttl),
            invariant
                len == resp@.len(),
                len <= usize::MAX,
                q == ttl_skip_question(resp@, 12, 0),
                resp@.len() >= 12,
                an_count == be16(resp@[6], resp@[7]),
                an_count != 0,
                q matches Some((p0, g0)) && total == ttl_answers(resp@, p0 + 4, an_count as nat, g0, u32::MAX),
                pos <= len + 70000,
                guard <= 256,
            ensures
                total == Some(min_ttl),
            decreases k,
        {
            let ghost g_old = guard;
            let ghost m_old = min_ttl;
            if guard + 1 > 256 {
                break;
            }
            guard += 1;
            if pos >= len {
                break;
            }
            let pi = pos as usize;
            assert(pi as int == pos as int);
            let ghost after = if resp@[pos as int] >= 0xC0 {
                Some(pos as int + 2)
            } else {
                ttl_skip_name(resp@, pos as int, 0)
            };
            assert(total == match after {
                None => None,
                Some(p) => if p + 10 > resp@.len() {
                    Some(m_old)
                } else {
                    ttl_answers(
                        resp@,
                        p + 10 + be16(resp@[p + 8], resp@[p + 9]) as int,
                        (k - 1) as nat,
                        (g_old + 1) as nat,
                        min_u32(m_old, be32(resp@[p + 4], resp@[p + 5], resp@[p + 6], resp@[p + 7])),
                    )
                },
            });
            let p = if resp[pi] >= 0xC0 {
                pos + 2
            } else {
                match skip_name_exec(resp, pos) {
                    Some(p) => p,
                    None => return None,
                }
            };
            assert(after == Some(p as int));
            if p + 10 > len {
                break;
            }
            let pu = p as usize;
            assert(pu as int == p as int);
            let ttl = read_be32(resp[pu + 4], resp[pu + 5], resp[pu + 6], resp[pu + 7]);
            if ttl < min_ttl {
                min_ttl = ttl;
            }
            let rdlength = read_be16(resp[pu + 8], resp[pu + 9]);
            pos = p + 10 + rdlength as u128;
            k -= 1;
        }
        if min_ttl == u32::MAX {
            None
        } else {
            Some(min_ttl)
        }
    }

    /// Seconds an answer stays cached.
    pub fn cache_ttl_seconds(resp: &[u8]) -> (r: u64)
        ensures
            r == spec_cache_ttl(resp@),
            1 <= r <= 60,
    {
        let ttl = match Self::extract_min_ttl(resp) {
            Some(t) => t,
            None => 10,
        };
        if ttl < 1 {
            1
        } else if ttl > 60 {
            60
        } else {
            ttl as u64
        }
    }
}

proof fn lemma_walks_agree(pkt: Seq<u8>, pos: int, steps: nat, labels: Seq<Seq<u8>>)
    ensures
        qname_walk(pkt, pos, steps, labels) is None <==> question_walk(pkt, pos, steps) is None,
        qname_walk(pkt, pos, steps, labels) matches Some((_, p)) ==> question_walk(pkt, pos, steps)
            == Some(p),
        question_walk(pkt, pos, steps) matches Some(p) ==> p >= pos,
    decreases pkt.len() - pos,
{
    if pos < 0 || pos >= pkt.len() || steps >= 128 {
    } else {
        let l = pkt[pos] as int;
        if l == 0 || l >= 0xC0 || pos + 1 + l > pkt.len() {
        } else {
            lemma_walks_agree(pkt, pos + 1 + l, steps + 1, labels.push(pkt.subrange(pos + 1, pos + 1 + l)));
        }
    }
}

proof fn lemma_walk_same_bytes(a: Seq<u8>, b: Seq<u8>, e: int, pos: int, steps: nat, labels: Seq<Seq<u8>>)
    requires
        12 <= pos,
        e <= a.len(),
        e <= b.len(),
        forall|i: int| 12 <= i < e ==> a[i] == b[i],
        question_walk(a, pos, steps) matches Some(p) && p + 4 <= e,
    ensures
        qname_walk(b, pos, steps, labels) == qname_walk(a, pos, steps, labels),
    decreases a.len() - pos,
{
    lemma_walks_agree(a, pos, steps, labels);
    if pos >= a.len() {
    } else if steps >= 128 {
    } else {
        let l = a[pos] as int;
        assert(a[pos] == b[pos]);
        if l == 0 || l >= 0xC0 {
        } else if pos + 1 + l > a.len() {
        } else {
            let nl = labels.push(a.subrange(pos + 1, pos + 1 + l));
            lemma_walks_agree(a, pos + 1 + l, steps + 1, nl);
            assert(a.subrange(pos + 1, pos + 1 + l) =~= b.subrange(pos + 1, pos + 1 + l));
            lemma_walk_same_bytes(a, b, e, pos + 1 + l, steps + 1, nl);
        }
    }
}

/// A synthesised A answer is accepted as the response to the query it was built
/// for: same id, the response bit set, the same question name and type.
pub proof fn sinkhole_answer_matches_query(q: Seq<u8>, ip: Seq<u8>)
    requires
        spec_query_info(q) is Some,
        spec_sinkhole_a(q, ip) is Some,
    ensures
        spec_response_matches(spec_sinkhole_a(q, ip)->0, q),
{
    let e = question_end(q)->0;
    let r = spec_sinkhole_a(q, ip)->0;
    assert(r == answer_header(q) + q.subrange(12, e) + a_record(ip));
    assert forall|i: int| 12 <= i < e implies q[i] == r[i] by {
        assert(r[i] == (answer_header(q) + q.subrange(12, e))[i]);
    }
    let p = question_walk(q, 12, 0)->0;
    lemma_walks_agree(q, 12, 0, Seq::empty());
    lemma_walk_same_bytes(q, r, e, 12, 0, Seq::empty());
    assert(r[0] == q[0] && r[1] == q[1] && r[2] == 0x81);
    assert(spec_query_info(r) == spec_query_info(q));
}

/// A synthesised AAAA answer is accepted as the response to the query it was built for.
pub proof fn sinkhole_aaaa_answer_matches_query(q: Seq<u8>, ip6: Seq<u8>)
    requires
        spec_query_info(q) is Some,
        spec_sinkhole_aaaa(q, ip6) is Some,
    ensures
        spec_response_matches(spec_sinkhole_aaaa(q, ip6)->0, q),
{
    let e = question_end(q)->0;
    let r = spec_sinkhole_aaaa(q, ip6)->0;
    assert(r == answer_header(q) + q.subrange(12, e) + aaaa_record(ip6));
    assert forall|i: int| 12 <= i < e implies q[i] == r[i] by {
        assert(r[i] == (answer_header(q) + q.subrange(12, e))[i]);
    }
    lemma_walks_agree(q, 12, 0, Seq::empty());
    lemma_walk_same_bytes(q, r, e, 12, 0, Seq::empty());
    assert(r[0] == q[0] && r[1] == q[1] && r[2] == 0x81);
    assert(spec_query_info(r) == spec_query_info(q));
}
/// Addresses a response policy answers with for a client, instead of resolving.
#[derive(Clone, Copy, Debug)]
pub struct ResponseOverride {
    pub ipv4: [u8; 4],
    pub ipv6: [u8; 16],
}

/// A sinkhole answer, or NXDOMAIN when it cannot be built.
pub open spec fn answer_or_nx(answer: Option<Seq<u8>>, q: Seq<u8>) -> Option<Seq<u8>> {
    match answer {
        Some(a) => Some(a),
        None => spec_error_response(q, 3),
    }
}

/// The answer a response policy gives: the override's IPv6 address for an AAAA
/// query, its IPv4 address otherwise, NXDOMAIN when that cannot be built.
pub open spec fn spec_override_answer(q: Seq<u8>, qtype: u16, over: ResponseOverride) -> Option<Seq<u8>> {
    if qtype == 28 {
        answer_or_nx(spec_sinkhole_aaaa(q, over.ipv6@), q)
    } else {
        answer_or_nx(spec_sinkhole_a(q, over.ipv4@), q)
    }
}

/// The answer to a blocked query: an A query resolves to 127.0.0.1 with the silent
/// sinkhole on and to 0.0.0.0 otherwise, an AAAA query to `::`, every other type
/// gets NXDOMAIN (also when an address answer cannot be built).
pub open spec fn spec_blocked_answer(q: Seq<u8>, qtype: u16, silent: bool) -> Option<Seq<u8>> {
    if qtype == 1 {
        answer_or_nx(spec_sinkhole_a(q, if silent { seq![127u8, 0, 0, 1] } else { seq![0u8, 0, 0, 0] }), q)
    } else if qtype == 28 {
        answer_or_nx(spec_sinkhole_aaaa(q, Seq::new(16, |i: int| 0u8)), q)
    } else {
        spec_error_response(q, 3)
    }
}

fn or_nxdomain(answer: Option<Vec<u8>>, q: &[u8]) -> (r: Option<Vec<u8>>)
    ensures
        match r {
            Some(v) => answer_or_nx(match answer { Some(a) => Some(a@), None => None }, q@) == Some(v@),
            None => answer_or_nx(match answer { Some(a) => Some(a@), None => None }, q@) is None,
        },
{
    match answer {
        Some(a) => Some(a),
        None => DnsBlocker::build_nxdomain(q),
    }
}

impl DnsBlocker {
    /// The answer that a response policy's override gives to the query `q`.
    pub fn override_response(q: &[u8], qtype: u16, over: ResponseOverride) -> (r: Option<Vec<u8>>)
        ensures
            match r {
                Some(v) => spec_override_answer(q@, qtype, over) == Some(v@),
                None => spec_override_answer(q@, qtype, over) is None,
            },
    {
        if qtype == 28 {
            or_nxdomain(Self::build_sinkhole_aaaa_record(q, over.ipv6), q)
        } else {
            or_nxdomain(Self::build_sinkhole_a_record(q, over.ipv4), q)
        }
    }

    /// The answer to a blocked query `q` of type `qtype`.
    pub fn blocked_response(q: &[u8], qtype: u16, silent_sinkhole: bool) -> (r: Option<Vec<u8>>)
        ensures
            match r {
                Some(v) => spec_blocked_answer(q@, qtype, silent_sinkhole) == Some(v@),
                None => spec_blocked_answer(q@, qtype, silent_sinkhole) is None,
            },
    {
        if qtype == 1 {
            let ip: [u8; 4] = if silent_sinkhole {
                [127, 0, 0, 1]
            } else {
                [0, 0, 0, 0]
            };
            assert(ip@ == if silent_sinkhole { seq![127u8, 0, 0, 1] } else { seq![0u8, 0, 0, 0] });
            or_nxdomain(Self::build_sinkhole_a_record(q, ip), q)
        } else if qtype == 28 {
            let zero: [u8; 16] = [0u8; 16];
            assert(zero@ =~= Seq::new(16, |i: int| 0u8));
            or_nxdomain(Self::build_sinkhole_aaaa_record(q, zero), q)
        } else {
            Self::build_nxdomain(q)
        }
    }
}

/// The TTL fields of the answer records read from `pos` on, `k` records left, in
/// order: each record's name is skipped, its 32-bit TTL taken and its data skipped.
/// The walk ends at the end of the message or after 256 steps; `None` when a record
/// name runs over 128 labels.
pub open spec fn answer_ttl_fields(r: Seq<u8>, pos: int, k: nat, guard: nat) -> Option<Seq<u32>>
    decreases k,
{
    if k == 0 || guard + 1 > 256 || pos >= r.len() || pos < 0 {
        Some(Seq::empty())
    } else {
        let after = if r[pos] >= 0xC0 {
            Some(pos + 2)
        } else {
            ttl_skip_name(r, pos, 0)
        };
        match after {
            None => None,
            Some(p) => if p + 10 > r.len() {
                Some(Seq::empty())
            } else {
                match answer_ttl_fields(r, p + 10 + be16(r[p + 8], r[p + 9]) as int, (k - 1) as nat, guard + 1) {
                    None => None,
                    Some(rest) => Some(seq![be32(r[p + 4], r[p + 5], r[p + 6], r[p + 7])] + rest),
                }
            },
        }
    }
}

/// The TTL fields of a response's answer records, after its question.
pub open spec fn response_answer_ttls(r: Seq<u8>) -> Option<Seq<u32>> {
    if r.len() < 12 || be16(r[6], r[7]) == 0 {
        Some(Seq::empty())
    } else {
        match ttl_skip_question(r, 12, 0) {
            None => None,
            Some((p, g)) => answer_ttl_fields(r, p + 4, be16(r[6], r[7]) as nat, g),
        }
    }
}

proof fn lemma_ttl_walk_min(r: Seq<u8>, pos: int, k: nat, guard: nat, m: u32)
    ensures
        ttl_answers(r, pos, k, guard, m) is None <==> answer_ttl_fields(r, pos, k, guard) is None,
        ttl_answers(r, pos, k, guard, m) matches Some(x) ==> (answer_ttl_fields(r, pos, k, guard) matches Some(ts) && x <= m
            && (forall|i: int| 0 <= i < ts.len() ==> x <= #[trigger] ts[i]) && (x == m || ts.contains(x))),
    decreases k,
{
    if k == 0 || guard + 1 > 256 || pos >= r.len() || pos < 0 {
    } else {
        let after = if r[pos] >= 0xC0 {
            Some(pos + 2)
        } else {
            ttl_skip_name(r, pos, 0)
        };
        match after {
            None => {},
            Some(p) => if p + 10 > r.len() {
            } else {
                let t = be32(r[p + 4], r[p + 5], r[p + 6], r[p + 7]);
                let np = p + 10 + be16(r[p + 8], r[p + 9]) as int;
                lemma_ttl_walk_min(r, np, (k - 1) as nat, guard + 1, min_u32(m, t));
                match ttl_answers(r, np, (k - 1) as nat, guard + 1, min_u32(m, t)) {
                    None => {},
                    Some(x) => {
                        let rest = answer_ttl_fields(r, np, (k - 1) as nat, guard + 1)->0;
                        let ts = seq![t] + rest;
                        assert(answer_ttl_fields(r, pos, k, guard) == Some(ts));
                        assert forall|i: int| 0 <= i < ts.len() implies x <= #[trigger] ts[i] by {
                            if i > 0 {
                                assert(ts[i] == rest[i - 1]);
                            }
                        }
                        if x != m {
                            if x == t {
                                assert(ts[0] == t);
                            } else {
                                let j = choose|j: int| 0 <= j < rest.len() && rest[j] == x;
                                assert(ts[j + 1] == x);
                            }
                        }
                    },
                }
            },
        }
    }
}

/// The smallest TTL of a response is the smallest TTL field among its answer
/// records: no record read has a smaller one and some record has exactly it; and a
/// response with a record whose TTL is below the 32-bit maximum has one.
pub proof fn lemma_min_ttl_is_smallest_answer_ttl(r: Seq<u8>)
    ensures
        spec_min_ttl(r) matches Some(m) ==> (response_answer_ttls(r) matches Some(ts) && ts.contains(m) && forall|i: int|
            0 <= i < ts.len() ==> m <= #[trigger] ts[i]),
        (response_answer_ttls(r) matches Some(ts) && exists|i: int| 0 <= i < ts.len() && #[trigger] ts[i] < u32::MAX)
            ==> spec_min_ttl(r) is Some,
{
    if r.len() >= 12 && be16(r[6], r[7]) != 0 {
        match ttl_skip_question(r, 12, 0) {
            None => {},
            Some((p, g)) => {
                lemma_ttl_walk_min(r, p + 4, be16(r[6], r[7]) as nat, g, u32::MAX);
            },
        }
    }
}

} // verus!
