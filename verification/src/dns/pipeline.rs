//! The steps of answering one DNS query once the source has passed the security
//! checks: a response policy, the block decision, the cache, and the upstream answer.
use vstd::prelude::*;
use crate::dns::cache::{cache_hit, spec_cached_response};
use crate::dns::packet::{spec_blocked_answer, spec_cache_ttl, spec_error_response, spec_override_answer, ResponseOverride};
use crate::dns::DnsBlocker;

verus! {

/// What to do with a query after the local steps.
pub enum LocalAnswer {
    /// Send this answer (none could be built when it is `None`).
    Reply(Option<Vec<u8>>),
    /// The name is blocked: send this answer and log the query as blocked.
    Blocked(Option<Vec<u8>>),
    /// Ask the upstream resolvers.
    Forward,
}

/// The bytes of an optional answer.
pub open spec fn answer_bytes(a: Option<Vec<u8>>) -> Option<Seq<u8>> {
    match a {
        Some(v) => Some(v@),
        None => None,
    }
}

/// The local step for query `pkt` (name `name`, type `qtype`) at `now`: a response
/// policy's override answers first; a blocked name gets the blocked answer; a fresh
/// cached answer is sent with the query's id; otherwise the query goes upstream.
pub open spec fn spec_local_answer(
    d: &DnsBlocker,
    pkt: Seq<u8>,
    name: Seq<char>,
    qtype: u16,
    policy: Option<ResponseOverride>,
    now: u64,
) -> (int, Option<Seq<u8>>) {
    match policy {
        Some(over) => (0, spec_override_answer(pkt, qtype, over)),
        None => if d.spec_blocks(name) {
            (1, spec_blocked_answer(pkt, qtype, d.sinkhole_on()))
        } else if cache_hit(d.cache(), name, qtype, now) {
            (0, spec_cached_response(d.cache(), name, qtype, pkt, now))
        } else {
            (2, None)
        },
    }
}

impl DnsBlocker {
    /// Counts a query that passed the security checks.
    pub fn count_query(&mut self)
        ensures
            final(self).queries_seen() == old(self).queries_seen().wrapping_add(1),
            final(self).queries_blocked() == old(self).queries_blocked(),
            final(self).blocked_set() == old(self).blocked_set(),
            final(self).allowed_set() == old(self).allowed_set(),
            final(self).custom_blocked_set() == old(self).custom_blocked_set(),
            final(self).custom_allowed_set() == old(self).custom_allowed_set(),
            final(self).cache() == old(self).cache(),
            final(self).sinkhole_on() == old(self).sinkhole_on(),
            final(self).wf() == old(self).wf(),
    {
        self.total_queries = self.total_queries.wrapping_add(1);
    }

    /// The answer to a query refused because its source attacks while auto-block is
    /// on: NXDOMAIN, counted as blocked.
    pub fn refuse_attack(&mut self, pkt: &[u8]) -> (r: Option<Vec<u8>>)
        ensures
            answer_bytes(r) == spec_error_response(pkt@, 3),
            final(self).queries_blocked() == old(self).queries_blocked().wrapping_add(1),
            final(self).queries_seen() == old(self).queries_seen(),
            final(self).blocked_set() == old(self).blocked_set(),
            final(self).allowed_set() == old(self).allowed_set(),
            final(self).custom_blocked_set() == old(self).custom_blocked_set(),
            final(self).custom_allowed_set() == old(self).custom_allowed_set(),
            final(self).cache() == old(self).cache(),
            final(self).sinkhole_on() == old(self).sinkhole_on(),
            final(self).wf() == old(self).wf(),
    {
        self.blocked_count = self.blocked_count.wrapping_add(1);
        Self::build_nxdomain(pkt)
    }

    /// The local step for a query `pkt` whose question is `name`/`qtype`, given the
    /// override a response policy chose for its source (if any): a blocked name adds
    /// to the blocked count.
    pub fn answer_locally(
        &mut self,
        pkt: &[u8],
        name: &str,
        qtype: u16,
        policy: Option<ResponseOverride>,
        now: u64,
    ) -> (r: LocalAnswer)
        requires
            old(self).wf(),
            cache_hit(old(self).cache(), name@, qtype, now) ==> pkt@.len() >= 2,
        ensures
            final(self).wf(),
            ({
                let (kind, bytes) = spec_local_answer(&*old(self), pkt@, name@, qtype, policy, now);
                match r {
                    LocalAnswer::Reply(a) => kind == 0 && answer_bytes(a) == bytes,
                    LocalAnswer::Blocked(a) => kind == 1 && answer_bytes(a) == bytes,
                    LocalAnswer::Forward => kind == 2,
                }
            }),
            final(self).queries_blocked() == if r is Blocked {
                old(self).queries_blocked().wrapping_add(1)
            } else {
                old(self).queries_blocked()
            },
            final(self).queries_seen() == old(self).queries_seen(),
            final(self).blocked_set() == old(self).blocked_set(),
            final(self).allowed_set() == old(self).allowed_set(),
            final(self).custom_blocked_set() == old(self).custom_blocked_set(),
            final(self).custom_allowed_set() == old(self).custom_allowed_set(),
            final(self).cache() == old(self).cache(),
            final(self).sinkhole_on() == old(self).sinkhole_on(),
    {
        match policy {
            Some(over) => {
                return LocalAnswer::Reply(Self::override_response(pkt, qtype, over));
            },
            None => {},
        }
        if self.should_block(name) {
            self.blocked_count = self.blocked_count.wrapping_add(1);
            return LocalAnswer::Blocked(Self::blocked_response(pkt, qtype, self.silent_sinkhole_enabled));
        }
        match self.cached_response_for(name, qtype, pkt, now) {
            Some(resp) => LocalAnswer::Reply(Some(resp)),
            None => LocalAnswer::Forward,
        }
    }

    /// The answer to a forwarded query: the upstream answer, which is cached for its
    /// TTL, or SERVFAIL when no upstream answered.
    pub fn finish_forwarded(&mut self, pkt: &[u8], name: &str, qtype: u16, upstream: Option<Vec<u8>>, now: u64) -> (r:
        Option<Vec<u8>>)
        requires
            old(self).wf(),
        ensures
            final(self).wf(),
            match upstream {
                Some(resp) => r == Some(resp) && final(self).cache().lookup(name@, qtype) == Some(
                    (name@, qtype, resp@, now, spec_cache_ttl(resp@) as u32),
                ),
                None => answer_bytes(r) == spec_error_response(pkt@, 2) && final(self).cache() == old(self).cache(),
            },
            final(self).queries_seen() == old(self).queries_seen(),
            final(self).queries_blocked() == old(self).queries_blocked(),
            final(self).blocked_set() == old(self).blocked_set(),
            final(self).allowed_set() == old(self).allowed_set(),
            final(self).custom_blocked_set() == old(self).custom_blocked_set(),
            final(self).custom_allowed_set() == old(self).custom_allowed_set(),
    {
        match upstream {
            Some(resp) => {
                self.store_cache_response(name, qtype, resp.as_slice(), now);
                Some(resp)
            },
            None => Self::build_servfail(pkt),
        }
    }
}

} // verus!
