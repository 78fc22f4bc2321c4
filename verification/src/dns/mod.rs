//! DNS filtering: rule parsing, domain validation, the block decision, the answer
//! cache and the wire format.
use vstd::prelude::*;

pub mod cache;
pub mod disk_index;
pub mod disk_store;
pub mod packet;
pub mod pipeline;
pub mod rules;
pub mod sets;
pub mod sources;

use crate::dns::cache::DnsCache;
use crate::dns::rules::{spec_normalize, spec_validate, validate_normalized, validation_error};
use crate::dns::sets::DomainSet;
use crate::security::table::KeyTable;
use crate::text::{
    chars_of, names_of, lower_seq, slice_vec, spec_unicode_lowercase, string_from_chars, trim,
    trim_end_char, trim_end_char_vec, trim_vec, unicode_lowercase,
};

verus! {

/// Video, audio and tracking ad domains that stay blocked whatever the lists hold.
pub open spec fn builtin_ad_domains() -> Seq<Seq<char>> {
    seq![
        "s.youtube.com"@,
        "ad.youtube.com"@,
        "ads.youtube.com"@,
        "youtubei.googleapis.com"@,
        "video-stats.l.google.com"@,
        "pagead2.googlesyndication.com"@,
        "pagead2.googleadservices.com"@,
        "ade.googlesyndication.com"@,
        "googleads.g.doubleclick.net"@,
        "pubads.g.doubleclick.net"@,
        "securepubads.g.doubleclick.net"@,
        "static.doubleclick.net"@,
        "adclick.g.doubleclick.net"@,
        "adservice.google.com"@,
        "adservice.google.com.vn"@,
        "googleadservices.com"@,
        "googlesyndication.com"@,
        "doubleclick.net"@,
        "app-measurement.com"@,
        "spclient.wg.spotify.com"@,
        "audio-ak-spotify-com.akamaized.net"@,
        "heads4-ak-spotify-com.akamaized.net"@,
        "adstudio.spotify.com"@,
        "ads-fa.spotify.com"@,
        "crashdump.spotify.com"@,
        "ad.soundcloud.com"@,
        "ads.soundcloud.com"@,
        "promoted.soundcloud.com"@,
        "countess.twitch.tv"@,
        "ads.tiktok.com"@,
        "analytics.tiktok.com"@,
        "ib.tiktokv.com"@,
        "log.byteoversea.com"@,
        "mon.zijieapi.com"@,
        "an.facebook.com"@,
        "ads.facebook.com"@,
        "pixel.facebook.com"@,
        "tr.facebook.com"@,
        "ad.zadn.vn"@,
        "api.ad.zadn.vn"@,
        "tracking.zadn.vn"@,
        "media.zadn.vn"@,
        "sdk.e.zadn.vn"@,
        "zalo-analytics.zadn.vn"@,
        "qc.nct.vn"@,
        "ad.nct.vn"@,
        "adv.zing.vn"@,
        "adt.zing.vn"@,
        "qc.coccoc.com"@,
        "adserver.coccoc.com"@,
        "dsp.coccoc.com"@,
        "tracking.shopee.vn"@,
        "criteo.shopee.vn"@,
        "fls-na.amazon.com"@,
        "aax-us-east.amazon-adsystem.com"@,
        "c.amazon-adsystem.com"@,
        "scorecardresearch.com"@,
        "adroll.com"@,
        "criteo.com"@,
        "taboola.com"@,
        "outbrain.com"@,
        "telemetry.microsoft.com"@,
        "vortex.data.microsoft.com"@,
        "watson.telemetry.microsoft.com"@,
    ]
}

/// Number of built-in ad domains.
pub const BUILTIN_AD_DOMAIN_COUNT: usize = 64;

/// The built-in ad domains as character vectors.
pub fn builtin_ad_domain_names() -> (r: Vec<Vec<char>>)
    ensures
        names_of(r@) == builtin_ad_domains(),
{
    let list: [&str; 64] = [
        "s.youtube.com",
        "ad.youtube.com",
        "ads.youtube.com",
        "youtubei.googleapis.com",
        "video-stats.l.google.com",
        "pagead2.googlesyndication.com",
        "pagead2.googleadservices.com",
        "ade.googlesyndication.com",
        "googleads.g.doubleclick.net",
        "pubads.g.doubleclick.net",
        "securepubads.g.doubleclick.net",
        "static.doubleclick.net",
        "adclick.g.doubleclick.net",
        "adservice.google.com",
        "adservice.google.com.vn",
        "googleadservices.com",
        "googlesyndication.com",
        "doubleclick.net",
        "app-measurement.com",
        "spclient.wg.spotify.com",
        "audio-ak-spotify-com.akamaized.net",
        "heads4-ak-spotify-com.akamaized.net",
        "adstudio.spotify.com",
        "ads-fa.spotify.com",
        "crashdump.spotify.com",
        "ad.soundcloud.com",
        "ads.soundcloud.com",
        "promoted.soundcloud.com",
        "countess.twitch.tv",
        "ads.tiktok.com",
        "analytics.tiktok.com",
        "ib.tiktokv.com",
        "log.byteoversea.com",
        "mon.zijieapi.com",
        "an.facebook.com",
        "ads.facebook.com",
        "pixel.facebook.com",
        "tr.facebook.com",
        "ad.zadn.vn",
        "api.ad.zadn.vn",
        "tracking.zadn.vn",
        "media.zadn.vn",
        "sdk.e.zadn.vn",
        "zalo-analytics.zadn.vn",
        "qc.nct.vn",
        "ad.nct.vn",
        "adv.zing.vn",
        "adt.zing.vn",
        "qc.coccoc.com",
        "adserver.coccoc.com",
        "dsp.coccoc.com",
        "tracking.shopee.vn",
        "criteo.shopee.vn",
        "fls-na.amazon.com",
        "aax-us-east.amazon-adsystem.com",
        "c.amazon-adsystem.com",
        "scorecardresearch.com",
        "adroll.com",
        "criteo.com",
        "taboola.com",
        "outbrain.com",
        "telemetry.microsoft.com",
        "vortex.data.microsoft.com",
        "watson.telemetry.microsoft.com",
    ];
    assert(forall|j: int| 0 <= j < 64 ==> list@[j]@ == #[trigger] builtin_ad_domains()[j]);
    let mut r: Vec<Vec<char>> = Vec::new();
    let mut i: usize = 0;
    while i < 64
        invariant
            i <= 64,
            builtin_ad_domains().len() == 64,
            forall|j: int| 0 <= j < 64 ==> list@[j]@ == #[trigger] builtin_ad_domains()[j],
            names_of(r@) == builtin_ad_domains().subrange(0, i as int),
        decreases 64 - i,
    {
        let ghost before = names_of(r@);
        let c = chars_of(list[i]);
        assert(c@ == builtin_ad_domains()[i as int]);
        r.push(c);
        assert(names_of(r@) =~= before.push(c@));
        i += 1;
        assert(names_of(r@) =~= builtin_ad_domains().subrange(0, i as int));
    }
    assert(builtin_ad_domains().subrange(0, 64) =~= builtin_ad_domains());
    r
}

/// The DNS filter: the loaded and built-in blocklist, the global allow list, the
/// user's own block and allow rules, the answer cache, the per-source ETags of the
/// blocklist downloads and the query counters.
pub struct DnsBlocker {
    blocked_domains: DomainSet,
    allowed_domains: DomainSet,
    custom_blocked: DomainSet,
    custom_allowed: DomainSet,
    dns_cache: DnsCache,
    etag_cache: KeyTable<String>,
    total_queries: u64,
    blocked_count: u64,
    silent_sinkhole_enabled: bool,
}

/// `d` is in `s`, or one of its parent domains is.
pub open spec fn hier_match(d: Seq<char>, s: Set<Seq<char>>) -> bool {
    s.contains(d) || exists|p: int|
        0 <= p && p + 1 < d.len() && d[p] == '.' && #[trigger] s.contains(
            d.subrange(p + 1, d.len() as int),
        )
}

/// `d` holds an ASCII capital letter.
pub open spec fn has_ascii_upper(d: Seq<char>) -> bool {
    exists|i: int| 0 <= i < d.len() && 'A' <= #[trigger] d[i] && d[i] <= 'Z'
}

/// The form in which a queried name is looked up: trailing dots removed and, when it
/// holds an ASCII capital, lower-cased.
pub open spec fn block_key(domain: Seq<char>) -> Seq<char> {
    let t = trim_end_char(domain, '.');
    if has_ascii_upper(t) {
        spec_unicode_lowercase(t)
    } else {
        t
    }
}

/// The block decision: a name (or a parent of it) on either allow list is never
/// blocked; otherwise it is blocked when it (or a parent) is on the user's block
/// rules or on the blocklist.
pub open spec fn spec_should_block(
    domain: Seq<char>,
    blocked: Set<Seq<char>>,
    allowed: Set<Seq<char>>,
    custom_blocked: Set<Seq<char>>,
    custom_allowed: Set<Seq<char>>,
) -> bool {
    let k = block_key(domain);
    if trim_end_char(domain, '.').len() == 0 {
        false
    } else if hier_match(k, custom_allowed) || hier_match(k, allowed) {
        false
    } else {
        hier_match(k, custom_blocked) || hier_match(k, blocked)
    }
}

/// The rule domains among `inputs` that pass validation.
pub open spec fn valid_rule_set(inputs: Seq<Seq<char>>) -> Set<Seq<char>> {
    Set::new(|d: Seq<char>| exists|i: int| 0 <= i < inputs.len() && spec_validate(#[trigger] inputs[i]) == Some(d))
}

/// The key under which a rule is removed: trimmed and lower-cased.
pub open spec fn removal_key(domain: Seq<char>) -> Seq<char> {
    spec_unicode_lowercase(trim(domain))
}

/// Whether `d` or one of its parents is in `s`.
pub fn match_domain_hierarchy(d: &[char], s: &DomainSet) -> (r: bool)
    ensures
        r == hier_match(d@, s@),
{
    if s.contains(d) {
        return true;
    }
    let mut p: usize = 0;
    while p < d.len()
        invariant
            p <= d@.len(),
            !s@.contains(d@),
            forall|q: int| 0 <= q < p && q + 1 < d@.len() && d@[q] == '.' ==> !s@.contains(#[trigger] d@.subrange(q + 1, d@.len() as int)),
        decreases d@.len() - p,
    {
        if d[p] == '.' && p + 1 < d.len() {
            let rest = slice_vec(d, p + 1, d.len());
            if s.contains(rest.as_slice()) {
                return true;
            }
        }
        p += 1;
    }
    false
}

impl DnsBlocker {
    /// The blocklist in force.
    pub closed spec fn blocked_set(&self) -> Set<Seq<char>> {
        self.blocked_domains@
    }

    /// The global allow list.
    pub closed spec fn allowed_set(&self) -> Set<Seq<char>> {
        self.allowed_domains@
    }

    /// The user's block rules.
    pub closed spec fn custom_blocked_set(&self) -> Set<Seq<char>> {
        self.custom_blocked@
    }

    /// The user's allow rules.
    pub closed spec fn custom_allowed_set(&self) -> Set<Seq<char>> {
        self.custom_allowed@
    }

    /// The answer cache.
    pub closed spec fn cache(&self) -> &DnsCache {
        &self.dns_cache
    }

    /// Queries answered or forwarded so far.
    pub closed spec fn queries_seen(&self) -> u64 {
        self.total_queries
    }

    /// Queries refused so far.
    pub closed spec fn queries_blocked(&self) -> u64 {
        self.blocked_count
    }

    /// Whether blocked A queries are answered with `127.0.0.1` rather than `0.0.0.0`.
    pub closed spec fn sinkhole_on(&self) -> bool {
        self.silent_sinkhole_enabled
    }

    /// Internal consistency: no set holds a name twice, the cache holds one entry per key.
    pub closed spec fn wf(&self) -> bool {
        &&& self.blocked_domains.wf()
        &&& self.allowed_domains.wf()
        &&& self.custom_blocked.wf()
        &&& self.custom_allowed.wf()
        &&& self.dns_cache.wf()
        &&& self.etag_cache.wf()
    }

    /// The decision for `domain` in the current state.
    pub open spec fn spec_blocks(&self, domain: Seq<char>) -> bool {
        spec_should_block(
            domain,
            self.blocked_set(),
            self.allowed_set(),
            self.custom_blocked_set(),
            self.custom_allowed_set(),
        )
    }

    /// A filter with the built-in ad domains on its blocklist, empty allow and user
    /// lists, an empty cache, zeroed counters and the silent sinkhole on.
    pub fn new() -> (r: Self)
        ensures
            r.wf(),
            r.blocked_set() == builtin_ad_domains().to_set(),
            r.allowed_set() == Set::<Seq<char>>::empty(),
            r.custom_blocked_set() == Set::<Seq<char>>::empty(),
            r.custom_allowed_set() == Set::<Seq<char>>::empty(),
            r.cache().items().len() == 0,
            r.queries_seen() == 0,
            r.queries_blocked() == 0,
            r.sinkhole_on(),
    {
        let blocked = DomainSet::from_names(builtin_ad_domain_names());
        DnsBlocker {
            blocked_domains: blocked,
            allowed_domains: DomainSet::new(),
            custom_blocked: DomainSet::new(),
            custom_allowed: DomainSet::new(),
            dns_cache: DnsCache::new(),
            etag_cache: KeyTable::new(),
            total_queries: 0,
            blocked_count: 0,
            silent_sinkhole_enabled: true,
        }
    }

    /// Number of blocklist entries plus the user's block rules.
    pub fn get_rules_count(&self) -> (r: usize)
        requires
            self.wf(),
            self.blocked_set().len() + self.custom_blocked_set().len() <= usize::MAX,
        ensures
            r == self.blocked_set().len() + self.custom_blocked_set().len(),
    {
        self.blocked_domains.len() + self.custom_blocked.len()
    }

    /// Number of blocklist entries plus the user's block rules.
    pub fn blocked_count(&self) -> (r: usize)
        requires
            self.wf(),
            self.blocked_set().len() + self.custom_blocked_set().len() <= usize::MAX,
        ensures
            r == self.blocked_set().len() + self.custom_blocked_set().len(),
    {
        self.blocked_domains.len() + self.custom_blocked.len()
    }

    /// Turns the silent sinkhole (answering `127.0.0.1` to blocked A queries) on or off.
    pub fn set_silent_sinkhole(&mut self, enabled: bool)
        ensures
            final(self).sinkhole_on() == enabled,
            final(self).queries_seen() == old(self).queries_seen(),
            final(self).queries_blocked() == old(self).queries_blocked(),
            final(self).blocked_set() == old(self).blocked_set(),
            final(self).allowed_set() == old(self).allowed_set(),
            final(self).custom_blocked_set() == old(self).custom_blocked_set(),
            final(self).custom_allowed_set() == old(self).custom_allowed_set(),
            final(self).wf() == old(self).wf(),
    {
        self.silent_sinkhole_enabled = enabled;
    }

    /// Whether the silent sinkhole is on.
    pub fn is_silent_sinkhole(&self) -> (r: bool)
        ensures
            r == self.sinkhole_on(),
    {
        self.silent_sinkhole_enabled
    }

    /// The block decision for a queried name.
    pub fn should_block(&self, domain: &str) -> (r: bool)
        ensures
            r == self.spec_blocks(domain@),
    {
        let c = chars_of(domain);
        let t = trim_end_char_vec(c.as_slice(), '.');
        if t.len() == 0 {
            return false;
        }
        let mut upper = false;
        let mut i: usize = 0;
        while i < t.len()
            invariant
                i <= t@.len(),
                upper == exists|j: int| 0 <= j < i && 'A' <= #[trigger] t@[j] && t@[j] <= 'Z',
            decreases t@.len() - i,
        {
            if 'A' <= t[i] && t[i] <= 'Z' {
                upper = true;
            }
            i += 1;
        }
        let key: Vec<char> = if upper {
            let s = string_from_chars(t.as_slice());
            let l = unicode_lowercase(s.as_str());
            chars_of(l.as_str())
        } else {
            t
        };
        if match_domain_hierarchy(key.as_slice(), &self.custom_allowed) || match_domain_hierarchy(
            key.as_slice(),
            &self.allowed_domains,
        ) {
            return false;
        }
        if match_domain_hierarchy(key.as_slice(), &self.custom_blocked) {
            return true;
        }
        match_domain_hierarchy(key.as_slice(), &self.blocked_domains)
    }

    /// Replaces the user's block and allow rules by the valid domains among the inputs;
    /// invalid entries are dropped.
    pub fn set_custom_rules(&mut self, blocked: &[String], allowed: &[String])
        requires
            old(self).wf(),
        ensures
            final(self).wf(),
            final(self).custom_blocked_set() == valid_rule_set(blocked@.map_values(|s: String| s@)),
            final(self).custom_allowed_set() == valid_rule_set(allowed@.map_values(|s: String| s@)),
            final(self).blocked_set() == old(self).blocked_set(),
            final(self).allowed_set() == old(self).allowed_set(),
    {
        self.custom_blocked = Self::valid_set(blocked);
        self.custom_allowed = Self::valid_set(allowed);
    }

    fn valid_set(inputs: &[String]) -> (r: DomainSet)
        ensures
            r.wf(),
            r@ == valid_rule_set(inputs@.map_values(|s: String| s@)),
    {
        let ghost ins = inputs@.map_values(|s: String| s@);
        let mut r = DomainSet::new();
        let mut i: usize = 0;
        while i < inputs.len()
            invariant
                i <= inputs@.len(),
                ins == inputs@.map_values(|s: String| s@),
                r.wf(),
                r@ == valid_rule_set(ins.subrange(0, i as int)),
            decreases inputs@.len() - i,
        {
            let ghost before = r@;
            match Self::validate_domain(inputs[i].as_str(), crate::i18n::VI) {
                Ok(d) => {
                    r.insert(chars_of(d.as_str()));
                },
                Err(_) => {},
            }
            proof {
                let a = ins.subrange(0, i as int);
                let b = ins.subrange(0, i + 1);
                assert(b[i as int] == inputs@[i as int]@);
                assert forall|x: Seq<char>| valid_rule_set(b).contains(x) == r@.contains(x) by {
                    if valid_rule_set(b).contains(x) {
                        let k = choose|k: int| 0 <= k < b.len() && spec_validate(#[trigger] b[k]) == Some(x);
                        if k < i {
                            assert(a[k] == b[k]);
                            assert(valid_rule_set(a).contains(x));
                        }
                    }
                    if before.contains(x) {
                        let k = choose|k: int| 0 <= k < a.len() && spec_validate(#[trigger] a[k]) == Some(x);
                        assert(b[k] == a[k]);
                        assert(valid_rule_set(b).contains(x));
                    }
                }
                assert(valid_rule_set(b) =~= r@);
            }
            i += 1;
        }
        assert(ins.subrange(0, inputs@.len() as int) =~= ins);
        r
    }

    /// Adds a user block rule; the error is the localized reason the domain is refused.
    pub fn add_custom_domain(&mut self, domain: &str, lang: u8) -> (r: Result<(), String>)
        requires
            old(self).wf(),
        ensures
            final(self).wf(),
            r is Ok <==> spec_validate(domain@) is Some,
            r matches Err(e) ==> e@ == validation_error(spec_normalize(domain@), lang),
            final(self).custom_blocked_set() == match spec_validate(domain@) {
                Some(d) => old(self).custom_blocked_set().insert(d),
                None => old(self).custom_blocked_set(),
            },
            final(self).custom_allowed_set() == old(self).custom_allowed_set(),
            final(self).blocked_set() == old(self).blocked_set(),
            final(self).allowed_set() == old(self).allowed_set(),
    {
        match Self::validate_domain(domain, lang) {
            Ok(d) => {
                self.custom_blocked.insert(chars_of(d.as_str()));
                Ok(())
            },
            Err(e) => Err(e),
        }
    }

    /// Removes a user block rule, looked up trimmed and lower-cased.
    pub fn remove_custom_domain(&mut self, domain: &str) -> (r: Result<(), String>)
        requires
            old(self).wf(),
        ensures
            final(self).wf(),
            r is Ok,
            final(self).custom_blocked_set() == old(self).custom_blocked_set().remove(removal_key(domain@)),
            final(self).custom_allowed_set() == old(self).custom_allowed_set(),
            final(self).blocked_set() == old(self).blocked_set(),
            final(self).allowed_set() == old(self).allowed_set(),
    {
        let key = Self::removal_key_exec(domain);
        self.custom_blocked.remove(key.as_slice());
        Ok(())
    }

    /// Adds a user allow rule; the error is the localized reason the domain is refused.
    pub fn add_allowed_domain(&mut self, domain: &str, lang: u8) -> (r: Result<(), String>)
        requires
            old(self).wf(),
        ensures
            final(self).wf(),
            r is Ok <==> spec_validate(domain@) is Some,
            r matches Err(e) ==> e@ == validation_error(spec_normalize(domain@), lang),
            final(self).custom_allowed_set() == match spec_validate(domain@) {
                Some(d) => old(self).custom_allowed_set().insert(d),
                None => old(self).custom_allowed_set(),
            },
            final(self).custom_blocked_set() == old(self).custom_blocked_set(),
            final(self).blocked_set() == old(self).blocked_set(),
            final(self).allowed_set() == old(self).allowed_set(),
    {
        match Self::validate_domain(domain, lang) {
            Ok(d) => {
                self.custom_allowed.insert(chars_of(d.as_str()));
                Ok(())
            },
            Err(e) => Err(e),
        }
    }

    /// Removes a user allow rule, looked up trimmed and lower-cased.
    pub fn remove_allowed_domain(&mut self, domain: &str) -> (r: Result<(), String>)
        requires
            old(self).wf(),
        ensures
            final(self).wf(),
            r is Ok,
            final(self).custom_allowed_set() == old(self).custom_allowed_set().remove(removal_key(domain@)),
            final(self).custom_blocked_set() == old(self).custom_blocked_set(),
            final(self).blocked_set() == old(self).blocked_set(),
            final(self).allowed_set() == old(self).allowed_set(),
    {
        let key = Self::removal_key_exec(domain);
        self.custom_allowed.remove(key.as_slice());
        Ok(())
    }

    fn removal_key_exec(domain: &str) -> (r: Vec<char>)
        ensures
            r@ == removal_key(domain@),
    {
        let c = chars_of(domain);
        let t = trim_vec(c.as_slice());
        let s = string_from_chars(t.as_slice());
        let l = unicode_lowercase(s.as_str());
        chars_of(l.as_str())
    }
}


/// An allow rule wins: a name that is on the user's allow rules or the global allow
/// list, or lies under a domain that is, is never blocked, whatever the block rules
/// and the blocklist hold.
pub proof fn lemma_allow_rule_wins(b: &DnsBlocker, domain: Seq<char>)
    requires
        hier_match(block_key(domain), b.custom_allowed_set()) || hier_match(
            block_key(domain),
            b.allowed_set(),
        ),
    ensures
        !b.spec_blocks(domain),
{
}

/// A block rule covers its domain and every name under it: when the looked-up form of
/// a query is the rule's domain or ends in `.` followed by it, and no allow rule
/// applies, the query is blocked.
pub proof fn lemma_block_rule_covers_subdomains(b: &DnsBlocker, rule: Seq<char>, domain: Seq<char>)
    requires
        rule.len() > 0,
        b.custom_blocked_set().contains(rule) || b.blocked_set().contains(rule),
        block_key(domain) == rule || (block_key(domain).len() >= rule.len() + 1 && block_key(
            domain,
        )[block_key(domain).len() - rule.len() - 1] == '.' && block_key(domain).subrange(
            block_key(domain).len() - rule.len(),
            block_key(domain).len() as int,
        ) == rule),
        !hier_match(block_key(domain), b.custom_allowed_set()),
        !hier_match(block_key(domain), b.allowed_set()),
    ensures
        b.spec_blocks(domain),
{
    let k = block_key(domain);
    let t = trim_end_char(domain, '.');
    if t.len() == 0 {
        assert(!has_ascii_upper(t));
        assert(k.len() == 0);
    }
    if k != rule {
        let p = k.len() - rule.len() - 1;
        assert(k.subrange(p + 1, k.len() as int) == rule);
        if b.custom_blocked_set().contains(rule) {
            assert(hier_match(k, b.custom_blocked_set()));
        } else {
            assert(hier_match(k, b.blocked_set()));
        }
    }
}

/// Nothing is blocked when no rule and no blocklist entry covers the name.
pub proof fn lemma_unlisted_name_passes(b: &DnsBlocker, domain: Seq<char>)
    requires
        !hier_match(block_key(domain), b.custom_blocked_set()),
        !hier_match(block_key(domain), b.blocked_set()),
    ensures
        !b.spec_blocks(domain),
{
}

} // verus!
