//! Refreshing the blocklist from its download sources: which answers replace the
//! list, and which ETags are remembered for the next round.
use vstd::prelude::*;
use crate::dns::rules::spec_parse_line;
use crate::dns::{builtin_ad_domain_names, builtin_ad_domains, DnsBlocker};
use crate::dns::sets::DomainSet;
use crate::security::table::KeyTable;
use crate::text::{chars_of, eq_chars, names_of, split_on, split_vec};

verus! {

/// What one blocklist download gave.
pub enum BlocklistFetch {
    /// The source answered 304: the list did not change.
    NotModified(String),
    /// The source sent its list: URL, text, and the ETag it sent, if any.
    Fetched(String, String, Option<String>),
    /// The download failed.
    Failed,
}

/// A line without one trailing carriage return.
pub open spec fn strip_cr(l: Seq<char>) -> Seq<char> {
    if l.len() > 0 && l.last() == '\r' {
        l.drop_last()
    } else {
        l
    }
}

/// The lines of a text as `str::lines` gives them: split at `\n`, each `\r\n`
/// ending counting as one, and no empty line after a final line ending.
pub open spec fn spec_lines(t: Seq<char>) -> Seq<Seq<char>> {
    let p = split_on(t, '\n');
    let n = p.len() as int;
    Seq::new((n - 1) as nat, |i: int| strip_cr(p[i])) + if p[n - 1].len() > 0 {
        seq![p[n - 1]]
    } else {
        Seq::empty()
    }
}

/// The domains the lines of a blocklist text name.
pub open spec fn text_domains(t: Seq<char>) -> Set<Seq<char>> {
    Set::new(
        |d: Seq<char>|
            exists|l: int| 0 <= l < spec_lines(t).len() && spec_parse_line(#[trigger] spec_lines(t)[l]) == Some(d),
    )
}

/// The domains of the lists fetched among the first `n` answers.
pub open spec fn fetched_domains(rs: Seq<BlocklistFetch>, n: int) -> Set<Seq<char>>
    decreases n,
{
    if n <= 0 {
        Set::empty()
    } else {
        let prev = fetched_domains(rs, n - 1);
        match rs[n - 1] {
            BlocklistFetch::Fetched(_, text, _) => prev.union(text_domains(text@)),
            _ => prev,
        }
    }
}

/// Number of sources among the first `n` answers that sent their list.
pub open spec fn fetched_count(rs: Seq<BlocklistFetch>, n: int) -> int
    decreases n,
{
    if n <= 0 {
        0
    } else {
        fetched_count(rs, n - 1) + if rs[n - 1] is Fetched { 1int } else { 0int }
    }
}

/// Number of sources among the first `n` answers that answered "not modified".
pub open spec fn unchanged_count(rs: Seq<BlocklistFetch>, n: int) -> int
    decreases n,
{
    if n <= 0 {
        0
    } else {
        unchanged_count(rs, n - 1) + if rs[n - 1] is NotModified { 1int } else { 0int }
    }
}

/// The ETags after the first `n` answers: each fetched list's ETag, when it sent one,
/// replaces what was remembered for its URL.
pub open spec fn etags_after(m: Map<Seq<char>, Seq<char>>, rs: Seq<BlocklistFetch>, n: int) -> Map<
    Seq<char>,
    Seq<char>,
>
    decreases n,
{
    if n <= 0 {
        m
    } else {
        let prev = etags_after(m, rs, n - 1);
        match rs[n - 1] {
            BlocklistFetch::Fetched(url, _, Some(tag)) => prev.insert(url@, tag@),
            _ => prev,
        }
    }
}

/// The ETags kept for the next round: only those of the configured sources.
pub open spec fn etags_kept(m: Map<Seq<char>, Seq<char>>, urls: Seq<Seq<char>>) -> Map<Seq<char>, Seq<char>> {
    m.restrict(Set::new(|u: Seq<char>| urls.contains(u)))
}

/// The texts a table holds, by key.
pub open spec fn text_map(t: KeyTable<String>) -> Map<Seq<char>, Seq<char>> {
    Map::new(|u: Seq<char>| t.lookup(u) is Some, |u: Seq<char>| t.lookup(u)->0@)
}

/// A copy of a table of texts.
fn copy_text_table(t: &KeyTable<String>) -> (r: KeyTable<String>)
    requires
        t.wf(),
    ensures
        r.wf(),
        text_map(r) == text_map(*t),
{
    let mut out: KeyTable<String> = KeyTable::new();
    let mut i: usize = 0;
    while i < t.entries.len()
        invariant
            i <= t.entries@.len(),
            t.wf(),
            out.wf(),
            forall|u: Seq<char>|
                #[trigger] out.lookup(u) == if exists|j: int| 0 <= j < i && crate::security::table::key_at(t.entries@, j) == u {
                    t.lookup(u)
                } else {
                    None
                },
        decreases t.entries@.len() - i,
    {
        let k = crate::text::slice_vec(t.entries[i].0.as_slice(), 0, t.entries[i].0.len());
        proof {
            crate::security::table::lemma_lookup_index(t.entries@, i as int);
        }
        assert(k@ == crate::security::table::key_at(t.entries@, i as int));
        let ghost old_out = out;
        out.insert(k, t.entries[i].1.clone());
        proof {
            assert forall|u: Seq<char>|
                #[trigger] out.lookup(u) == if exists|j: int| 0 <= j < i + 1 && crate::security::table::key_at(t.entries@, j) == u {
                    t.lookup(u)
                } else {
                    None
                } by {
                if u == k@ {
                    assert(crate::security::table::key_at(t.entries@, i as int) == u);
                } else {
                    assert(out.lookup(u) == old_out.lookup(u));
                    if exists|j: int| 0 <= j < i + 1 && crate::security::table::key_at(t.entries@, j) == u {
                        let j = choose|j: int| 0 <= j < i + 1 && crate::security::table::key_at(t.entries@, j) == u;
                        assert(j < i);
                    }
                }
            }
        }
        i += 1;
    }
    proof {
        assert forall|u: Seq<char>| #[trigger] out.lookup(u) == t.lookup(u) by {
            if t.lookup(u) is Some {
                let j = choose|j: int| 0 <= j < t.entries@.len() && #[trigger] crate::security::table::key_at(t.entries@, j) == u;
            }
        }
    }
    assert(text_map(out) =~= text_map(*t));
    out
}

impl DnsBlocker {
    /// The remembered ETag of each source.
    pub closed spec fn etag_map(&self) -> Map<Seq<char>, Seq<char>> {
        text_map(self.etag_cache)
    }

    /// The ETag remembered for `url`, to send as `If-None-Match`.
    pub fn etag_for(&self, url: &str) -> (r: Option<String>)
        requires
            self.wf(),
        ensures
            match r {
                Some(t) => self.etag_map().contains_key(url@) && self.etag_map()[url@] == t@,
                None => !self.etag_map().contains_key(url@),
            },
    {
        let k = chars_of(url);
        match self.etag_cache.get(k.as_slice()) {
            Some(t) => Some(t.clone()),
            None => None,
        }
    }

    /// The remembered ETags as (URL, ETag) pairs, to be written to disk.
    pub fn etag_entries(&self) -> (r: Vec<(String, String)>)
        requires
            self.wf(),
        ensures
            forall|i: int|
                0 <= i < r@.len() ==> self.etag_map().contains_key((#[trigger] r@[i]).0@) && self.etag_map()[r@[i].0@]
                    == r@[i].1@,
            forall|u: Seq<char>| self.etag_map().contains_key(u) ==> exists|i: int| 0 <= i < r@.len() && (#[trigger] r@[i]).0@ == u,
    {
        let t = &self.etag_cache;
        let mut out: Vec<(String, String)> = Vec::new();
        let mut i: usize = 0;
        while i < t.entries.len()
            invariant
                i <= t.entries@.len(),
                t.wf(),
                t == &self.etag_cache,
                out@.len() == i,
                forall|j: int| 0 <= j < i ==> (#[trigger] out@[j]).0@ == crate::security::table::key_at(t.entries@, j)
                    && out@[j].1@ == t.entries@[j].1@,
            decreases t.entries@.len() - i,
        {
            let k = crate::text::string_from_chars(t.entries[i].0.as_slice());
            out.push((k, t.entries[i].1.clone()));
            i += 1;
        }
        proof {
            assert forall|j: int| 0 <= j < out@.len() implies self.etag_map().contains_key((#[trigger] out@[j]).0@)
                && self.etag_map()[out@[j].0@] == out@[j].1@ by {
                crate::security::table::lemma_lookup_index(t.entries@, j);
            }
            assert forall|u: Seq<char>| self.etag_map().contains_key(u) implies exists|j: int|
                0 <= j < out@.len() && (#[trigger] out@[j]).0@ == u by {
                let j = choose|j: int| 0 <= j < t.entries@.len() && #[trigger] crate::security::table::key_at(t.entries@, j) == u;
                assert(out@[j].0@ == u);
            }
        }
        out
    }

    /// Remembers `tag` as the ETag of `url` (as read back from disk).
    pub fn remember_etag(&mut self, url: &str, tag: &str)
        requires
            old(self).wf(),
        ensures
            final(self).wf(),
            final(self).etag_map() == old(self).etag_map().insert(url@, tag@),
            final(self).blocked_set() == old(self).blocked_set(),
            final(self).allowed_set() == old(self).allowed_set(),
            final(self).custom_blocked_set() == old(self).custom_blocked_set(),
            final(self).custom_allowed_set() == old(self).custom_allowed_set(),
            final(self).cache() == old(self).cache(),
    {
        self.etag_cache.insert(chars_of(url), String::from_str(tag));
        assert(self.etag_map() =~= old(self).etag_map().insert(url@, tag@));
    }
}

/// The lines of `t`, as `str::lines` splits them.
pub fn text_lines(t: &str) -> (r: Vec<Vec<char>>)
    ensures
        names_of(r@) == spec_lines(t@),
{
    let c = chars_of(t);
    let pieces = split_vec(c.as_slice(), '\n');
    let ghost p = split_on(t@, '\n');
    let n = pieces.len();
    let mut out: Vec<Vec<char>> = Vec::new();
    let mut i: usize = 0;
    while i + 1 < n
        invariant
            i + 1 <= n,
            n == pieces@.len(),
            names_of(pieces@) == p,
            names_of(out@) == Seq::new(i as nat, |k: int| strip_cr(p[k])),
        decreases n - i,
    {
        let piece = &pieces[i];
        assert(piece@ == p[i as int]);
        let l = piece.len();
        let line = if l > 0 && piece[l - 1] == '\r' {
            crate::text::slice_vec(piece.as_slice(), 0, l - 1)
        } else {
            crate::text::slice_vec(piece.as_slice(), 0, l)
        };
        assert(line@ =~= strip_cr(p[i as int]));
        let ghost prev = out@;
        out.push(line);
        assert(names_of(out@) =~= names_of(prev).push(line@));
        i += 1;
        assert(names_of(out@) =~= Seq::new(i as nat, |k: int| strip_cr(p[k])));
    }
    let last = &pieces[n - 1];
    assert(last@ == p[n - 1]);
    assert(p.len() == n);
    let ghost mid = out@;
    if last.len() > 0 {
        let lastv = crate::text::slice_vec(last.as_slice(), 0, last.len());
        assert(lastv@ =~= p[n - 1]);
        out.push(lastv);
        assert(names_of(out@) =~= names_of(mid).push(p[n - 1]));
    }
    assert(names_of(out@) =~= spec_lines(t@));
    out
}

/// Whether `u` is one of `urls`.
fn listed(urls: &[String], u: &Vec<char>) -> (r: bool)
    ensures
        r == crate::config::texts(urls@).contains(u@),
{
    let mut i: usize = 0;
    while i < urls.len()
        invariant
            i <= urls@.len(),
            forall|k: int| 0 <= k < i ==> urls@[k]@ != u@,
        decreases urls@.len() - i,
    {
        let c = chars_of(urls[i].as_str());
        if eq_chars(c.as_slice(), u.as_slice()) {
            assert(crate::config::texts(urls@)[i as int] == u@);
            return true;
        }
        i += 1;
    }
    proof {
        if crate::config::texts(urls@).contains(u@) {
            let k = choose|k: int| 0 <= k < urls@.len() && crate::config::texts(urls@)[k] == u@;
            assert(urls@[k]@ == u@);
        }
    }
    false
}

impl DnsBlocker {
    /// Takes in the answers of one refresh of the blocklist sources `urls` and returns
    /// the number of domains in force. When every source answered, the ETags of this
    /// round (kept for the configured sources only) are remembered, else the old ones
    /// stay. When every source answered "not modified" and a list is loaded, it stays;
    /// otherwise the built-in ad domains together with the domains of the fetched lists
    /// are counted, and replace the list when there are some and a list was fetched.
    pub fn apply_blocklist_fetches(&mut self, urls: &[String], results: &[BlocklistFetch]) -> (r: usize)
        requires
            old(self).wf(),
        ensures
            final(self).wf(),
            ({
                let n = results@.len() as int;
                let unchanged = unchanged_count(results@, n);
                let fetched = fetched_count(results@, n);
                let ds = builtin_ad_domains().to_set().union(fetched_domains(results@, n));
                &&& final(self).etag_map() == if unchanged + fetched == urls@.len() {
                    etags_kept(etags_after(old(self).etag_map(), results@, n), crate::config::texts(urls@))
                } else {
                    old(self).etag_map()
                }
                &&& if unchanged > 0 && fetched == 0 && unchanged == urls@.len() && old(self).blocked_set().len() > 0 {
                    r == old(self).blocked_set().len() && final(self).blocked_set() == old(self).blocked_set()
                } else {
                    &&& r == ds.len()
                    &&& final(self).blocked_set() == if r > 0 && fetched > 0 {
                        ds
                    } else {
                        old(self).blocked_set()
                    }
                }
            }),
            final(self).allowed_set() == old(self).allowed_set(),
            final(self).custom_blocked_set() == old(self).custom_blocked_set(),
            final(self).custom_allowed_set() == old(self).custom_allowed_set(),
            final(self).cache() == old(self).cache(),
    {
        let ghost n = results@.len() as int;
        let ghost old_etags = self.etag_map();
        let mut names = builtin_ad_domain_names();
        let ghost base = builtin_ad_domains().to_set();
        assert(names_of(names@).to_set() == base);
        let mut unchanged: usize = 0;
        let mut fetched: usize = 0;
        let mut etags = copy_text_table(&self.etag_cache);
        let mut i: usize = 0;
        while i < results.len()
            invariant
                i <= results@.len(),
                n == results@.len(),
                unchanged == unchanged_count(results@, i as int),
                fetched == fetched_count(results@, i as int),
                unchanged + fetched <= i,
                names_of(names@).to_set() == base.union(fetched_domains(results@, i as int)),
                etags.wf(),
                text_map(etags) == etags_after(old_etags, results@, i as int),
            decreases results@.len() - i,
        {
            match &results[i] {
                BlocklistFetch::NotModified(_) => {
                    unchanged += 1;
                },
                BlocklistFetch::Fetched(url, text, tag) => {
                    fetched += 1;
                    match tag {
                        Some(t) => {
                            let ghost before_tags = text_map(etags);
                            etags.insert(chars_of(url.as_str()), t.clone());
                            assert(text_map(etags) =~= before_tags.insert(url@, t@));
                        },
                        None => {},
                    }
                    let lines = text_lines(text.as_str());
                    let ghost before = names_of(names@).to_set();
                    let mut l: usize = 0;
                    while l < lines.len()
                        invariant
                            l <= lines@.len(),
                            names_of(lines@) == spec_lines(text@),
                            names_of(names@).to_set() == before.union(
                                Set::new(
                                    |d: Seq<char>|
                                        exists|k: int|
                                            0 <= k < l && spec_parse_line(#[trigger] spec_lines(text@)[k]) == Some(d),
                                ),
                            ),
                        decreases lines@.len() - l,
                    {
                        let ls = crate::text::string_from_chars(lines[l].as_slice());
                        assert(ls@ == spec_lines(text@)[l as int]);
                        let ghost prev_names = names@;
                        let parsed = Self::parse_line(ls.as_str());
                        match &parsed {
                            Some(d) => {
                                names.push(chars_of(d.as_str()));
                                assert(names_of(names@) =~= names_of(prev_names).push(d@));
                                proof {
                                    let a = names_of(prev_names);
                                    assert forall|x: Seq<char>| a.push(d@).to_set().contains(x) <==> a.to_set().insert(d@).contains(x) by {
                                        if a.push(d@).to_set().contains(x) {
                                            let k = choose|k: int| 0 <= k < a.push(d@).len() && a.push(d@)[k] == x;
                                            if k < a.len() {
                                                assert(a[k] == x);
                                            }
                                        }
                                        if a.to_set().contains(x) {
                                            let k = choose|k: int| 0 <= k < a.len() && a[k] == x;
                                            assert(a.push(d@)[k] == x);
                                        }
                                        if x == d@ {
                                            assert(a.push(d@)[a.len() as int] == x);
                                        }
                                    }
                                    assert(names_of(names@).to_set() =~= a.to_set().insert(d@));
                                }
                            },
                            None => {},
                        }
                        assert(names_of(names@).to_set() =~= match parsed {
                            Some(d) => names_of(prev_names).to_set().insert(d@),
                            None => names_of(prev_names).to_set(),
                        });
                        proof {
                            let lv = spec_lines(text@);
                            let s0 = Set::new(|d: Seq<char>| exists|k: int| 0 <= k < l && spec_parse_line(#[trigger] lv[k]) == Some(d));
                            let s1 = Set::new(|d: Seq<char>| exists|k: int| 0 <= k < l + 1 && spec_parse_line(#[trigger] lv[k]) == Some(d));
                            assert(names_of(prev_names).to_set() == before.union(s0));
                            assert forall|d: Seq<char>| names_of(names@).to_set().contains(d) <==> before.union(s1).contains(d) by {
                                if s1.contains(d) && !s0.contains(d) {
                                    let k = choose|k: int| 0 <= k < l + 1 && spec_parse_line(#[trigger] lv[k]) == Some(d);
                                    assert(k == l);
                                }
                                if s0.contains(d) {
                                    let k = choose|k: int| 0 <= k < l && spec_parse_line(#[trigger] lv[k]) == Some(d);
                                    assert(s1.contains(d));
                                }
                                if spec_parse_line(lv[l as int]) == Some(d) {
                                    assert(s1.contains(d));
                                }
                                assert(names_of(names@).to_set().contains(d) <==> (names_of(prev_names).to_set().contains(d)
                                    || spec_parse_line(lv[l as int]) == Some(d)));
                            }
                            assert(names_of(names@).to_set() =~= before.union(s1));
                        }
                        l += 1;
                    }
                    assert(Set::new(
                        |d: Seq<char>|
                            exists|k: int|
                                0 <= k < lines@.len() && spec_parse_line(#[trigger] spec_lines(text@)[k]) == Some(d),
                    ) =~= text_domains(text@));
                },
                BlocklistFetch::Failed => {},
            }
            i += 1;
            assert(names_of(names@).to_set() =~= base.union(fetched_domains(results@, i as int)));
        }
        if unchanged + fetched == urls.len() {
            let ghost before_tags = text_map(etags);
            let ghost listed_set = crate::config::texts(urls@);
            let keep = |k: &Vec<char>, v: &String| -> (b: bool)
                ensures
                    b == crate::config::texts(urls@).contains(k@),
                { listed(urls, k) };
            etags.retain_where(keep, Ghost(|k: Seq<char>, v: String| crate::config::texts(urls@).contains(k)));
            self.etag_cache = etags;
            assert(self.etag_map() =~= etags_kept(before_tags, listed_set));
        }
        if unchanged > 0 && fetched == 0 && unchanged == urls.len() {
            let count = self.blocked_domains.len();
            if count > 0 {
                return count;
            }
        }
        let set = DomainSet::from_names(names);
        let count = set.len();
        if count > 0 && fetched > 0 {
            self.blocked_domains = set;
        }
        count
    }
}

} // verus!
