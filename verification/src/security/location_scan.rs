//! Scanning a folder tree: which directories and files are skipped, the budget and
//! cancellation, the progress throttle, and the report the walk builds.
use vstd::prelude::*;
use crate::security::file_analyzer::verdict::FileVerdict;
use crate::security::file_analyzer::{finding_text, findings_text};
use crate::text::{chars_of, eq_chars, eq_str, lower_seq, lower_vec, starts_with};

verus! {

/// The most files one location scan analyses by default.
pub const DEFAULT_LOCATION_SCAN_MAX_FILES: usize = 5000;

/// Larger files are skipped.
pub const MAX_SCANNABLE_BYTES: u64 = 67108864;

/// Progress is reported at most every this many scanned files.
pub const PROGRESS_NOTIFY_EVERY: usize = 16;

/// Progress is reported at most once per this many milliseconds.
pub const PROGRESS_MIN_INTERVAL_MS: u128 = 20;

/// Directory names that never hold anything worth scanning.
pub const NOISE_DIR_NAMES: [&'static str; 8] = [
    "node_modules",
    ".git",
    ".svn",
    "$recycle.bin",
    "system volume information",
    "perflogs",
    "recovery",
    "msocache",
];

/// Limits the rate of progress reports.
pub struct ProgressThrottle {
    last_emit_ms: Option<u128>,
}

impl ProgressThrottle {
    /// When the last report went out, in milliseconds.
    pub closed spec fn last_emit(&self) -> Option<u128> {
        self.last_emit_ms
    }

    /// A throttle that has let nothing through yet.
    pub fn new() -> (r: Self)
        ensures
            r.last_emit() is None,
    {
        ProgressThrottle { last_emit_ms: None }
    }

    /// Whether a report may go out at `now_ms`: the first always may, later ones only
    /// 20 ms or more after the last one let through (a clock reading before it counts
    /// as no time elapsed). A report let through becomes the last one.
    pub fn allow(&mut self, now_ms: u128) -> (r: bool)
        ensures
            r == !(old(self).last_emit() matches Some(t) && now_ms < t + PROGRESS_MIN_INTERVAL_MS),
            final(self).last_emit() == if r { Some(now_ms) } else { old(self).last_emit() },
    {
        match self.last_emit_ms {
            Some(t) => {
                if now_ms < t || now_ms - t < PROGRESS_MIN_INTERVAL_MS {
                    return false;
                }
            },
            None => {},
        }
        self.last_emit_ms = Some(now_ms);
        true
    }
}

/// How many files a scan may analyse and which extensions it looks at (all when the
/// list is empty).
pub struct LocationScanOptions {
    pub max_files: usize,
    pub extensions: Vec<String>,
}

impl Default for LocationScanOptions {
    /// At most 5000 files, every extension.
    fn default() -> (r: Self)
        ensures
            r.max_files == DEFAULT_LOCATION_SCAN_MAX_FILES,
            r.extensions@.len() == 0,
    {
        LocationScanOptions { max_files: DEFAULT_LOCATION_SCAN_MAX_FILES, extensions: Vec::new() }
    }
}

/// A file found risky during a location scan.
pub struct ThreatHit {
    pub file_path: String,
    pub file_name: String,
    pub risk_score: i32,
    pub risk_level: String,
    pub top_category: String,
}

impl ThreatHit {
    /// The hit for the outcome of a file scan, named by its first finding's category, or its risk level
    /// when there is no finding.
    pub fn from_verdict(file_path: &str, file_name: &str, v: &FileVerdict) -> (r: ThreatHit)
        ensures
            r.file_path@ == file_path@,
            r.file_name@ == file_name@,
            r.risk_score == v.risk_score,
            r.risk_level@ == v.risk_level@,
            r.top_category@ == if v.findings@.len() > 0 {
                v.findings@[0].category@
            } else {
                v.risk_level@
            },
    {
        let top = if v.findings.len() > 0 {
            v.findings[0].category.clone()
        } else {
            v.risk_level.clone()
        };
        ThreatHit {
            file_path: String::from_str(file_path),
            file_name: String::from_str(file_name),
            risk_score: v.risk_score,
            risk_level: v.risk_level.clone(),
            top_category: top,
        }
    }
}

/// Number of hits among `t` whose level is `MALICIOUS`.
pub open spec fn malicious_in(t: Seq<ThreatHit>) -> nat
    decreases t.len(),
{
    if t.len() == 0 {
        0
    } else {
        malicious_in(t.drop_last()) + if t.last().risk_level@ == "MALICIOUS"@ {
            1nat
        } else {
            0nat
        }
    }
}

/// What a location scan found and how it ended.
pub struct LocationScanReport {
    pub root: String,
    pub files_scanned: usize,
    pub files_skipped: usize,
    pub directories_visited: usize,
    pub threats: Vec<ThreatHit>,
    pub cancelled: bool,
    pub budget_reached: bool,
    pub elapsed_ms: u128,
}

impl LocationScanReport {
    /// The report of a scan of `root` that has done nothing yet.
    pub fn empty(root: &str) -> (r: Self)
        ensures
            r.root@ == root@,
            r.files_scanned == 0 && r.files_skipped == 0 && r.directories_visited == 0,
            r.threats@.len() == 0,
            !r.cancelled && !r.budget_reached,
            r.elapsed_ms == 0,
    {
        LocationScanReport {
            root: String::from_str(root),
            files_scanned: 0,
            files_skipped: 0,
            directories_visited: 0,
            threats: Vec::new(),
            cancelled: false,
            budget_reached: false,
            elapsed_ms: 0,
        }
    }

    /// Number of hits rated malicious.
    pub fn malicious_count(&self) -> (r: usize)
        ensures
            r == malicious_in(self.threats@),
    {
        let mut n: usize = 0;
        let mut i: usize = 0;
        assert(self.threats@.subrange(0, 0) =~= Seq::<ThreatHit>::empty());
        while i < self.threats.len()
            invariant
                i <= self.threats@.len(),
                n == malicious_in(self.threats@.subrange(0, i as int)),
                n <= i,
            decreases self.threats@.len() - i,
        {
            proof {
                assert(self.threats@.subrange(0, i + 1).drop_last() =~= self.threats@.subrange(0, i as int));
            }
            let lv = chars_of(self.threats[i].risk_level.as_str());
            if eq_str(lv.as_slice(), "MALICIOUS") {
                n += 1;
            }
            i += 1;
        }
        assert(self.threats@.subrange(0, self.threats@.len() as int) =~= self.threats@);
        n
    }

    /// Checks, before the next directory or entry, whether the walk must stop: a
    /// cancellation marks the report cancelled, an exhausted budget marks it so.
    pub fn should_stop(&mut self, cancel_requested: bool, max_files: usize) -> (r: bool)
        ensures
            r == (cancel_requested || old(self).files_scanned >= max_files),
            final(self).cancelled == (old(self).cancelled || cancel_requested),
            final(self).budget_reached == (old(self).budget_reached || (!cancel_requested
                && old(self).files_scanned >= max_files)),
            final(self).files_scanned == old(self).files_scanned,
            final(self).files_skipped == old(self).files_skipped,
            final(self).directories_visited == old(self).directories_visited,
            final(self).threats@ == old(self).threats@,
    {
        if cancel_requested {
            self.cancelled = true;
            return true;
        }
        if self.files_scanned >= max_files {
            self.budget_reached = true;
            return true;
        }
        false
    }

    /// Counts a directory whose entries could be listed.
    pub fn directory_opened(&mut self)
        requires
            old(self).directories_visited < usize::MAX,
        ensures
            final(self).directories_visited == old(self).directories_visited + 1,
            final(self).files_scanned == old(self).files_scanned,
            final(self).files_skipped == old(self).files_skipped,
            final(self).threats@ == old(self).threats@,
    {
        self.directories_visited = self.directories_visited + 1;
    }

    /// Counts a file that could not be analysed (unreadable, empty or too large).
    pub fn file_skipped(&mut self)
        requires
            old(self).files_skipped < usize::MAX,
        ensures
            final(self).files_skipped == old(self).files_skipped + 1,
            final(self).files_scanned == old(self).files_scanned,
            final(self).directories_visited == old(self).directories_visited,
            final(self).threats@ == old(self).threats@,
    {
        self.files_skipped = self.files_skipped + 1;
    }

    /// Counts an analysed file: a suspicious or malicious verdict adds a hit. Returns
    /// whether progress is reported now: every 16th file, if the throttle lets it.
    pub fn file_scanned(
        &mut self,
        file_path: &str,
        file_name: &str,
        verdict: &FileVerdict,
        throttle: &mut ProgressThrottle,
        now_ms: u128,
    ) -> (r: bool)
        requires
            old(self).files_scanned < usize::MAX,
        ensures
            final(self).files_scanned == old(self).files_scanned + 1,
            final(self).files_skipped == old(self).files_skipped,
            final(self).directories_visited == old(self).directories_visited,
            is_threat_level_spec(verdict.risk_level@) ==> final(self).threats@.len() == old(self).threats@.len() + 1
                && final(self).threats@.drop_last() == old(self).threats@ && final(self).threats@.last().file_path@
                == file_path@ && final(self).threats@.last().risk_level@ == verdict.risk_level@,
            !is_threat_level_spec(verdict.risk_level@) ==> final(self).threats@ == old(self).threats@,
            final(self).files_scanned % PROGRESS_NOTIFY_EVERY != 0 ==> !r && *final(throttle) == *old(throttle),
            final(self).files_scanned % PROGRESS_NOTIFY_EVERY == 0 ==> r == !(old(throttle).last_emit() matches Some(t)
                && now_ms < t + PROGRESS_MIN_INTERVAL_MS),
    {
        self.files_scanned = self.files_scanned + 1;
        if is_threat_level(verdict.risk_level.as_str()) {
            let ghost before = self.threats@;
            let hit = ThreatHit::from_verdict(file_path, file_name, verdict);
            self.threats.push(hit);
            assert(self.threats@.drop_last() =~= before);
        }
        if self.files_scanned % PROGRESS_NOTIFY_EVERY == 0 {
            throttle.allow(now_ms)
        } else {
            false
        }
    }
}

/// `MALICIOUS` and `SUSPICIOUS` verdicts are threats.
pub open spec fn is_threat_level_spec(level: Seq<char>) -> bool {
    level == "MALICIOUS"@ || level == "SUSPICIOUS"@
}

/// Whether a risk level counts as a threat.
pub fn is_threat_level(level: &str) -> (r: bool)
    ensures
        r == is_threat_level_spec(level@),
{
    let l = chars_of(level);
    eq_str(l.as_slice(), "MALICIOUS") || eq_str(l.as_slice(), "SUSPICIOUS")
}

/// Number of trailing path separators (`\` or `/`) of `s`.
pub open spec fn trail_seps(s: Seq<char>) -> nat
    decreases s.len(),
{
    if s.len() > 0 && (s.last() == '\\' || s.last() == '/') {
        1 + trail_seps(s.drop_last())
    } else {
        0
    }
}

/// `path` is `root` or lies under it, compared case-insensitively for ASCII, with
/// trailing separators of the root ignored; a sibling that merely shares the prefix
/// (`C:\Program Files Evil`) is not covered.
pub open spec fn spec_path_covered_by(path: Seq<char>, root: Seq<char>) -> bool {
    let p = lower_seq(path);
    let r0 = lower_seq(root);
    let r = r0.subrange(0, r0.len() - trail_seps(r0));
    p == r || (starts_with(p, r) && p.len() > r.len() && (p[r.len() as int] == '\\' || p[r.len() as int] == '/'))
}

proof fn lemma_trail_seps_bound(s: Seq<char>)
    ensures
        trail_seps(s) <= s.len(),
    decreases s.len(),
{
    if s.len() > 0 && (s.last() == '\\' || s.last() == '/') {
        lemma_trail_seps_bound(s.drop_last());
    }
}

/// Whether `path` is `root` or lies inside it.
pub fn path_covered_by(path: &str, root: &str) -> (r: bool)
    ensures
        r == spec_path_covered_by(path@, root@),
{
    let pc = chars_of(path);
    let p = lower_vec(pc.as_slice());
    let rc = chars_of(root);
    let r0 = lower_vec(rc.as_slice());
    let mut n: usize = r0.len();
    proof {
        lemma_trail_seps_bound(r0@);
    }
    assert(r0@.subrange(0, r0@.len() as int) =~= r0@);
    while n > 0 && (r0[n - 1] == '\\' || r0[n - 1] == '/')
        invariant
            n <= r0@.len(),
            trail_seps(r0@) == (r0@.len() - n) + trail_seps(r0@.subrange(0, n as int)),
        decreases n,
    {
        proof {
            assert(r0@.subrange(0, n as int).drop_last() =~= r0@.subrange(0, n - 1));
        }
        n -= 1;
    }
    assert(r0@.subrange(0, r0@.len() as int) =~= r0@);
    let r = crate::text::slice_vec(r0.as_slice(), 0, n);
    if eq_chars(p.as_slice(), r.as_slice()) {
        return true;
    }
    if p.len() > r.len() && crate::text::occurs_at_exec(p.as_slice(), r.as_slice(), 0) {
        let c = p[r.len()];
        c == '\\' || c == '/'
    } else {
        false
    }
}

/// A directory is skipped when a protected root covers it or its name, in ASCII
/// lower case, is one of the noise directories.
pub open spec fn spec_skippable(path: Seq<char>, name: Option<Seq<char>>, roots: Seq<Seq<char>>) -> bool {
    (exists|i: int| 0 <= i < roots.len() && spec_path_covered_by(path, #[trigger] roots[i])) || match name {
        Some(n) => crate::security::file_analyzer::strs_view(NOISE_DIR_NAMES@).contains(lower_seq(n)),
        None => false,
    }
}

/// Whether a directory is skipped: it lies under a protected system root, or its
/// name (`name`, the last component when there is one) is a noise directory.
pub fn is_skippable_dir(path: &str, name: Option<&str>, roots: &[String]) -> (r: bool)
    ensures
        r == spec_skippable(
            path@,
            match name {
                Some(n) => Some(n@),
                None => None,
            },
            crate::config::texts(roots@),
        ),
{
    let ghost rs = crate::config::texts(roots@);
    let mut i: usize = 0;
    while i < roots.len()
        invariant
            i <= roots@.len(),
            rs == crate::config::texts(roots@),
            forall|j: int| 0 <= j < i ==> !spec_path_covered_by(path@, #[trigger] rs[j]),
        decreases roots@.len() - i,
    {
        if path_covered_by(path, roots[i].as_str()) {
            assert(spec_path_covered_by(path@, rs[i as int]));
            return true;
        }
        i += 1;
    }
    match name {
        Some(n) => {
            let nc = chars_of(n);
            let lower = lower_vec(nc.as_slice());
            crate::security::file_analyzer::contains_text(&NOISE_DIR_NAMES, lower.as_slice())
        },
        None => false,
    }
}

/// `s` without its leading dots.
pub open spec fn without_leading_dots(s: Seq<char>) -> Seq<char> {
    s.subrange(crate::security::file_analyzer::tokens::lead_char(s, '.') as int, s.len() as int)
}

/// A file passes the extension filter when there is none, or when its extension,
/// leading dots removed, equals a wanted one up to ASCII case.
pub open spec fn spec_extension_allowed(ext: Option<Seq<char>>, wanted: Seq<Seq<char>>) -> bool {
    wanted.len() == 0 || match ext {
        Some(e) => exists|i: int| 0 <= i < wanted.len() && lower_seq(#[trigger] wanted[i]) == lower_seq(without_leading_dots(e)),
        None => false,
    }
}

/// Whether a file with extension `ext` passes the extension filter.
pub fn extension_allowed(ext: Option<&str>, extensions: &[String]) -> (r: bool)
    ensures
        r == spec_extension_allowed(
            match ext {
                Some(e) => Some(e@),
                None => None,
            },
            crate::config::texts(extensions@),
        ),
{
    if extensions.len() == 0 {
        return true;
    }
    let e = match ext {
        Some(e) => e,
        None => {
            return false;
        },
    };
    let ec = chars_of(e);
    let mut a: usize = 0;
    while a < ec.len() && ec[a] == '.'
        invariant
            a <= ec@.len(),
            forall|j: int| 0 <= j < a ==> ec@[j] == '.',
        decreases ec@.len() - a,
    {
        a += 1;
    }
    proof {
        crate::security::file_analyzer::tokens::lemma_lead_char(ec@, '.', a as int);
    }
    let bare = crate::text::slice_vec(ec.as_slice(), a, ec.len());
    let bl = lower_vec(bare.as_slice());
    let ghost ws = crate::config::texts(extensions@);
    let mut i: usize = 0;
    while i < extensions.len()
        invariant
            i <= extensions@.len(),
            ws == crate::config::texts(extensions@),
            bl@ == lower_seq(without_leading_dots(e@)),
            ext == Some(e),
            extensions@.len() > 0,
            forall|j: int| 0 <= j < i ==> lower_seq(#[trigger] ws[j]) != bl@,
        decreases extensions@.len() - i,
    {
        let wc = chars_of(extensions[i].as_str());
        let wl = lower_vec(wc.as_slice());
        if eq_chars(wl.as_slice(), bl.as_slice()) {
            assert(lower_seq(ws[i as int]) == bl@);
            assert(exists|j: int| 0 <= j < ws.len() && lower_seq(#[trigger] ws[j]) == lower_seq(without_leading_dots(e@)));
            return true;
        }
        i += 1;
    }
    false
}

/// Whether a file of `len` bytes is analysed: empty and oversized files are skipped.
pub fn size_scannable(len: u64) -> (r: bool)
    ensures
        r == (len > 0 && len <= MAX_SCANNABLE_BYTES),
{
    len > 0 && len <= MAX_SCANNABLE_BYTES
}

} // verus!
