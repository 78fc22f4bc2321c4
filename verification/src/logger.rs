//! The in-app console log: a bounded newest-first buffer with a change counter, and
//! the rules by which log events and old log files are handled.
use vstd::prelude::*;
use crate::security::file_analyzer::tokens::{trim_char, trim_char_text};
use crate::text::{chars_of, eq_str, starts_with, starts_with_str};

verus! {

/// One line of the in-app console.
pub struct AppConsoleLog {
    pub time: String,
    pub level: String,
    pub message: String,
}

/// A field-by-field copy of a console line.
pub fn copy_log(l: &AppConsoleLog) -> (r: AppConsoleLog)
    ensures
        r == *l,
{
    AppConsoleLog { time: l.time.clone(), level: l.level.clone(), message: l.message.clone() }
}

/// The lines after adding `e` in front of `lines` and keeping at most `max`.
pub open spec fn log_push(lines: Seq<AppConsoleLog>, e: AppConsoleLog, max: nat) -> Seq<AppConsoleLog> {
    let s = seq![e] + lines;
    if s.len() > max {
        s.subrange(0, max as int)
    } else {
        s
    }
}

/// The lines after pushing each of `es` in order onto `lines`, keeping at most `max`.
pub open spec fn log_pushes(lines: Seq<AppConsoleLog>, es: Seq<AppConsoleLog>, max: nat) -> Seq<AppConsoleLog>
    decreases es.len(),
{
    if es.len() == 0 {
        lines
    } else {
        log_push(log_pushes(lines, es.drop_last(), max), es.last(), max)
    }
}

/// The version after `n` changes starting from `v`.
pub open spec fn version_after(v: u64, n: nat) -> u64
    decreases n,
{
    if n == 0 {
        v
    } else {
        version_after(v, (n - 1) as nat).wrapping_add(1)
    }
}

/// Pushing lines `es` one after another into a new buffer of capacity `max` (whose
/// `push` steps are `log_push`, whose version starts at 1) leaves the last
/// `min(n, max)` of them, newest first, and, short of wrapping, version `1 + n`.
pub proof fn lemma_log_pushes(es: Seq<AppConsoleLog>, max: nat)
    ensures
        log_pushes(Seq::empty(), es, max).len() == if es.len() < max { es.len() } else { max },
        forall|i: int|
            0 <= i < log_pushes(Seq::empty(), es, max).len() ==> #[trigger] log_pushes(Seq::empty(), es, max)[i] == es[es.len() - 1
                - i],
        es.len() < u64::MAX ==> version_after(1, es.len()) == 1 + es.len(),
    decreases es.len(),
{
    if es.len() > 0 {
        let n = es.len();
        let p = es.drop_last();
        lemma_log_pushes(p, max);
        let l = log_pushes(Seq::empty(), p, max);
        let s = seq![es.last()] + l;
        assert forall|i: int| 0 <= i < log_pushes(Seq::empty(), es, max).len() implies #[trigger] log_pushes(
            Seq::empty(),
            es,
            max,
        )[i] == es[n - 1 - i] by {
            assert(log_pushes(Seq::empty(), es, max)[i] == s[i]);
            if i > 0 {
                assert(s[i] == l[i - 1]);
                assert(l[i - 1] == p[p.len() - 1 - (i - 1)]);
            }
        }
    }
}

/// The console buffer: newest line first, at most `max_entries` lines, and a version
/// that changes with every push and clear.
pub struct AppLogBuffer {
    logs: Vec<AppConsoleLog>,
    max_entries: usize,
    version: u64,
}

impl AppLogBuffer {
    /// The lines, newest first.
    pub closed spec fn lines(&self) -> Seq<AppConsoleLog> {
        self.logs@
    }

    /// The most lines kept.
    pub closed spec fn capacity(&self) -> nat {
        self.max_entries as nat
    }

    /// The change counter.
    pub closed spec fn version_number(&self) -> u64 {
        self.version
    }

    /// An empty buffer keeping at most `max_entries` lines, at version 1.
    pub fn new(max_entries: usize) -> (r: Self)
        ensures
            r.lines().len() == 0,
            r.capacity() == max_entries,
            r.version_number() == 1,
    {
        AppLogBuffer { logs: Vec::new(), max_entries, version: 1 }
    }

    /// The change counter.
    pub fn version(&self) -> (r: u64)
        ensures
            r == self.version_number(),
    {
        self.version
    }

    /// Adds a line logged at `time` in front, drops the oldest beyond the capacity, and
    /// advances the version.
    pub fn push_at(&mut self, level: &str, message: &str, time: &str)
        ensures
            final(self).lines().len() >= 1 ==> final(self).lines()[0].time@ == time@ && final(self).lines()[0].level@
                == level@ && final(self).lines()[0].message@ == message@,
            old(self).capacity() >= 1 ==> final(self).lines().len() >= 1,
            final(self).lines().len() >= 1 ==> final(self).lines() == log_push(old(self).lines(), final(self).lines()[0], old(self).capacity()),
            final(self).lines().len() == 0 <==> old(self).capacity() == 0,
            final(self).capacity() == old(self).capacity(),
            final(self).version_number() == old(self).version_number().wrapping_add(1),
            push_step(*old(self), *final(self), level@, message@),
    {
        let entry = AppConsoleLog {
            time: String::from_str(time),
            level: String::from_str(level),
            message: String::from_str(message),
        };
        let ghost e = entry;
        let ghost before = self.logs@;
        self.logs.insert(0, entry);
        assert(self.logs@ =~= seq![e] + before);
        if self.logs.len() > self.max_entries {
            self.logs.truncate(self.max_entries);
        }
        self.version = self.version.wrapping_add(1);
    }

    /// Adds a line logged now.
    pub fn push(&mut self, level: &str, message: &str)
        ensures
            final(self).lines().len() >= 1 ==> final(self).lines()[0].level@ == level@ && final(self).lines()[0].message@
                == message@ && final(self).lines()[0].time@.len() == 8,
            old(self).capacity() >= 1 ==> final(self).lines().len() >= 1,
            final(self).lines().len() >= 1 ==> final(self).lines() == log_push(old(self).lines(), final(self).lines()[0], old(self).capacity()),
            final(self).lines().len() == 0 <==> old(self).capacity() == 0,
            final(self).capacity() == old(self).capacity(),
            final(self).version_number() == old(self).version_number().wrapping_add(1),
            push_step(*old(self), *final(self), level@, message@),
    {
        let t = crate::security::local_clock_text();
        self.push_at(level, message, t.as_str());
    }

    /// A copy of the lines, newest first.
    pub fn get_logs(&self) -> (r: Vec<AppConsoleLog>)
        ensures
            r@ == self.lines(),
    {
        let mut out: Vec<AppConsoleLog> = Vec::new();
        let mut i: usize = 0;
        while i < self.logs.len()
            invariant
                i <= self.logs@.len(),
                out@ == self.logs@.subrange(0, i as int),
            decreases self.logs@.len() - i,
        {
            out.push(copy_log(&self.logs[i]));
            i += 1;
            assert(out@ =~= self.logs@.subrange(0, i as int));
        }
        assert(self.logs@.subrange(0, self.logs@.len() as int) =~= self.logs@);
        out
    }

    /// Removes every line and advances the version.
    pub fn clear(&mut self)
        ensures
            final(self).lines().len() == 0,
            final(self).capacity() == old(self).capacity(),
            final(self).version_number() == old(self).version_number().wrapping_add(1),
    {
        self.logs = Vec::new();
        self.version = self.version.wrapping_add(1);
    }
}

/// One push of a line with `level` and `message` taking buffer `a` to `b`: the line
/// goes in front, the oldest beyond the capacity drop, and the version advances.
pub open spec fn push_step(a: AppLogBuffer, b: AppLogBuffer, level: Seq<char>, message: Seq<char>) -> bool {
    &&& b.capacity() == a.capacity()
    &&& b.version_number() == a.version_number().wrapping_add(1)
    &&& (b.lines().len() == 0 <==> a.capacity() == 0)
    &&& (b.lines().len() >= 1 ==> b.lines() == log_push(a.lines(), b.lines()[0], a.capacity()) && b.lines()[0].level@
        == level && b.lines()[0].message@ == message)
}

/// After `n` pushes into a new buffer of capacity `m` (states `bs[0]` to `bs[n]`, line
/// `k` pushed with `levels[k]` and `msgs[k]`), the buffer holds `min(n, m)` lines,
/// newest first, so line `i` is push `n - 1 - i`, and, short of wrapping, the version
/// is `1 + n`.
pub proof fn lemma_push_sequence(bs: Seq<AppLogBuffer>, levels: Seq<Seq<char>>, msgs: Seq<Seq<char>>)
    requires
        bs.len() == levels.len() + 1,
        msgs.len() == levels.len(),
        bs[0].lines().len() == 0,
        bs[0].version_number() == 1,
        levels.len() < u64::MAX,
        forall|k: int| 0 <= k < levels.len() ==> #[trigger] push_step(bs[k], bs[k + 1], levels[k], msgs[k]),
    ensures
        bs.last().capacity() == bs[0].capacity(),
        bs.last().lines().len() == if levels.len() < bs[0].capacity() { levels.len() } else { bs[0].capacity() },
        forall|i: int|
            0 <= i < bs.last().lines().len() ==> #[trigger] bs.last().lines()[i].level@ == levels[levels.len() - 1 - i]
                && bs.last().lines()[i].message@ == msgs[levels.len() - 1 - i],
        bs.last().version_number() == 1 + levels.len(),
    decreases levels.len(),
{
    let n = levels.len() as int;
    if n > 0 {
        let pbs = bs.subrange(0, n);
        let pl = levels.subrange(0, n - 1);
        let pm = msgs.subrange(0, n - 1);
        assert forall|k: int| 0 <= k < pl.len() implies #[trigger] push_step(pbs[k], pbs[k + 1], pl[k], pm[k]) by {
            assert(push_step(bs[k], bs[k + 1], levels[k], msgs[k]));
        }
        lemma_push_sequence(pbs, pl, pm);
        let a = bs[n - 1];
        let b = bs[n];
        assert(pbs.last() == a);
        assert(push_step(a, b, levels[n - 1], msgs[n - 1]));
        if b.lines().len() >= 1 {
            let s = seq![b.lines()[0]] + a.lines();
            assert forall|i: int| 0 <= i < b.lines().len() implies #[trigger] b.lines()[i].level@ == levels[n - 1 - i]
                && b.lines()[i].message@ == msgs[n - 1 - i] by {
                assert(b.lines()[i] == s[i]);
                if i > 0 {
                    assert(s[i] == a.lines()[i - 1]);
                    assert(a.lines()[i - 1].level@ == pl[pl.len() - 1 - (i - 1)]);
                }
            }
        }
    }
}

/// Feeds log events into an in-app console buffer.
pub struct InAppTracingLayer {
    pub buffer: AppLogBuffer,
}

impl InAppTracingLayer {
    /// Records an event of `level` whose message text is `message`; events without
    /// text are dropped.
    pub fn on_event(&mut self, level: &str, message: &str)
        ensures
            message@.len() == 0 ==> final(self).buffer == old(self).buffer,
            message@.len() > 0 && final(self).buffer.lines().len() >= 1 ==> final(self).buffer.lines()[0].level@ == level@
                && final(self).buffer.lines()[0].message@ == message@,
            message@.len() > 0 ==> final(self).buffer.version_number() == old(self).buffer.version_number().wrapping_add(1),
    {
        let m = chars_of(message);
        if m.len() > 0 {
            self.buffer.push(level, message);
        }
    }
}

/// The message text after a field recorded through its debug rendering: the
/// `message` field gives its rendering without surrounding quotes; another field
/// gives `name: rendering` when no text was recorded yet.
pub open spec fn spec_record_debug(current: Seq<char>, field: Seq<char>, rendered: Seq<char>) -> Seq<char> {
    if field == "message"@ {
        trim_char(rendered, '"')
    } else if current.len() == 0 {
        field + ": "@ + rendered
    } else {
        current
    }
}

/// The message text after a field recorded through its debug rendering.
pub fn record_debug_text(current: &str, field: &str, rendered: &str) -> (r: String)
    ensures
        r@ == spec_record_debug(current@, field@, rendered@),
{
    let f = chars_of(field);
    if eq_str(f.as_slice(), "message") {
        trim_char_text(rendered, '"')
    } else if chars_of(current).len() == 0 {
        let mut s = String::from_str(field);
        s.append(": ");
        s.append(rendered);
        s
    } else {
        String::from_str(current)
    }
}

/// The message text after a field recorded as a string: only the `message` field
/// counts.
pub fn record_str_text(current: &str, field: &str, value: &str) -> (r: String)
    ensures
        r@ == if field@ == "message"@ { value@ } else { current@ },
{
    let f = chars_of(field);
    if eq_str(f.as_slice(), "message") {
        String::from_str(value)
    } else {
        String::from_str(current)
    }
}

/// A file of the logs directory is deleted when it is a dated rotation of the log
/// (`shield_ghita.log.` and a suffix) last modified before the retention cutoff; the
/// active log and unrelated files are kept.
pub fn is_expired_log(name: &str, modified_before_cutoff: bool) -> (r: bool)
    ensures
        r == (starts_with(name@, "shield_ghita.log."@) && name@ != "shield_ghita.log"@ && modified_before_cutoff),
{
    let n = chars_of(name);
    starts_with_str(n.as_slice(), "shield_ghita.log.") && !eq_str(n.as_slice(), "shield_ghita.log") && modified_before_cutoff
}

} // verus!
