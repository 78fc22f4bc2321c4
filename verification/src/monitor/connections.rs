//! The table of active network connections: reading `netstat -ano` lines, naming the
//! owning processes, and grouping the connections per application.
use vstd::prelude::*;
use crate::text::{
    chars_of, decimal, eq_str, names_of, spec_decimal, spec_unicode_lowercase, spec_unicode_uppercase,
    trim, unicode_lowercase, unicode_uppercase, ws_tokens, ws_tokens_vec,
};

verus! {

/// One open connection (or bound UDP endpoint) and the process that owns it.
pub struct ActiveConnection {
    pub process_name: String,
    pub pid: u32,
    pub local_addr: String,
    pub remote_addr: String,
    pub protocol: String,
    pub state: String,
    pub is_safe: bool,
}

/// The connections of one process, summarised for display.
pub struct AppConnectionGroup {
    pub process_name: String,
    pub pid: u32,
    pub connection_count: usize,
    pub destinations_summary: String,
    pub protocol_summary: String,
    pub state_summary: String,
    pub is_safe: bool,
}

/// The most connections the table keeps.
pub const MAX_CONNECTIONS: usize = 150;

/// The texts and numbers of a connection.
pub open spec fn conn_view(c: ActiveConnection) -> (Seq<char>, u32, Seq<char>, Seq<char>, Seq<char>, Seq<char>, bool) {
    (c.process_name@, c.pid, c.local_addr@, c.remote_addr@, c.protocol@, c.state@, c.is_safe)
}

/// A process name that names known malware families is not safe: after Unicode
/// lower-casing it mentions `malware`, `trojan` or `miner`.
pub open spec fn spec_name_is_safe(name: Seq<char>) -> bool {
    let l = spec_unicode_lowercase(name);
    !crate::text::contains_seq(l, "malware"@) && !crate::text::contains_seq(l, "trojan"@)
        && !crate::text::contains_seq(l, "miner"@)
}

/// Whether a process name looks safe.
pub fn process_name_is_safe(name: &str) -> (r: bool)
    ensures
        r == spec_name_is_safe(name@),
{
    let l = unicode_lowercase(name);
    let c = chars_of(l.as_str());
    !crate::text::contains_str(c.as_slice(), "malware") && !crate::text::contains_str(c.as_slice(), "trojan")
        && !crate::text::contains_str(c.as_slice(), "miner")
}

/// The name of a TCP connection state as the system table numbers it.
pub open spec fn spec_tcp_state(state: u32) -> Seq<char> {
    if state == 2 {
        "LISTENING"@
    } else if state == 3 {
        "SYN_SENT"@
    } else if state == 4 {
        "SYN_RCVD"@
    } else if state == 5 {
        "ESTABLISHED"@
    } else if state == 6 {
        "FIN_WAIT1"@
    } else if state == 7 {
        "FIN_WAIT2"@
    } else if state == 8 {
        "CLOSE_WAIT"@
    } else if state == 9 {
        "CLOSING"@
    } else if state == 10 {
        "LAST_ACK"@
    } else if state == 11 {
        "TIME_WAIT"@
    } else if state == 12 {
        "DELETE_TCB"@
    } else {
        "ACTIVE"@
    }
}

/// The name of a TCP state number.
pub fn tcp_state_name(state: u32) -> (r: &'static str)
    ensures
        r@ == spec_tcp_state(state),
{
    if state == 2 {
        "LISTENING"
    } else if state == 3 {
        "SYN_SENT"
    } else if state == 4 {
        "SYN_RCVD"
    } else if state == 5 {
        "ESTABLISHED"
    } else if state == 6 {
        "FIN_WAIT1"
    } else if state == 7 {
        "FIN_WAIT2"
    } else if state == 8 {
        "CLOSE_WAIT"
    } else if state == 9 {
        "CLOSING"
    } else if state == 10 {
        "LAST_ACK"
    } else if state == 11 {
        "TIME_WAIT"
    } else if state == 12 {
        "DELETE_TCB"
    } else {
        "ACTIVE"
    }
}

/// The first known name of process `pid`.
pub open spec fn known_name(known: Seq<(u32, String)>, pid: u32, i: int) -> Option<Seq<char>>
    decreases known.len() - i,
{
    if i < 0 || i >= known.len() {
        None
    } else if known[i].0 == pid {
        Some(known[i].1@)
    } else {
        known_name(known, pid, i + 1)
    }
}

/// The name shown for process `pid`: its known name, else `System Idle` for pid 0 of
/// a TCP connection, `System Core` for pid 4, `PID: n` otherwise.
pub open spec fn spec_process_name(known: Seq<(u32, String)>, pid: u32, tcp: bool) -> Seq<char> {
    match known_name(known, pid, 0) {
        Some(n) => n,
        None => if pid == 0 && tcp {
            "System Idle"@
        } else if pid == 4 {
            "System Core"@
        } else {
            "PID: "@ + spec_decimal(pid as nat)
        },
    }
}

/// The name to show for process `pid`, from the known process names.
pub fn connection_process_name(known: &[(u32, String)], pid: u32, tcp: bool) -> (r: String)
    ensures
        r@ == spec_process_name(known@, pid, tcp),
{
    let mut i: usize = 0;
    while i < known.len()
        invariant
            i <= known@.len(),
            known_name(known@, pid, 0) == known_name(known@, pid, i as int),
        decreases known@.len() - i,
    {
        if known[i].0 == pid {
            return known[i].1.clone();
        }
        i += 1;
    }
    if pid == 0 && tcp {
        String::from_str("System Idle")
    } else if pid == 4 {
        String::from_str("System Core")
    } else {
        let mut s = String::from_str("PID: ");
        s.append(decimal(pid as u128).as_str());
        s
    }
}

/// The value of a run of decimal digits.
pub open spec fn digits_value(s: Seq<char>) -> int
    decreases s.len(),
{
    if s.len() == 0 {
        0
    } else {
        digits_value(s.drop_last()) * 10 + ((s.last() as u32) - 48)
    }
}

/// Every character is an ASCII digit.
pub open spec fn all_digits(s: Seq<char>) -> bool {
    forall|i: int| 0 <= i < s.len() ==> '0' <= #[trigger] s[i] <= '9'
}

/// The unsigned 32-bit number a text spells, as `str::parse` reads one: an optional
/// `+`, then at least one digit, and no more than `u32::MAX`.
pub open spec fn spec_parse_u32(s: Seq<char>) -> Option<u32> {
    let d = if s.len() > 0 && s[0] == '+' {
        s.drop_first()
    } else {
        s
    };
    if d.len() > 0 && all_digits(d) && digits_value(d) <= u32::MAX {
        Some(digits_value(d) as u32)
    } else {
        None
    }
}

proof fn lemma_digits_value_grows(s: Seq<char>, n: int)
    requires
        0 <= n <= s.len(),
        all_digits(s),
    ensures
        0 <= digits_value(s.subrange(0, n)) <= digits_value(s),
    decreases s.len() - n,
{
    if n < s.len() {
        lemma_digits_value_grows(s, n + 1);
        assert(s.subrange(0, n + 1).drop_last() =~= s.subrange(0, n));
        lemma_digits_value_nonneg(s.subrange(0, n));
    } else {
        assert(s.subrange(0, n) =~= s);
        lemma_digits_value_nonneg(s);
    }
}

proof fn lemma_digits_value_nonneg(s: Seq<char>)
    requires
        all_digits(s),
    ensures
        digits_value(s) >= 0,
    decreases s.len(),
{
    if s.len() > 0 {
        assert(all_digits(s.drop_last()));
        lemma_digits_value_nonneg(s.drop_last());
        assert('0' <= s[s.len() - 1]);
    }
}

/// The process id of a `netstat` column, 0 when it is not a number.
pub fn parse_pid(s: &[char]) -> (r: u32)
    ensures
        r == match spec_parse_u32(s@) {
            Some(v) => v,
            None => 0,
        },
{
    let start: usize = if s.len() > 0 && s[0] == '+' {
        1
    } else {
        0
    };
    let ghost d = if s@.len() > 0 && s@[0] == '+' {
        s@.drop_first()
    } else {
        s@
    };
    assert(d =~= s@.subrange(start as int, s@.len() as int));
    if start >= s.len() {
        return 0;
    }
    let mut v: u64 = 0;
    let mut i: usize = start;
    while i < s.len()
        invariant
            start <= i <= s@.len(),
            start < s@.len(),
            d == s@.subrange(start as int, s@.len() as int),
            d == if s@.len() > 0 && s@[0] == '+' {
                s@.drop_first()
            } else {
                s@
            },
            all_digits(d.subrange(0, i - start)),
            v == digits_value(d.subrange(0, i - start)),
            v <= u32::MAX,
        decreases s@.len() - i,
    {
        let c = s[i];
        if c < '0' || c > '9' {
            assert(!all_digits(d)) by {
                assert(d[i - start] == c);
            }
            return 0;
        }
        assert(d.subrange(0, i + 1 - start).drop_last() =~= d.subrange(0, i - start));
        let nv = v * 10 + ((c as u32) - 48) as u64;
        if nv > u32::MAX as u64 {
            proof {
                assert(all_digits(d.subrange(0, i + 1 - start)));
                if all_digits(d) {
                    lemma_digits_value_grows(d, i + 1 - start);
                }
            }
            return 0;
        }
        v = nv;
        i += 1;
    }
    assert(d.subrange(0, i - start) =~= d);
    v as u32
}

/// The fields of a `netstat -ano` line, if it describes a connection to keep: a TCP
/// line has protocol, local and remote address, state and process id; a UDP line
/// has protocol, local and remote address and process id. TCP lines towards no
/// remote (`*:*`, `0.0.0.0:0`, `[::]:0`) and unbound UDP lines (`*:*`) are skipped.
pub open spec fn spec_netstat_line(line: Seq<char>, known: Seq<(u32, String)>) -> Option<
    (Seq<char>, u32, Seq<char>, Seq<char>, Seq<char>, Seq<char>, bool),
> {
    let p = ws_tokens(trim(line));
    if p.len() == 0 {
        None
    } else {
        let proto = spec_unicode_uppercase(p[0]);
        if proto == "TCP"@ && p.len() >= 5 {
            let pid = match spec_parse_u32(p[4]) {
                Some(v) => v,
                None => 0,
            };
            if p[2] == "*:*"@ || p[2] == "0.0.0.0:0"@ || p[2] == "[::]:0"@ {
                None
            } else {
                let name = spec_process_name(known, pid, true);
                Some((name, pid, p[1], p[2], "TCP"@, p[3], spec_name_is_safe(name)))
            }
        } else if proto == "UDP"@ && p.len() >= 4 {
            let pid = match spec_parse_u32(p[3]) {
                Some(v) => v,
                None => 0,
            };
            if p[2] == "*:*"@ {
                None
            } else {
                Some((spec_process_name(known, pid, false), pid, p[1], p[2], "UDP"@, "ACTIVE"@, true))
            }
        } else {
            None
        }
    }
}

/// The connection a `netstat -ano` line describes, naming its process from `known`.
pub fn parse_netstat_line(line: &str, known: &[(u32, String)]) -> (r: Option<ActiveConnection>)
    ensures
        match r {
            Some(c) => spec_netstat_line(line@, known@) == Some(conn_view(c)),
            None => spec_netstat_line(line@, known@) is None,
        },
{
    let lc = chars_of(line);
    let t = crate::text::trim_vec(lc.as_slice());
    let parts = ws_tokens_vec(t.as_slice());
    let ghost p = ws_tokens(trim(line@));
    assert(names_of(parts@) == p);
    if parts.len() == 0 {
        return None;
    }
    assert(parts@[0]@ == p[0]);
    let p0 = crate::text::string_from_chars(parts[0].as_slice());
    let proto = unicode_uppercase(p0.as_str());
    let pc = chars_of(proto.as_str());
    if eq_str(pc.as_slice(), "TCP") && parts.len() >= 5 {
        assert(parts@[1]@ == p[1] && parts@[2]@ == p[2] && parts@[3]@ == p[3] && parts@[4]@ == p[4]);
        let pid = parse_pid(parts[4].as_slice());
        let remote = parts[2].as_slice();
        if eq_str(remote, "*:*") || eq_str(remote, "0.0.0.0:0") || eq_str(remote, "[::]:0") {
            return None;
        }
        let name = connection_process_name(known, pid, true);
        let safe = process_name_is_safe(name.as_str());
        Some(
            ActiveConnection {
                process_name: name,
                pid,
                local_addr: crate::text::string_from_chars(parts[1].as_slice()),
                remote_addr: crate::text::string_from_chars(remote),
                protocol: String::from_str("TCP"),
                state: crate::text::string_from_chars(parts[3].as_slice()),
                is_safe: safe,
            },
        )
    } else if eq_str(pc.as_slice(), "UDP") && parts.len() >= 4 {
        assert(parts@[1]@ == p[1] && parts@[2]@ == p[2] && parts@[3]@ == p[3]);
        let pid = parse_pid(parts[3].as_slice());
        let remote = parts[2].as_slice();
        if eq_str(remote, "*:*") {
            return None;
        }
        Some(
            ActiveConnection {
                process_name: connection_process_name(known, pid, false),
                pid,
                local_addr: crate::text::string_from_chars(parts[1].as_slice()),
                remote_addr: crate::text::string_from_chars(remote),
                protocol: String::from_str("UDP"),
                state: String::from_str("ACTIVE"),
                is_safe: true,
            },
        )
    } else {
        None
    }
}

/// The connections kept from a table read: the first 150.
pub fn keep_first_connections(list: &mut Vec<ActiveConnection>)
    ensures
        final(list)@ == if old(list)@.len() > 150 {
            old(list)@.subrange(0, 150)
        } else {
            old(list)@
        },
{
    if list.len() > MAX_CONNECTIONS {
        list.truncate(MAX_CONNECTIONS);
    }
}

/// The process a connection belongs to: its name and id.
pub open spec fn conn_key(c: ActiveConnection) -> (Seq<char>, u32) {
    (c.process_name@, c.pid)
}

/// The connections among the first `n` that belong to process `k`, in order.
pub open spec fn group_list(conns: Seq<ActiveConnection>, k: (Seq<char>, u32), n: int) -> Seq<ActiveConnection>
    decreases n,
{
    if n <= 0 {
        Seq::empty()
    } else {
        let g = group_list(conns, k, n - 1);
        if conn_key(conns[n - 1]) == k {
            g.push(conns[n - 1])
        } else {
            g
        }
    }
}

/// The distinct remote addresses of the first `n` connections, in order of first
/// appearance.
pub open spec fn remotes_of(g: Seq<ActiveConnection>, n: int) -> Seq<Seq<char>>
    decreases n,
{
    if n <= 0 {
        Seq::empty()
    } else {
        let r = remotes_of(g, n - 1);
        if r.contains(g[n - 1].remote_addr@) {
            r
        } else {
            r.push(g[n - 1].remote_addr@)
        }
    }
}

/// The destinations column: up to two addresses joined by `, `, or the first two
/// and how many others there are.
pub open spec fn destinations_text(r: Seq<Seq<char>>) -> Seq<char> {
    if r.len() == 0 {
        Seq::empty()
    } else if r.len() == 1 {
        r[0]
    } else if r.len() == 2 {
        r[0] + ", "@ + r[1]
    } else {
        r[0] + ", "@ + r[1] + " (+"@ + spec_decimal((r.len() - 2) as nat) + " khác)"@
    }
}

/// Some connection of `g` uses protocol `p`.
pub open spec fn any_protocol(g: Seq<ActiveConnection>, p: Seq<char>) -> bool {
    exists|i: int| 0 <= i < g.len() && (#[trigger] g[i]).protocol@ == p
}

/// Some connection of `g` is in state `st`.
pub open spec fn any_state(g: Seq<ActiveConnection>, st: Seq<char>) -> bool {
    exists|i: int| 0 <= i < g.len() && (#[trigger] g[i]).state@ == st
}

/// Every connection of `g` is safe.
pub open spec fn all_safe(g: Seq<ActiveConnection>) -> bool {
    forall|i: int| 0 <= i < g.len() ==> (#[trigger] g[i]).is_safe
}

/// The protocol column: `TCP/UDP` with both, else `TCP` with TCP, else `UDP`.
pub open spec fn protocol_text(g: Seq<ActiveConnection>) -> Seq<char> {
    if any_protocol(g, "TCP"@) && any_protocol(g, "UDP"@) {
        "TCP/UDP"@
    } else if any_protocol(g, "TCP"@) {
        "TCP"@
    } else {
        "UDP"@
    }
}

/// The state column: `ESTABLISHED` if any is, else `ACTIVE` if any is, else the
/// first connection's state.
pub open spec fn state_text(g: Seq<ActiveConnection>) -> Seq<char> {
    if any_state(g, "ESTABLISHED"@) {
        "ESTABLISHED"@
    } else if any_state(g, "ACTIVE"@) {
        "ACTIVE"@
    } else if g.len() > 0 {
        g[0].state@
    } else {
        "ACTIVE"@
    }
}

/// The texts and numbers of a group.
pub open spec fn group_view(gr: AppConnectionGroup) -> (Seq<char>, u32, usize, Seq<char>, Seq<char>, Seq<char>, bool) {
    (
        gr.process_name@,
        gr.pid,
        gr.connection_count,
        gr.destinations_summary@,
        gr.protocol_summary@,
        gr.state_summary@,
        gr.is_safe,
    )
}

/// The summary of process `k`'s connections among `conns`.
pub open spec fn group_summary(conns: Seq<ActiveConnection>, k: (Seq<char>, u32)) -> (
    Seq<char>,
    u32,
    usize,
    Seq<char>,
    Seq<char>,
    Seq<char>,
    bool,
) {
    let g = group_list(conns, k, conns.len() as int);
    (
        k.0,
        k.1,
        g.len() as usize,
        destinations_text(remotes_of(g, g.len() as int)),
        protocol_text(g),
        state_text(g),
        all_safe(g),
    )
}

proof fn lemma_group_list_len(conns: Seq<ActiveConnection>, k: (Seq<char>, u32), n: int)
    requires
        0 <= n <= conns.len(),
    ensures
        group_list(conns, k, n).len() <= n,
    decreases n,
{
    if n > 0 {
        lemma_group_list_len(conns, k, n - 1);
    }
}

proof fn lemma_remotes_len(g: Seq<ActiveConnection>, n: int)
    requires
        0 <= n,
    ensures
        remotes_of(g, n).len() <= n,
    decreases n,
{
    if n > 0 {
        lemma_remotes_len(g, n - 1);
    }
}

/// The summary of the connections of process `name`/`pid`.
pub fn summarize_group(conns: &[ActiveConnection], name: &str, pid: u32) -> (r: AppConnectionGroup)
    ensures
        group_view(r) == group_summary(conns@, (name@, pid)),
{
    let ghost k = (name@, pid);
    let nc = chars_of(name);
    let mut count: usize = 0;
    let mut safe = true;
    let mut remotes: Vec<String> = Vec::new();
    let mut tcp = false;
    let mut udp = false;
    let mut est = false;
    let mut active = false;
    let mut first_state: Option<String> = None;
    let mut i: usize = 0;
    while i < conns.len()
        invariant
            i <= conns@.len(),
            k == (name@, pid),
            nc@ == name@,
            ({
                let g = group_list(conns@, k, i as int);
                &&& count == g.len()
                &&& safe == all_safe(g)
                &&& crate::config::texts(remotes@) == remotes_of(g, g.len() as int)
                &&& tcp == any_protocol(g, "TCP"@)
                &&& udp == any_protocol(g, "UDP"@)
                &&& est == any_state(g, "ESTABLISHED"@)
                &&& active == any_state(g, "ACTIVE"@)
                &&& (match first_state {
                    Some(st) => g.len() > 0 && st@ == g[0].state@,
                    None => g.len() == 0,
                })
            }),
        decreases conns@.len() - i,
    {
        let c = &conns[i];
        let ghost g0 = group_list(conns@, k, i as int);
        proof {
            lemma_group_list_len(conns@, k, i as int);
        }
        let cn = chars_of(c.process_name.as_str());
        if c.pid == pid && crate::text::eq_chars(cn.as_slice(), nc.as_slice()) {
            let ghost g1 = g0.push(*c);
            assert(group_list(conns@, k, i + 1) == g1);
            count += 1;
            safe = safe && c.is_safe;
            let rc = chars_of(c.remote_addr.as_str());
            let mut seen = false;
            let mut j: usize = 0;
            while j < remotes.len()
                invariant
                    j <= remotes@.len(),
                    rc@ == c.remote_addr@,
                    !seen ==> forall|q: int| 0 <= q < j ==> remotes@[q]@ != rc@,
                    seen ==> exists|q: int| 0 <= q < remotes@.len() && remotes@[q]@ == rc@,
                decreases remotes@.len() - j,
            {
                if !seen {
                    let r = chars_of(remotes[j].as_str());
                    if crate::text::eq_chars(r.as_slice(), rc.as_slice()) {
                        seen = true;
                    }
                }
                j += 1;
            }
            let ghost rv = crate::config::texts(remotes@);
            proof {
                assert(remotes_of(g1, g1.len() as int - 1) =~= remotes_of(g0, g0.len() as int)) by {
                    lemma_remotes_prefix(g0, g1, g0.len() as int);
                }
                if seen {
                    let q = choose|q: int| 0 <= q < remotes@.len() && remotes@[q]@ == rc@;
                    assert(rv[q] == rc@);
                    assert(rv.contains(c.remote_addr@));
                } else {
                    assert(!rv.contains(c.remote_addr@)) by {
                        if rv.contains(c.remote_addr@) {
                            let q = choose|q: int| 0 <= q < rv.len() && rv[q] == c.remote_addr@;
                            assert(remotes@[q]@ == rv[q]);
                        }
                    }
                }
            }
            if !seen {
                remotes.push(c.remote_addr.clone());
                assert(crate::config::texts(remotes@) =~= rv.push(c.remote_addr@));
            }
            let pc = chars_of(c.protocol.as_str());
            let sc = chars_of(c.state.as_str());
            if eq_str(pc.as_slice(), "TCP") {
                tcp = true;
            }
            if eq_str(pc.as_slice(), "UDP") {
                udp = true;
            }
            if eq_str(sc.as_slice(), "ESTABLISHED") {
                est = true;
            }
            if eq_str(sc.as_slice(), "ACTIVE") {
                active = true;
            }
            if first_state.is_none() {
                first_state = Some(c.state.clone());
            }
            proof {
                assert(g1[g1.len() - 1] == *c);
                assert(forall|q: int| 0 <= q < g0.len() ==> g1[q] == g0[q]);
                assert(all_safe(g1) == (all_safe(g0) && c.is_safe));
                assert(any_protocol(g1, "TCP"@) == (any_protocol(g0, "TCP"@) || c.protocol@ == "TCP"@));
                assert(any_protocol(g1, "UDP"@) == (any_protocol(g0, "UDP"@) || c.protocol@ == "UDP"@));
                assert(any_state(g1, "ESTABLISHED"@) == (any_state(g0, "ESTABLISHED"@) || c.state@ == "ESTABLISHED"@));
                assert(any_state(g1, "ACTIVE"@) == (any_state(g0, "ACTIVE"@) || c.state@ == "ACTIVE"@));
            }
        } else {
            assert(conn_key(conns@[i as int]) != k) by {
                if conn_key(conns@[i as int]) == k {
                    assert(cn@ == nc@);
                }
            }
            assert(group_list(conns@, k, i + 1) == g0);
        }
        i += 1;
    }
    let ghost g = group_list(conns@, k, conns@.len() as int);
    proof {
        lemma_remotes_len(g, g.len() as int);
    }
    let n = remotes.len();
    let destinations = if n == 0 {
        String::new()
    } else if n == 1 {
        remotes[0].clone()
    } else {
        let mut d = remotes[0].clone();
        d.append(", ");
        d.append(remotes[1].as_str());
        if n > 2 {
            d.append(" (+");
            d.append(decimal((n - 2) as u128).as_str());
            d.append(" khác)");
        }
        d
    };
    proof {
        let rv = crate::config::texts(remotes@);
        if n >= 1 {
            assert(rv[0] == remotes@[0]@);
        }
        if n >= 2 {
            assert(rv[1] == remotes@[1]@);
        }
    }
    let protocol = if tcp && udp {
        String::from_str("TCP/UDP")
    } else if tcp {
        String::from_str("TCP")
    } else {
        String::from_str("UDP")
    };
    let state = if est {
        String::from_str("ESTABLISHED")
    } else if active {
        String::from_str("ACTIVE")
    } else {
        match first_state {
            Some(st) => st,
            None => String::from_str("ACTIVE"),
        }
    };
    AppConnectionGroup {
        process_name: String::from_str(name),
        pid,
        connection_count: count,
        destinations_summary: destinations,
        protocol_summary: protocol,
        state_summary: state,
        is_safe: safe,
    }
}

proof fn lemma_remotes_prefix(g0: Seq<ActiveConnection>, g1: Seq<ActiveConnection>, n: int)
    requires
        0 <= n <= g0.len(),
        n <= g1.len(),
        forall|q: int| 0 <= q < n ==> g1[q] == g0[q],
    ensures
        remotes_of(g1, n) == remotes_of(g0, n),
    decreases n,
{
    if n > 0 {
        lemma_remotes_prefix(g0, g1, n - 1);
    }
}

/// The processes owning the first `n` connections, each once, in order of first
/// appearance.
pub open spec fn distinct_keys(conns: Seq<ActiveConnection>, n: int) -> Seq<(Seq<char>, u32)>
    decreases n,
{
    if n <= 0 {
        Seq::empty()
    } else {
        let ks = distinct_keys(conns, n - 1);
        if ks.contains(conn_key(conns[n - 1])) {
            ks
        } else {
            ks.push(conn_key(conns[n - 1]))
        }
    }
}

/// The views of a list of groups.
pub open spec fn groups_view(v: Seq<AppConnectionGroup>) -> Seq<(Seq<char>, u32, usize, Seq<char>, Seq<char>, Seq<char>, bool)> {
    Seq::new(v.len(), |i: int| group_view(v[i]))
}

/// The summaries of the processes `ks`, in order.
pub open spec fn summaries(conns: Seq<ActiveConnection>, ks: Seq<(Seq<char>, u32)>) -> Seq<
    (Seq<char>, u32, usize, Seq<char>, Seq<char>, Seq<char>, bool),
> {
    Seq::new(ks.len(), |i: int| group_summary(conns, ks[i]))
}

/// The connections grouped per process: one group per distinct process name and id,
/// the groups with more connections first.
pub fn group_connections(conns: &[ActiveConnection]) -> (r: Vec<AppConnectionGroup>)
    ensures
        groups_view(r@).to_multiset() == summaries(conns@, distinct_keys(conns@, conns@.len() as int)).to_multiset(),
        forall|a: int, b: int| 0 <= a < b < r@.len() ==> (#[trigger] r@[a]).connection_count >= (#[trigger] r@[b]).connection_count,
{
    let mut names: Vec<String> = Vec::new();
    let mut pids: Vec<u32> = Vec::new();
    let mut i: usize = 0;
    while i < conns.len()
        invariant
            i <= conns@.len(),
            names@.len() == pids@.len(),
            distinct_keys(conns@, i as int) == Seq::new(names@.len(), |q: int| (names@[q]@, pids@[q])),
        decreases conns@.len() - i,
    {
        let ghost ks = distinct_keys(conns@, i as int);
        let c = &conns[i];
        let cn = chars_of(c.process_name.as_str());
        let mut found = false;
        let mut j: usize = 0;
        while j < names.len()
            invariant
                j <= names@.len(),
                names@.len() == pids@.len(),
                cn@ == c.process_name@,
                ks == Seq::new(names@.len(), |q: int| (names@[q]@, pids@[q])),
                !found ==> forall|q: int| 0 <= q < j ==> ks[q] != conn_key(*c),
                found ==> ks.contains(conn_key(*c)),
            decreases names@.len() - j,
        {
            if !found && pids[j] == c.pid {
                let nj = chars_of(names[j].as_str());
                if crate::text::eq_chars(nj.as_slice(), cn.as_slice()) {
                    found = true;
                    assert(ks[j as int] == conn_key(*c));
                }
            }
            j += 1;
        }
        if !found {
            names.push(c.process_name.clone());
            pids.push(c.pid);
            assert(Seq::new(names@.len(), |q: int| (names@[q]@, pids@[q])) =~= ks.push(conn_key(*c)));
        }
        i += 1;
    }
    let ghost ks = distinct_keys(conns@, conns@.len() as int);
    let mut out: Vec<AppConnectionGroup> = Vec::new();
    let mut t: usize = 0;
    proof {
        broadcast use vstd::seq_lib::group_to_multiset_ensures;

        assert(groups_view(out@) =~= Seq::empty());
        assert(summaries(conns@, ks.subrange(0, 0)) =~= Seq::empty());
    }
    while t < names.len()
        invariant
            t <= names@.len(),
            names@.len() == pids@.len(),
            ks == Seq::new(names@.len(), |q: int| (names@[q]@, pids@[q])),
            groups_view(out@).to_multiset() == summaries(conns@, ks.subrange(0, t as int)).to_multiset(),
            forall|a: int, b: int| 0 <= a < b < out@.len() ==> (#[trigger] out@[a]).connection_count >= (#[trigger] out@[b]).connection_count,
        decreases names@.len() - t,
    {
        let g = summarize_group(conns, names[t].as_str(), pids[t]);
        assert(ks[t as int] == (names@[t as int]@, pids@[t as int]));
        let mut pos: usize = 0;
        while pos < out.len() && out[pos].connection_count >= g.connection_count
            invariant
                pos <= out@.len(),
                forall|a: int| 0 <= a < pos ==> (#[trigger] out@[a]).connection_count >= g.connection_count,
            decreases out@.len() - pos,
        {
            pos += 1;
        }
        let ghost old_out = out@;
        let ghost gv = group_view(g);
        out.insert(pos, g);
        proof {
            broadcast use vstd::seq_lib::group_to_multiset_ensures;

            assert(groups_view(out@) =~= groups_view(old_out).insert(pos as int, gv));
            vstd::seq_lib::to_multiset_insert(groups_view(old_out), pos as int, gv);
            assert(summaries(conns@, ks.subrange(0, t + 1)) =~= summaries(conns@, ks.subrange(0, t as int)).push(gv));
            assert forall|a: int, b: int| 0 <= a < b < out@.len() implies (#[trigger] out@[a]).connection_count
                >= (#[trigger] out@[b]).connection_count by {
                if b < pos {
                    assert(out@[a] == old_out[a] && out@[b] == old_out[b]);
                } else if b == pos {
                    assert(out@[a] == old_out[a]);
                } else if a < pos {
                    assert(out@[a] == old_out[a] && out@[b] == old_out[b - 1]);
                    if pos < old_out.len() {
                        assert(old_out[a].connection_count >= old_out[b - 1].connection_count || a == b - 1);
                    }
                } else if a == pos {
                    assert(out@[b] == old_out[b - 1]);
                } else {
                    assert(out@[a] == old_out[a - 1] && out@[b] == old_out[b - 1]);
                }
            }
        }
        t += 1;
    }
    assert(ks.subrange(0, ks.len() as int) =~= ks);
    out
}

} // verus!
