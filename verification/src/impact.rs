//! Pre-flight impact of signalling a process: active TCP connections,
//! children, exclusive file locks, the owning systemd unit, and the
//! recommendation built from them.
use vstd::prelude::*;
use crate::text::{
    or_zero, or_zero_int, skip_first, append_chars, append_str, chars_of, contains_chars, contains_seq, dec, ends_with, eq_chars,
    fmt_dec, fmt_udec, join, join_chars, lines, parse_hex_u8, parse_hex_u8_chars, parse_i32,
    parse_i32_chars, parse_u64, parse_u64_chars, split_lines, split_whitespace, split_ws,
    string_of, views,
};
use crate::proc_text::{
    last_segment, last_segment_chars, stat_tail, stat_tail_chars, stat_tail_ok, third_field,
    third_field_chars,
};

verus! {

broadcast use vstd::string::group_string_axioms;

/// Structured description of the impact of sending a signal to a process.
#[derive(Debug, Clone)]
pub struct SignalImpact {
    /// Number of active TCP connections this process has.
    pub active_tcp_connections: usize,
    /// Number of direct child processes.
    pub child_process_count: usize,
    /// Whether the process holds any exclusive file locks.
    pub has_file_locks: bool,
    /// Detected systemd unit name (e.g. "nginx.service"), if any.
    pub systemd_unit: Option<String>,
    /// Human-readable recommendation.
    pub recommendation: String,
    /// Whether a graceful stop is preferred over a hard kill.
    pub prefer_graceful: bool,
}

// ─── Recommendation ──────────────────────────────────────────────────────────

/// The risk statements for the given facts, in order.
pub open spec fn risk_points(tcp: nat, children: nat, locks: bool, unit: Option<Seq<char>>) -> Seq<Seq<char>> {
    let p1: Seq<Seq<char>> = if tcp > 0 {
        seq![dec(tcp as int) + " active TCP connection(s) will be abruptly terminated by a hard kill"@]
    } else {
        Seq::empty()
    };
    let p2: Seq<Seq<char>> = if children > 0 {
        seq![dec(children as int) + " child process(es) will be orphaned or killed (depending on signal)"@]
    } else {
        Seq::empty()
    };
    let p3: Seq<Seq<char>> = if locks {
        seq!["process holds exclusive file lock(s) — hard kill may leave stale locks"@]
    } else {
        Seq::empty()
    };
    let p4: Seq<Seq<char>> = match unit {
        Some(u) => seq![
            "process is managed by systemd unit '"@ + u
                + "' — consider 'systemctl stop/restart' instead"@
        ],
        None => Seq::empty(),
    };
    p1 + p2 + p3 + p4
}

/// Whether a graceful stop is preferred: open TCP connections, exclusive
/// locks or a managing systemd unit.
pub open spec fn prefers_graceful(tcp: nat, locks: bool, unit: Option<Seq<char>>) -> bool {
    tcp > 0 || locks || unit is Some
}

/// The recommendation text for the given facts.
pub open spec fn recommendation_text(tcp: nat, children: nat, locks: bool, unit: Option<Seq<char>>) -> Seq<char> {
    let points = risk_points(tcp, children, locks, unit);
    if points.len() == 0 {
        "Process appears safe to terminate with SIGKILL."@
    } else if prefers_graceful(tcp, locks, unit) {
        join(points, ". "@) + ". Graceful stop (SIGTERM) is recommended."@
    } else {
        join(points, ". "@) + "."@
    }
}

/// The view of an optional string.
pub open spec fn opt_view(o: Option<String>) -> Option<Seq<char>> {
    match o {
        Some(s) => Some(s@),
        None => None,
    }
}

fn number_point(n: usize, tail: &str) -> (v: Vec<char>)
    ensures
        v@ == dec(n as int) + tail@,
{
    let mut v = fmt_udec(n as u64);
    append_str(&mut v, tail);
    v
}

/// The recommendation and whether a graceful stop is preferred, given the
/// TCP connection count, child count, lock flag and systemd unit.
pub fn build_recommendation(tcp: usize, children: usize, locks: bool, unit: &Option<String>) -> (r: (String, bool))
    ensures
        r.0@ == recommendation_text(tcp as nat, children as nat, locks, opt_view(*unit)),
        r.1 == prefers_graceful(tcp as nat, locks, opt_view(*unit)),
{
    let ghost u = opt_view(*unit);
    let mut points: Vec<Vec<char>> = Vec::new();
    let mut prefer_graceful = false;
    if tcp > 0 {
        points.push(
            number_point(tcp, " active TCP connection(s) will be abruptly terminated by a hard kill"),
        );
        prefer_graceful = true;
    }
    if children > 0 {
        points.push(
            number_point(
                children,
                " child process(es) will be orphaned or killed (depending on signal)",
            ),
        );
    }
    if locks {
        points.push(chars_of("process holds exclusive file lock(s) — hard kill may leave stale locks"));
        prefer_graceful = true;
    }
    match unit {
        Some(name) => {
            let mut p = chars_of("process is managed by systemd unit '");
            let n = chars_of(name.as_str());
            append_chars(&mut p, n.as_slice());
            append_str(&mut p, "' — consider 'systemctl stop/restart' instead");
            points.push(p);
            prefer_graceful = true;
        },
        None => {},
    }
    assert(views(points@) =~= risk_points(tcp as nat, children as nat, locks, u));
    if points.len() == 0 {
        ("Process appears safe to terminate with SIGKILL.".to_string(), false)
    } else {
        let sep = chars_of(". ");
        let mut rec = join_chars(points.as_slice(), sep.as_slice());
        if prefer_graceful {
            append_str(&mut rec, ". Graceful stop (SIGTERM) is recommended.");
        } else {
            append_str(&mut rec, ".");
        }
        (string_of(rec.as_slice()), prefer_graceful)
    }
}

// ─── TCP connections ─────────────────────────────────────────────────────────

/// Whether a `/proc/net/tcp` line is an established connection on one of `inodes`.
pub open spec fn tcp_line_established(line: Seq<char>, inodes: Seq<u64>) -> bool {
    let f = split_ws(line);
    f.len() >= 10 && inodes.contains(or_zero(parse_u64(f[9])) as u64) && or_zero(
        parse_hex_u8(f[3]),
    ) == 1
}

/// Number of lines of `ls` that are established connections on `inodes`.
pub open spec fn count_established(ls: Seq<Seq<char>>, inodes: Seq<u64>) -> nat
    decreases ls.len(),
{
    if ls.len() == 0 {
        0
    } else {
        count_established(ls.drop_last(), inodes) + if tcp_line_established(ls.last(), inodes) {
            1nat
        } else {
            0nat
        }
    }
}

/// Established connections on `inodes` in one TCP table (header line skipped).
pub open spec fn table_established(table: Seq<char>, inodes: Seq<u64>) -> nat {
    count_established(skip_first(lines(table)), inodes)
}

/// Established connections on `inodes` over all `tables`.
pub open spec fn tables_established(tables: Seq<Seq<char>>, inodes: Seq<u64>) -> nat
    decreases tables.len(),
{
    if tables.len() == 0 {
        0
    } else {
        tables_established(tables.drop_last(), inodes) + table_established(tables.last(), inodes)
    }
}

fn contains_u64(v: &[u64], x: u64) -> (r: bool)
    ensures
        r == v@.contains(x),
{
    let mut i: usize = 0;
    while i < v.len()
        invariant
            i <= v@.len(),
            forall|j: int| 0 <= j < i ==> v@[j] != x,
        decreases v@.len() - i,
    {
        if v[i] == x {
            assert(v@[i as int] == x);
            return true;
        }
        i = i + 1;
    }
    false
}

fn line_established(line: &[char], inodes: &[u64]) -> (r: bool)
    ensures
        r == tcp_line_established(line@, inodes@),
{
    let f = split_whitespace(line);
    if f.len() < 10 {
        return false;
    }
    let inode = match parse_u64_chars(f[9].as_slice()) {
        Some(n) => n,
        None => 0,
    };
    if !contains_u64(inodes, inode) {
        return false;
    }
    let state = match parse_hex_u8_chars(f[3].as_slice()) {
        Some(s) => s,
        None => 0,
    };
    state == 1
}

fn table_count(table: &str, inodes: &[u64]) -> (n: usize)
    ensures
        n == table_established(table@, inodes@),
{
    let cs = chars_of(table);
    let ls = split_lines(cs.as_slice());
    let ghost all = views(ls@);
    let ghost body = skip_first(all);
    if ls.len() == 0 {
        return 0;
    }
    let mut count: usize = 0;
    let mut i: usize = 1;
    while i < ls.len()
        invariant
            all == views(ls@),
            ls@.len() > 0,
            body == all.drop_first(),
            1 <= i <= ls@.len(),
            count == count_established(body.take(i - 1), inodes@),
            count <= i,
        decreases ls@.len() - i,
    {
        assert(body.take(i as int).drop_last() =~= body.take(i - 1));
        assert(body.take(i as int).last() == ls@[i as int]@);
        if line_established(ls[i].as_slice(), inodes) {
            count = count + 1;
        }
        i = i + 1;
    }
    assert(body.take(i - 1) =~= body);
    count
}

/// Number of established TCP connections whose socket inode is in
/// `inodes`, over the given TCP tables (`/proc/net/tcp`, `/proc/net/tcp6`).
pub fn count_tcp_connections(inodes: &[u64], tables: &[String]) -> (n: usize)
    requires
        tables_established(tables@.map_values(|t: String| t@), inodes@) <= usize::MAX,
    ensures
        n == tables_established(tables@.map_values(|t: String| t@), inodes@),
{
    let ghost all = tables@.map_values(|t: String| t@);
    let mut count: usize = 0;
    let mut i: usize = 0;
    while i < tables.len()
        invariant
            all == tables@.map_values(|t: String| t@),
            tables_established(all, inodes@) <= usize::MAX,
            i <= tables@.len(),
            count == tables_established(all.take(i as int), inodes@),
        decreases tables@.len() - i,
    {
        assert(all.take(i + 1).drop_last() =~= all.take(i as int));
        proof {
            lemma_tables_prefix(all, inodes@, i + 1);
        }
        let c = table_count(tables[i].as_str(), inodes);
        count = count + c;
        i = i + 1;
    }
    assert(all.take(i as int) =~= all);
    count
}

proof fn lemma_tables_prefix(tables: Seq<Seq<char>>, inodes: Seq<u64>, k: int)
    requires
        0 <= k <= tables.len(),
    ensures
        tables_established(tables.take(k), inodes) <= tables_established(tables, inodes),
    decreases tables.len() - k,
{
    if k < tables.len() {
        lemma_tables_prefix(tables, inodes, k + 1);
        assert(tables.take(k + 1).drop_last() =~= tables.take(k));
    } else {
        assert(tables.take(k) =~= tables);
    }
}

// ─── Children ────────────────────────────────────────────────────────────────

/// Number of direct children listed in `/proc/<pid>/task/<pid>/children`.
pub fn count_children(raw: &str) -> (n: usize)
    ensures
        n == split_ws(raw@).len(),
{
    let cs = chars_of(raw);
    let toks = split_whitespace(cs.as_slice());
    toks.len()
}

/// The parent PID recorded in a `stat` line (0 when it cannot be read).
pub open spec fn stat_ppid(stat: Seq<char>) -> int {
    let tail = match stat_tail(stat) {
        Some(t) => t,
        None => Seq::empty(),
    };
    let f = split_ws(tail);
    if f.len() > 1 {
        or_zero_int(parse_i32(f[1]))
    } else {
        0
    }
}

/// Number of `stats` whose parent PID is `parent`.
pub open spec fn count_with_parent(stats: Seq<Seq<char>>, parent: int) -> nat
    decreases stats.len(),
{
    if stats.len() == 0 {
        0
    } else {
        count_with_parent(stats.drop_last(), parent) + if stat_ppid(stats.last()) == parent {
            1nat
        } else {
            0nat
        }
    }
}

fn ppid_of(stat: &str) -> (p: i32)
    requires
        stat_tail_ok(stat@),
    ensures
        p as int == stat_ppid(stat@),
{
    let cs = chars_of(stat);
    let tail = match stat_tail_chars(cs.as_slice()) {
        Some(t) => t,
        None => Vec::new(),
    };
    let f = split_whitespace(tail.as_slice());
    if f.len() > 1 {
        match parse_i32_chars(f[1].as_slice()) {
            Some(p) => p,
            None => 0,
        }
    } else {
        0
    }
}

/// Number of processes whose `stat` text (one per numeric `/proc` entry that
/// could be read) names `parent_pid` as parent.
pub fn count_children_fallback(parent_pid: i32, stats: &[String]) -> (n: usize)
    requires
        forall|i: int| 0 <= i < stats@.len() ==> stat_tail_ok(#[trigger] stats@[i]@),
    ensures
        n == count_with_parent(stats@.map_values(|t: String| t@), parent_pid as int),
{
    let ghost all = stats@.map_values(|t: String| t@);
    let mut count: usize = 0;
    let mut i: usize = 0;
    while i < stats.len()
        invariant
            all == stats@.map_values(|t: String| t@),
            forall|j: int| 0 <= j < stats@.len() ==> stat_tail_ok(#[trigger] stats@[j]@),
            i <= stats@.len(),
            count == count_with_parent(all.take(i as int), parent_pid as int),
            count <= i,
        decreases stats@.len() - i,
    {
        assert(all.take(i + 1).drop_last() =~= all.take(i as int));
        assert(all.take(i + 1).last() == stats@[i as int]@);
        if ppid_of(stats[i].as_str()) == parent_pid {
            count = count + 1;
        }
        i = i + 1;
    }
    assert(all.take(i as int) =~= all);
    count
}

// ─── File locks ──────────────────────────────────────────────────────────────

/// Whether a `/proc/locks` line is an exclusive (WRITE) lock held by the
/// process whose PID is written `pid`.
pub open spec fn lock_line(line: Seq<char>, pid: Seq<char>) -> bool {
    let f = split_ws(line);
    ((f.len() > 4 && f[4] == pid) || (f.len() > 5 && f[5] == pid)) && f.len() > 3
        && contains_seq(f[3], "WRITE"@)
}

/// Whether `/proc/locks` text lists an exclusive lock held by `pid`.
pub open spec fn holds_write_lock(locks: Seq<char>, pid: int) -> bool {
    exists|i: int| 0 <= i < lines(locks).len() && #[trigger] lock_line(lines(locks)[i], dec(pid))
}

fn is_lock_line(line: &[char], pid: &[char]) -> (r: bool)
    ensures
        r == lock_line(line@, pid@),
{
    let f = split_whitespace(line);
    let owner = (f.len() > 4 && eq_chars(f[4].as_slice(), pid)) || (f.len() > 5 && eq_chars(
        f[5].as_slice(),
        pid,
    ));
    if owner && f.len() > 3 {
        let w = chars_of("WRITE");
        contains_chars(f[3].as_slice(), w.as_slice())
    } else {
        false
    }
}

/// Whether `/proc/locks` text lists an exclusive (WRITE) lock held by `pid`.
pub fn check_file_locks(pid: i32, locks: &str) -> (r: bool)
    ensures
        r == holds_write_lock(locks@, pid as int),
{
    let pid_text = fmt_dec(pid as i64);
    let cs = chars_of(locks);
    let ls = split_lines(cs.as_slice());
    let ghost all = views(ls@);
    let mut i: usize = 0;
    while i < ls.len()
        invariant
            all == views(ls@),
            all == lines(locks@),
            pid_text@ == dec(pid as int),
            i <= ls@.len(),
            forall|j: int| 0 <= j < i ==> !#[trigger] lock_line(all[j], dec(pid as int)),
        decreases ls@.len() - i,
    {
        if is_lock_line(ls[i].as_slice(), pid_text.as_slice()) {
            assert(lock_line(all[i as int], dec(pid as int)));
            return true;
        }
        i = i + 1;
    }
    false
}

// ─── systemd unit ────────────────────────────────────────────────────────────

/// The unit found scanning cgroup lines in order: a line with fewer than
/// two `:` ends the scan with none; a path whose last component ends in
/// `.service` or `.scope` gives that component.
pub open spec fn unit_in_lines(ls: Seq<Seq<char>>) -> Option<Seq<char>>
    decreases ls.len(),
{
    if ls.len() == 0 {
        None
    } else {
        match third_field(ls[0]) {
            None => None,
            Some(path) => {
                let leaf = last_segment(path, '/');
                if ".service"@.is_suffix_of(leaf) || ".scope"@.is_suffix_of(leaf) {
                    Some(leaf)
                } else {
                    unit_in_lines(ls.drop_first())
                }
            },
        }
    }
}

/// The systemd unit managing a process, inferred from its `/proc/<pid>/cgroup` text.
pub fn detect_systemd_unit(cgroup: &str) -> (r: Option<String>)
    ensures
        opt_view(r) == unit_in_lines(lines(cgroup@)),
{
    let cs = chars_of(cgroup);
    let ls = split_lines(cs.as_slice());
    let ghost all = views(ls@);
    let service = chars_of(".service");
    let scope = chars_of(".scope");
    assert(all.skip(0) =~= all);
    let mut i: usize = 0;
    while i < ls.len()
        invariant
            all == views(ls@),
            all == lines(cgroup@),
            service@ == ".service"@,
            scope@ == ".scope"@,
            i <= ls@.len(),
            unit_in_lines(all) == unit_in_lines(all.skip(i as int)),
        decreases ls@.len() - i,
    {
        let ghost rest = all.skip(i as int);
        assert(rest[0] == ls@[i as int]@);
        assert(rest.drop_first() =~= all.skip(i + 1));
        match third_field_chars(ls[i].as_slice()) {
            None => return None,
            Some(path) => {
                let leaf = last_segment_chars(path.as_slice(), '/');
                if ends_with(leaf.as_slice(), service.as_slice()) || ends_with(
                    leaf.as_slice(),
                    scope.as_slice(),
                ) {
                    return Some(string_of(leaf.as_slice()));
                }
            },
        }
        i = i + 1;
    }
    assert(all.skip(i as int) =~= Seq::<Seq<char>>::empty());
    None
}

// ─── Whole analysis ──────────────────────────────────────────────────────────

/// What the analysis reads about a process, as text.
pub struct ImpactSources {
    /// Inodes of the process's socket file descriptors.
    pub socket_inodes: Vec<u64>,
    /// The TCP tables that could be read (`/proc/net/tcp`, `/proc/net/tcp6`).
    pub tcp_tables: Vec<String>,
    /// `/proc/<pid>/task/<pid>/children`, when readable.
    pub children: Option<String>,
    /// When `children` is not readable: the `stat` text of every numeric
    /// `/proc` entry that could be read.
    pub child_stats: Vec<String>,
    /// `/proc/locks`, when readable.
    pub locks: Option<String>,
    /// `/proc/<pid>/cgroup`, when readable.
    pub cgroup: Option<String>,
}

/// The views of a sequence of strings.
pub open spec fn string_views(v: Seq<String>) -> Seq<Seq<char>> {
    v.map_values(|t: String| t@)
}

/// Whether the sources can be analysed without overflow or a bad `stat` slice.
pub open spec fn sources_ok(src: ImpactSources) -> bool {
    &&& tables_established(string_views(src.tcp_tables@), src.socket_inodes@) <= usize::MAX
    &&& src.children is None ==> forall|i: int|
        0 <= i < src.child_stats@.len() ==> stat_tail_ok(#[trigger] src.child_stats@[i]@)
}

/// The child count the sources show.
pub open spec fn children_spec(pid: int, src: ImpactSources) -> nat {
    match src.children {
        Some(c) => split_ws(c@).len(),
        None => count_with_parent(string_views(src.child_stats@), pid),
    }
}

/// The lock flag the sources show.
pub open spec fn locks_spec(pid: int, src: ImpactSources) -> bool {
    match src.locks {
        Some(l) => holds_write_lock(l@, pid),
        None => false,
    }
}

/// The systemd unit the sources show.
pub open spec fn unit_spec(src: ImpactSources) -> Option<Seq<char>> {
    match src.cgroup {
        Some(c) => unit_in_lines(lines(c@)),
        None => None,
    }
}

/// Analyses the potential impact of sending a signal to `pid`.
pub fn analyze_impact(pid: i32, src: &ImpactSources) -> (r: SignalImpact)
    requires
        sources_ok(*src),
    ensures
        r.active_tcp_connections == tables_established(
            string_views(src.tcp_tables@),
            src.socket_inodes@,
        ),
        r.child_process_count == children_spec(pid as int, *src),
        r.has_file_locks == locks_spec(pid as int, *src),
        opt_view(r.systemd_unit) == unit_spec(*src),
        r.recommendation@ == recommendation_text(
            r.active_tcp_connections as nat,
            r.child_process_count as nat,
            r.has_file_locks,
            unit_spec(*src),
        ),
        r.prefer_graceful == prefers_graceful(
            r.active_tcp_connections as nat,
            r.has_file_locks,
            unit_spec(*src),
        ),
{
    let active_tcp_connections = count_tcp_connections(
        src.socket_inodes.as_slice(),
        src.tcp_tables.as_slice(),
    );
    let child_process_count = match &src.children {
        Some(c) => count_children(c.as_str()),
        None => count_children_fallback(pid, src.child_stats.as_slice()),
    };
    let has_file_locks = match &src.locks {
        Some(l) => check_file_locks(pid, l.as_str()),
        None => false,
    };
    let systemd_unit = match &src.cgroup {
        Some(c) => detect_systemd_unit(c.as_str()),
        None => None,
    };
    let (recommendation, prefer_graceful) = build_recommendation(
        active_tcp_connections,
        child_process_count,
        has_file_locks,
        &systemd_unit,
    );
    SignalImpact {
        active_tcp_connections,
        child_process_count,
        has_file_locks,
        systemd_unit,
        recommendation,
        prefer_graceful,
    }
}

/// Pre-flight signal impact analysis of `pid` from what was read about it.
pub fn signal_impact(pid: i32, src: &ImpactSources) -> (r: SignalImpact)
    requires
        sources_ok(*src),
    ensures
        r.active_tcp_connections == tables_established(
            string_views(src.tcp_tables@),
            src.socket_inodes@,
        ),
        r.child_process_count == children_spec(pid as int, *src),
        r.has_file_locks == locks_spec(pid as int, *src),
        opt_view(r.systemd_unit) == unit_spec(*src),
        r.recommendation@ == recommendation_text(
            r.active_tcp_connections as nat,
            r.child_process_count as nat,
            r.has_file_locks,
            unit_spec(*src),
        ),
        r.prefer_graceful == prefers_graceful(
            r.active_tcp_connections as nat,
            r.has_file_locks,
            unit_spec(*src),
        ),
{
    analyze_impact(pid, src)
}

/// With no connections, children, locks or unit, the recommendation calls
/// the process safe to kill and no graceful stop is preferred.
pub proof fn lemma_no_risk_is_safe(tcp: nat, children: nat, locks: bool, unit: Option<Seq<char>>)
    requires
        tcp == 0,
        children == 0,
        !locks,
        unit is None,
    ensures
        recommendation_text(tcp, children, locks, unit)
            == "Process appears safe to terminate with SIGKILL."@,
        !prefers_graceful(tcp, locks, unit),
{
    assert(risk_points(tcp, children, locks, unit) =~= Seq::<Seq<char>>::empty());
}

proof fn lemma_join_starts_with_first(parts: Seq<Seq<char>>, sep: Seq<char>)
    requires
        parts.len() > 0,
    ensures
        parts[0].is_prefix_of(join(parts, sep)),
    decreases parts.len(),
{
    if parts.len() > 1 {
        let p = parts.drop_last();
        lemma_join_starts_with_first(p, sep);
        assert(p[0] == parts[0]);
        let j = join(parts, sep);
        assert(j == join(p, sep) + sep + parts.last());
        assert(parts[0] =~= j.subrange(0, parts[0].len() as int));
    }
}

proof fn lemma_digits_start_with_digit(n: nat)
    ensures
        crate::text::digits_of(n, 10).len() > 0,
        '0' <= crate::text::digits_of(n, 10)[0] <= '9',
    decreases n,
{
    if n >= 10 {
        crate::text::lemma_div_smaller(n, 10);
        lemma_digits_start_with_digit(n / 10);
    }
}

/// Every open TCP connection is a risk: with one or more of them the
/// recommendation opens with their count, asks for a graceful stop and a
/// graceful stop is preferred. The recommendation calls the process safe to
/// kill only when there is no connection, child, lock or unit.
pub proof fn lemma_tcp_is_a_risk(tcp: nat, children: nat, locks: bool, unit: Option<Seq<char>>)
    ensures
        tcp > 0 ==> prefers_graceful(tcp, locks, unit),
        tcp > 0 ==> (dec(tcp as int) + " active TCP connection(s) will be abruptly terminated by a hard kill"@)
            .is_prefix_of(recommendation_text(tcp, children, locks, unit)),
        tcp > 0 ==> ". Graceful stop (SIGTERM) is recommended."@.is_suffix_of(
            recommendation_text(tcp, children, locks, unit),
        ),
        recommendation_text(tcp, children, locks, unit) == "Process appears safe to terminate with SIGKILL."@
            ==> tcp == 0 && children == 0 && !locks && unit is None,
{
    let points = risk_points(tcp, children, locks, unit);
    let text = recommendation_text(tcp, children, locks, unit);
    let safe = "Process appears safe to terminate with SIGKILL."@;
    reveal_strlit("Process appears safe to terminate with SIGKILL.");
    reveal_strlit("process holds exclusive file lock(s) — hard kill may leave stale locks");
    reveal_strlit("process is managed by systemd unit '");
    if tcp > 0 || children > 0 || locks || unit is Some {
        assert(points.len() > 0);
        lemma_join_starts_with_first(points, ". "@);
        let tail = if prefers_graceful(tcp, locks, unit) {
            ". Graceful stop (SIGTERM) is recommended."@
        } else {
            "."@
        };
        assert(text == join(points, ". "@) + tail);
        let first = points[0];
        assert(first.is_prefix_of(text)) by {
            assert(first =~= text.subrange(0, first.len() as int));
        }
        if tcp > 0 {
            assert(first == dec(tcp as int) + " active TCP connection(s) will be abruptly terminated by a hard kill"@);
            assert(tail.is_suffix_of(text)) by {
                assert(tail =~= text.subrange(text.len() - tail.len(), text.len() as int));
            }
        }
        // The text opens with a digit or a lower-case `p`, the safe text
        // with `P`.
        if tcp > 0 {
            lemma_digits_start_with_digit(tcp);
        } else if children > 0 {
            lemma_digits_start_with_digit(children);
        }
        assert(first.len() > 0 && first[0] != 'P');
        assert(text[0] == first[0]);
        assert(text != safe) by {
            assert(safe[0] == 'P');
        }
    }
}

/// A graceful stop is preferred exactly when something would be cut off by
/// a hard kill: open TCP connections, exclusive locks or a managing unit.
/// Children alone are only reported: the text names their count and asks
/// for nothing more.
pub proof fn lemma_graceful_only_for_cut_off_work(tcp: nat, children: nat, locks: bool, unit: Option<Seq<char>>)
    ensures
        prefers_graceful(tcp, locks, unit) <==> (tcp > 0 || locks || unit is Some),
        (tcp == 0 && children > 0 && !locks && unit is None) ==> recommendation_text(tcp, children, locks, unit)
            == dec(children as int) + " child process(es) will be orphaned or killed (depending on signal)"@ + "."@,
{
    if tcp == 0 && children > 0 && !locks && unit is None {
        let p = dec(children as int) + " child process(es) will be orphaned or killed (depending on signal)"@;
        assert(risk_points(tcp, children, locks, unit) =~= seq![p]);
    }
}

} // verus!
