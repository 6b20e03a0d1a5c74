//! Kernel context of a process from its `stat`, `status`, `oom_score*`,
//! cgroup and namespace-link texts.
use vstd::prelude::*;
use crate::text::{
    chars_of, find_char, find_first, lines, or_zero, or_zero_int, parse_hex_u64,
    parse_hex_u64_chars, parse_i32, parse_i32_chars, parse_u32, parse_u32_chars, parse_u64,
    parse_u64_chars, split_lines, split_whitespace, split_ws, string_of, strip_prefix, sub_vec,
    trim, trim_chars, views,
};
use crate::proc_text::{stat_tail, stat_tail_chars, stat_tail_ok};
use crate::explain::{caps_text, format_caps};
use crate::model::{KernelInfo, NamespaceEntry};

verus! {

broadcast use vstd::string::group_string_axioms;

// ─── Scheduling ──────────────────────────────────────────────────────────────

/// The name of scheduling policy `n`.
pub open spec fn policy_name(n: nat) -> Seq<char> {
    if n == 0 {
        "SCHED_OTHER"@
    } else if n == 1 {
        "SCHED_FIFO"@
    } else if n == 2 {
        "SCHED_RR"@
    } else if n == 3 {
        "SCHED_BATCH"@
    } else if n == 5 {
        "SCHED_IDLE"@
    } else if n == 6 {
        "SCHED_DEADLINE"@
    } else {
        "UNKNOWN"@
    }
}

fn policy_str(n: u32) -> (r: &'static str)
    ensures
        r@ == policy_name(n as nat),
{
    if n == 0 {
        "SCHED_OTHER"
    } else if n == 1 {
        "SCHED_FIFO"
    } else if n == 2 {
        "SCHED_RR"
    } else if n == 3 {
        "SCHED_BATCH"
    } else if n == 5 {
        "SCHED_IDLE"
    } else if n == 6 {
        "SCHED_DEADLINE"
    } else {
        "UNKNOWN"
    }
}

/// Policy names follow Linux's numbering: 0 is `SCHED_OTHER`, 1
/// `SCHED_FIFO`, 2 `SCHED_RR`, 3 `SCHED_BATCH`, 5 `SCHED_IDLE`, 6
/// `SCHED_DEADLINE`, and every other number `UNKNOWN`; no two policies
/// share a name.
pub proof fn lemma_policy_numbering(n: nat)
    ensures
        (policy_name(n) == "SCHED_OTHER"@) <==> n == 0,
        (policy_name(n) == "SCHED_FIFO"@) <==> n == 1,
        (policy_name(n) == "SCHED_RR"@) <==> n == 2,
        (policy_name(n) == "SCHED_BATCH"@) <==> n == 3,
        (policy_name(n) == "SCHED_IDLE"@) <==> n == 5,
        (policy_name(n) == "SCHED_DEADLINE"@) <==> n == 6,
        (policy_name(n) == "UNKNOWN"@) <==> !(n == 0 || n == 1 || n == 2 || n == 3 || n == 5 || n == 6),
{
    reveal_strlit("SCHED_OTHER");
    reveal_strlit("SCHED_FIFO");
    reveal_strlit("SCHED_RR");
    reveal_strlit("SCHED_BATCH");
    reveal_strlit("SCHED_IDLE");
    reveal_strlit("SCHED_DEADLINE");
    reveal_strlit("UNKNOWN");
    let o = "SCHED_OTHER"@;
    let f = "SCHED_FIFO"@;
    let r = "SCHED_RR"@;
    let b = "SCHED_BATCH"@;
    let i = "SCHED_IDLE"@;
    let d = "SCHED_DEADLINE"@;
    let u = "UNKNOWN"@;
    assert(o[6] == 'O' && f[6] == 'F' && r[6] == 'R' && b[6] == 'B' && i[6] == 'I' && d[6] == 'D');
    assert(u[0] != o[0]);
    assert(o != f && o != r && o != b && o != i && o != d && o != u);
    assert(f != r && f != b && f != i && f != d && f != u);
    assert(r != b && r != i && r != d && r != u);
    assert(b != i && b != d && b != u);
    assert(i != d && i != u && d != u);
}

/// `(nice, priority, policy)` from a `stat` line: fields 17, 16 and 39
/// after the command name (0 when missing or unparsable); with no command
/// name, `(0, 0, SCHED_OTHER)`.
pub open spec fn sched_spec(stat: Seq<char>) -> (int, int, Seq<char>) {
    match stat_tail(stat) {
        None => (0, 0, "SCHED_OTHER"@),
        Some(t) => {
            let f = split_ws(t);
            let priority = if f.len() > 15 { or_zero_int(parse_i32(f[15])) } else { 0 };
            let nice = if f.len() > 16 { or_zero_int(parse_i32(f[16])) } else { 0 };
            let policy = if f.len() > 38 { or_zero(parse_u32(f[38])) } else { 0 };
            (nice, priority, policy_name(policy))
        },
    }
}

fn field_i32(f: &Vec<Vec<char>>, i: usize) -> (r: i32)
    ensures
        r as int == (if i < f@.len() { or_zero_int(parse_i32(f@[i as int]@)) } else { 0 }),
{
    if i < f.len() {
        match parse_i32_chars(f[i].as_slice()) {
            Some(v) => v,
            None => 0,
        }
    } else {
        0
    }
}

/// `(nice, priority, scheduling policy)` from the contents of `/proc/<pid>/stat`.
pub fn parse_sched(stat: &str) -> (r: (i32, i32, String))
    requires
        stat_tail_ok(stat@),
    ensures
        (r.0 as int, r.1 as int, r.2@) == sched_spec(stat@),
{
    let cs = chars_of(stat);
    let tail = match stat_tail_chars(cs.as_slice()) {
        Some(t) => t,
        None => return (0, 0, "SCHED_OTHER".to_string()),
    };
    let f = split_whitespace(tail.as_slice());
    let priority = field_i32(&f, 15);
    let nice = field_i32(&f, 16);
    let policy: u32 = if f.len() > 38 {
        match parse_u32_chars(f[38].as_slice()) {
            Some(v) => v,
            None => 0,
        }
    } else {
        0
    };
    (nice, priority, policy_str(policy).to_string())
}

// ─── Status ──────────────────────────────────────────────────────────────────

/// What the `status` lines give: permitted and effective capability bits,
/// seccomp mode, voluntary and involuntary context switches.
pub type StatusFields = (nat, nat, nat, Option<nat>, Option<nat>);

/// The fields after reading `status` lines `ls` in order; a later line of
/// the same kind replaces an earlier one.
pub open spec fn status_fold(ls: Seq<Seq<char>>) -> StatusFields
    decreases ls.len(),
{
    if ls.len() == 0 {
        (0, 0, 0, None, None)
    } else {
        let (p, e, s, v, n) = status_fold(ls.drop_last());
        let l = ls.last();
        if "CapPrm:\t"@.is_prefix_of(l) {
            (or_zero(parse_hex_u64(trim(l.skip("CapPrm:\t"@.len() as int)))), e, s, v, n)
        } else if "CapEff:\t"@.is_prefix_of(l) {
            (p, or_zero(parse_hex_u64(trim(l.skip("CapEff:\t"@.len() as int)))), s, v, n)
        } else if "Seccomp:\t"@.is_prefix_of(l) {
            (p, e, or_zero(parse_u32(trim(l.skip("Seccomp:\t"@.len() as int)))), v, n)
        } else if "voluntary_ctxt_switches:\t"@.is_prefix_of(l) {
            (p, e, s, parse_u64(trim(l.skip("voluntary_ctxt_switches:\t"@.len() as int))), n)
        } else if "nonvoluntary_ctxt_switches:\t"@.is_prefix_of(l) {
            (p, e, s, v, parse_u64(trim(l.skip("nonvoluntary_ctxt_switches:\t"@.len() as int))))
        } else {
            (p, e, s, v, n)
        }
    }
}

/// Capability texts, seccomp mode and context switches from a `status`
/// text; an unreadable one gives `("0", "0", 0, None, None)`.
pub open spec fn status_spec(raw: Option<Seq<char>>) -> (Seq<char>, Seq<char>, nat, Option<nat>, Option<nat>) {
    match raw {
        None => ("0"@, "0"@, 0, None, None),
        Some(r) => {
            let (p, e, s, v, n) = status_fold(lines(r));
            (caps_text(p as u64), caps_text(e as u64), s, v, n)
        },
    }
}

/// The view of an optional number.
pub open spec fn opt_nat(o: Option<u64>) -> Option<nat> {
    match o {
        Some(v) => Some(v as nat),
        None => None,
    }
}

fn trimmed_after(line: &[char], pre: &str) -> (r: Option<Vec<char>>)
    ensures
        match r {
            Some(t) => pre@.is_prefix_of(line@) && t@ == trim(line@.skip(pre@.len() as int)),
            None => !pre@.is_prefix_of(line@),
        },
{
    let p = chars_of(pre);
    match strip_prefix(line, p.as_slice()) {
        Some(rest) => Some(trim_chars(rest.as_slice())),
        None => None,
    }
}

/// Capabilities (as text), seccomp mode and context switches from the
/// contents of `/proc/<pid>/status`, or `None` when it could not be read.
pub fn parse_status(raw: Option<&str>) -> (r: (String, String, u32, Option<u64>, Option<u64>))
    ensures
        (r.0@, r.1@, r.2 as nat, opt_nat(r.3), opt_nat(r.4)) == status_spec(
            match raw {
                Some(s) => Some(s@),
                None => None,
            },
        ),
{
    let raw = match raw {
        Some(r) => r,
        None => return ("0".to_string(), "0".to_string(), 0, None, None),
    };
    let cs = chars_of(raw);
    let ls = split_lines(cs.as_slice());
    let ghost all = views(ls@);
    let mut prm: u64 = 0;
    let mut eff: u64 = 0;
    let mut seccomp: u32 = 0;
    let mut vol: Option<u64> = None;
    let mut nonvol: Option<u64> = None;
    let mut i: usize = 0;
    while i < ls.len()
        invariant
            all == views(ls@),
            i <= ls@.len(),
            (prm as nat, eff as nat, seccomp as nat, opt_nat(vol), opt_nat(nonvol)) == status_fold(
                all.take(i as int),
            ),
        decreases ls@.len() - i,
    {
        assert(all.take(i + 1).drop_last() =~= all.take(i as int));
        assert(all.take(i + 1).last() == ls@[i as int]@);
        let line = ls[i].as_slice();
        if let Some(v) = trimmed_after(line, "CapPrm:\t") {
            prm = match parse_hex_u64_chars(v.as_slice()) {
                Some(x) => x,
                None => 0,
            };
        } else if let Some(v) = trimmed_after(line, "CapEff:\t") {
            eff = match parse_hex_u64_chars(v.as_slice()) {
                Some(x) => x,
                None => 0,
            };
        } else if let Some(v) = trimmed_after(line, "Seccomp:\t") {
            seccomp = match parse_u32_chars(v.as_slice()) {
                Some(x) => x,
                None => 0,
            };
        } else if let Some(v) = trimmed_after(line, "voluntary_ctxt_switches:\t") {
            vol = parse_u64_chars(v.as_slice());
        } else if let Some(v) = trimmed_after(line, "nonvoluntary_ctxt_switches:\t") {
            nonvol = parse_u64_chars(v.as_slice());
        }
        i = i + 1;
    }
    assert(all.take(i as int) =~= all);
    let (cap_prm, cap_eff) = format_caps(prm, eff);
    (cap_prm, cap_eff, seccomp, vol, nonvol)
}

// ─── OOM score ───────────────────────────────────────────────────────────────

/// The score an `oom_score` / `oom_score_adj` text gives: its trimmed
/// number, or 0 when missing or unparsable.
pub open spec fn score_spec(raw: Option<Seq<char>>) -> int {
    match raw {
        Some(r) => or_zero_int(parse_i32(trim(r))),
        None => 0,
    }
}

/// The score in the contents of `/proc/<pid>/oom_score` (or `oom_score_adj`).
pub fn parse_score(raw: Option<&str>) -> (r: i32)
    ensures
        r as int == score_spec(
            match raw {
                Some(s) => Some(s@),
                None => None,
            },
        ),
{
    match raw {
        None => 0,
        Some(s) => {
            let cs = chars_of(s);
            let t = trim_chars(cs.as_slice());
            match parse_i32_chars(t.as_slice()) {
                Some(v) => v,
                None => 0,
            }
        },
    }
}

// ─── Namespaces ──────────────────────────────────────────────────────────────

/// Number of namespace kinds inspected.
pub const NS_COUNT: usize = 8;

/// Namespace kind `i`, in inspection order.
pub open spec fn ns_type_name(i: int) -> Seq<char> {
    if i == 0 {
        "cgroup"@
    } else if i == 1 {
        "ipc"@
    } else if i == 2 {
        "mnt"@
    } else if i == 3 {
        "net"@
    } else if i == 4 {
        "pid"@
    } else if i == 5 {
        "time"@
    } else if i == 6 {
        "user"@
    } else {
        "uts"@
    }
}

fn ns_type_str(i: usize) -> (r: &'static str)
    requires
        i < NS_COUNT,
    ensures
        r@ == ns_type_name(i as int),
{
    if i == 0 {
        "cgroup"
    } else if i == 1 {
        "ipc"
    } else if i == 2 {
        "mnt"
    } else if i == 3 {
        "net"
    } else if i == 4 {
        "pid"
    } else if i == 5 {
        "time"
    } else if i == 6 {
        "user"
    } else {
        "uts"
    }
}

/// The text up to the first `c` in `s` (`s.split(c).next()`).
pub open spec fn before_char(s: Seq<char>, c: char) -> Seq<char> {
    match find_first(s, c) {
        None => s,
        Some(k) => s.take(k),
    }
}

/// The inode in a namespace link target such as `net:[4026531840]`: the
/// text between the first `[` and the next `[` or `]`, or `?` without `[`.
pub open spec fn ns_inode(target: Seq<char>) -> Seq<char> {
    match find_first(target, '[') {
        None => "?"@,
        Some(a) => before_char(before_char(target.skip(a + 1), '['), ']'),
    }
}

fn before_char_chars(s: &[char], c: char) -> (r: Vec<char>)
    ensures
        r@ == before_char(s@, c),
{
    let n = s.len();
    match find_char(s, c) {
        None => {
            let v = sub_vec(s, 0, n);
            assert(v@ =~= s@);
            v
        },
        Some(k) => {
            let v = sub_vec(s, 0, k);
            assert(v@ =~= s@.take(k as int));
            v
        },
    }
}

/// The inode in a namespace link target such as `net:[4026531840]`.
pub fn namespace_inode(target: &str) -> (r: String)
    ensures
        r@ == ns_inode(target@),
{
    let cs = chars_of(target);
    let n = cs.len();
    match find_char(cs.as_slice(), '[') {
        None => "?".to_string(),
        Some(a) => {
            let rest = sub_vec(cs.as_slice(), a + 1, n);
            assert(rest@ =~= cs@.skip(a + 1));
            let seg = before_char_chars(rest.as_slice(), '[');
            let inner = before_char_chars(seg.as_slice(), ']');
            string_of(inner.as_slice())
        },
    }
}

/// The view of namespace entries: kind and inode.
pub open spec fn ns_view(v: Seq<NamespaceEntry>) -> Seq<(Seq<char>, Seq<char>)> {
    v.map_values(|e: NamespaceEntry| (e.ns_type@, e.inode@))
}

/// The entries for link targets `targets` (one per kind, `None` where the
/// link could not be read), in kind order.
pub open spec fn ns_entries(targets: Seq<Option<String>>) -> Seq<(Seq<char>, Seq<char>)>
    decreases targets.len(),
{
    if targets.len() == 0 {
        Seq::empty()
    } else {
        let prev = ns_entries(targets.drop_last());
        match targets.last() {
            Some(t) => prev.push((ns_type_name(targets.len() - 1), ns_inode(t@))),
            None => prev,
        }
    }
}

/// The namespaces of a process from the targets of its
/// `/proc/<pid>/ns/{cgroup,ipc,mnt,net,pid,time,user,uts}` links.
pub fn read_namespaces(targets: &[Option<String>]) -> (r: Vec<NamespaceEntry>)
    requires
        targets@.len() == NS_COUNT,
    ensures
        ns_view(r@) == ns_entries(targets@),
{
    let mut out: Vec<NamespaceEntry> = Vec::new();
    let mut i: usize = 0;
    while i < NS_COUNT
        invariant
            targets@.len() == NS_COUNT,
            i <= NS_COUNT,
            ns_view(out@) == ns_entries(targets@.take(i as int)),
        decreases NS_COUNT - i,
    {
        assert(targets@.take(i + 1).drop_last() =~= targets@.take(i as int));
        assert(targets@.take(i + 1).last() == targets@[i as int]);
        let ghost prev = out@;
        match &targets[i] {
            Some(t) => {
                let e = NamespaceEntry {
                    ns_type: ns_type_str(i).to_string(),
                    inode: namespace_inode(t.as_str()),
                };
                out.push(e);
                assert(ns_view(out@) =~= ns_view(prev).push((ns_type_name(i as int), ns_inode(t@))));
            },
            None => {},
        }
        i = i + 1;
    }
    assert(targets@.take(i as int) =~= targets@);
    out
}

// ─── Whole kernel context ────────────────────────────────────────────────────

/// What the kernel-context collection reads about a process, as text.
pub struct KernelSources {
    /// `/proc/<pid>/stat`.
    pub stat: String,
    /// `/proc/<pid>/oom_score`, when readable.
    pub oom_score: Option<String>,
    /// `/proc/<pid>/oom_score_adj`, when readable.
    pub oom_score_adj: Option<String>,
    /// The process's cgroup, when known.
    pub cgroup: Option<String>,
    /// Targets of the namespace links, one per kind.
    pub namespace_links: Vec<Option<String>>,
    /// `/proc/<pid>/status`, when readable.
    pub status: Option<String>,
}

/// The view of an optional string.
pub open spec fn opt_string(o: Option<String>) -> Option<Seq<char>> {
    match o {
        Some(s) => Some(s@),
        None => None,
    }
}

/// Builds the kernel context of a process from what was read about it.
pub fn collect_kernel(src: &KernelSources) -> (k: KernelInfo)
    requires
        stat_tail_ok(src.stat@),
        src.namespace_links@.len() == NS_COUNT,
    ensures
        (k.nice as int, k.priority as int, k.sched_policy@) == sched_spec(src.stat@),
        k.oom_score as int == score_spec(opt_string(src.oom_score)),
        k.oom_score_adj as int == score_spec(opt_string(src.oom_score_adj)),
        k.cgroup@ == match src.cgroup {
            Some(c) => c@,
            None => "unknown"@,
        },
        ns_view(k.namespaces@) == ns_entries(src.namespace_links@),
        (k.cap_permitted@, k.cap_effective@, k.seccomp as nat, opt_nat(k.voluntary_ctxt_switches),
            opt_nat(k.nonvoluntary_ctxt_switches)) == status_spec(opt_string(src.status)),
{
    let (nice, priority, sched_policy) = parse_sched(src.stat.as_str());
    let oom_score = parse_score(
        match &src.oom_score {
            Some(s) => Some(s.as_str()),
            None => None,
        },
    );
    let oom_score_adj = parse_score(
        match &src.oom_score_adj {
            Some(s) => Some(s.as_str()),
            None => None,
        },
    );
    let cgroup = match &src.cgroup {
        Some(c) => c.clone(),
        None => "unknown".to_string(),
    };
    let namespaces = read_namespaces(src.namespace_links.as_slice());
    let (cap_permitted, cap_effective, seccomp, vol, nonvol) = parse_status(
        match &src.status {
            Some(s) => Some(s.as_str()),
            None => None,
        },
    );
    KernelInfo {
        sched_policy,
        nice,
        priority,
        oom_score,
        oom_score_adj,
        cgroup,
        namespaces,
        cap_permitted,
        cap_effective,
        seccomp,
        voluntary_ctxt_switches: vol,
        nonvoluntary_ctxt_switches: nonvol,
    }
}

} // verus!
