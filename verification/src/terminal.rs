//! The lines of the terminal report: the process header and the kernel,
//! network, open-file, environment and tree sections. (The resource and
//! GPU sections show decimal shares and are drawn by the caller.)
use vstd::prelude::*;
use crate::cli::{
    age_string, age_text, bold_text, colorize_state, cyan_bold_text, cyan_text, dimmed_text, green_text, oom_colored,
    oom_colored_text, paint_bold, paint_cyan, paint_cyan_bold, paint_dimmed, paint_green, paint_red, paint_yellow,
    red_text, state_colored, yellow_text,
};
use crate::env::EnvVar;
use crate::explain::{seccomp_label, seccomp_text};
use crate::model::{ConnectionEntry, KernelInfo, OpenFile, ProcessNode, SocketEntry};
use crate::network::NetworkInfo;
use crate::report::first_n;
use crate::text::{chars_of, dec, fmt_dec, fmt_udec, join, push_all, push_str, string_of};
use crate::tree::{draw_tree, node_view, tree_lines};

verus! {

broadcast use vstd::string::group_string_axioms;

/// `n` copies of `c`.
pub open spec fn repeat_char(c: char, n: nat) -> Seq<char> {
    Seq::new(n, |i: int| c)
}

/// The ruler under a section title.
pub open spec fn rule_line() -> Seq<char> {
    repeat_char('─', 64)
}

/// `s` right-aligned in a column of `w` characters (`{:>w}`).
pub open spec fn pad_left(s: Seq<char>, w: nat) -> Seq<char> {
    if s.len() < w { repeat_char(' ', (w - s.len()) as nat) + s } else { s }
}

/// `s` left-aligned in a column of `w` characters (`{:<w}`).
pub open spec fn pad_right(s: Seq<char>, w: nat) -> Seq<char> {
    if s.len() < w { s + repeat_char(' ', (w - s.len()) as nat) } else { s }
}

fn repeat(c: char, n: usize) -> (r: Vec<char>)
    ensures
        r@ == repeat_char(c, n as nat),
{
    let mut v: Vec<char> = Vec::new();
    let mut i: usize = 0;
    while i < n
        invariant
            i <= n,
            v@ == repeat_char(c, i as nat),
        decreases n - i,
    {
        v.push(c);
        i = i + 1;
        assert(v@ =~= repeat_char(c, i as nat));
    }
    v
}

fn padded_left(s: &[char], w: usize) -> (r: Vec<char>)
    ensures
        r@ == pad_left(s@, w as nat),
{
    if s.len() < w {
        let mut r = repeat(' ', w - s.len());
        crate::text::append_chars(&mut r, s);
        r
    } else {
        crate::text::sub_vec(s, 0, s.len())
    }
}

fn padded_right(s: &[char], w: usize) -> (r: Vec<char>)
    ensures
        r@ == pad_right(s@, w as nat),
{
    let mut r = crate::text::sub_vec(s, 0, s.len());
    if s.len() < w {
        let mut sp = repeat(' ', w - s.len());
        r.append(&mut sp);
    }
    r
}

/// The texts of a list of lines.
pub open spec fn texts(v: Seq<String>) -> Seq<Seq<char>> {
    v.map_values(|s: String| s@)
}

fn add_line(out: &mut Vec<String>, line: String)
    ensures
        texts(final(out)@) == texts(old(out)@).push(line@),
{
    let ghost before = out@;
    out.push(line);
    assert(texts(out@) =~= texts(before).push(line@));
}

fn add_chars(out: &mut Vec<String>, line: &[char])
    ensures
        texts(final(out)@) == texts(old(out)@).push(line@),
{
    add_line(out, string_of(line));
}

fn rule() -> (r: String)
    ensures
        r@ == rule_line(),
{
    string_of(repeat('─', 64).as_slice())
}

/// The opening of a section: a blank line, the bold title, the ruler.
pub open spec fn section_head(title: Seq<char>) -> Seq<Seq<char>> {
    seq![Seq::empty(), bold_text(title), rule_line()]
}

fn add_section_head(out: &mut Vec<String>, title: &str)
    ensures
        texts(final(out)@) == texts(old(out)@) + section_head(title@),
{
    let ghost start = texts(out@);
    add_line(out, String::new());
    add_line(out, paint_bold(title));
    add_line(out, rule());
    assert(texts(out@) =~= start + section_head(title@));
}

// ─── Header ──────────────────────────────────────────────────────────────────

/// What the report header shows of a process.
pub struct HeaderData {
    pub name: String,
    pub pid: i32,
    pub cmdline: String,
    pub exe: Option<String>,
    pub state: String,
    pub ppid: i32,
    pub uid: u32,
    pub gid: u32,
    /// The start time as written for people, and the seconds since then.
    pub started: Option<(String, i64)>,
    pub rss_kb: u64,
    pub vm_size_kb: u64,
    pub threads: i32,
    pub fd_count: Option<usize>,
}

/// A labelled header line: two spaces, the dimmed label, a space, the value.
pub open spec fn labelled(label: Seq<char>, value: Seq<char>) -> Seq<char> {
    "  "@ + dimmed_text(label) + " "@ + value
}

/// The header of the report.
pub open spec fn header_spec(h: HeaderData) -> Seq<Seq<char>> {
    seq![
        Seq::empty(),
        "🔍 "@ + bold_text("PROCESS:"@) + " "@ + cyan_bold_text(h.name@) + "  "@ + dimmed_text(
            "(PID "@ + dec(h.pid as int) + ")"@,
        ),
        rule_line(),
        labelled("cmdline :"@, h.cmdline@),
    ] + (match h.exe {
        Some(e) => seq![labelled("exe     :"@, e@)],
        None => Seq::empty(),
    }) + seq![
        labelled("state   :"@, state_colored(h.state@)),
        labelled("ppid    :"@, dec(h.ppid as int)),
        labelled("uid:gid :"@, dec(h.uid as int) + ":"@ + dec(h.gid as int)),
    ] + (match h.started {
        Some((when, secs)) => seq![labelled("started :"@, when@ + " ("@ + age_text(secs as int) + ")"@)],
        None => Seq::empty(),
    }) + seq![
        labelled("memory  :"@, dec(h.rss_kb as int) + " KB RSS / "@ + dec(h.vm_size_kb as int) + " KB VSZ"@),
        labelled("threads :"@, dec(h.threads as int)),
    ] + (match h.fd_count {
        Some(f) => seq![labelled("open fds:"@, dec(f as int))],
        None => Seq::empty(),
    })
}

fn labelled_line(label: &str, value: &[char]) -> (r: String)
    ensures
        r@ == labelled(label@, value@),
{
    let mut s = String::new();
    push_str(&mut s, "  ");
    let d = paint_dimmed(label);
    push_str(&mut s, d.as_str());
    push_str(&mut s, " ");
    push_all(&mut s, value);
    s
}

/// The header lines of the report (see [`header_spec`]).
pub fn header_lines(h: &HeaderData) -> (r: Vec<String>)
    ensures
        texts(r@) == header_spec(*h),
{
    let mut out: Vec<String> = Vec::new();
    add_line(&mut out, String::new());
    let mut title = String::new();
    push_str(&mut title, "🔍 ");
    push_str(&mut title, paint_bold("PROCESS:").as_str());
    push_str(&mut title, " ");
    push_str(&mut title, paint_cyan_bold(h.name.as_str()).as_str());
    push_str(&mut title, "  ");
    let mut pid_text = String::new();
    push_str(&mut pid_text, "(PID ");
    push_all(&mut pid_text, fmt_dec(h.pid as i64).as_slice());
    push_str(&mut pid_text, ")");
    push_str(&mut title, paint_dimmed(pid_text.as_str()).as_str());
    add_line(&mut out, title);
    add_line(&mut out, rule());
    add_line(&mut out, labelled_line("cmdline :", chars_of(h.cmdline.as_str()).as_slice()));
    let ghost p1 = texts(out@);
    if let Some(e) = &h.exe {
        add_line(&mut out, labelled_line("exe     :", chars_of(e.as_str()).as_slice()));
    }
    let ghost p2 = texts(out@);
    add_line(&mut out, labelled_line("state   :", chars_of(colorize_state(h.state.as_str()).as_str()).as_slice()));
    add_line(&mut out, labelled_line("ppid    :", fmt_dec(h.ppid as i64).as_slice()));
    let mut ug = fmt_udec(h.uid as u64);
    crate::text::append_chars(&mut ug, chars_of(":").as_slice());
    crate::text::append_chars(&mut ug, fmt_udec(h.gid as u64).as_slice());
    add_line(&mut out, labelled_line("uid:gid :", ug.as_slice()));
    let ghost p3 = texts(out@);
    if let Some((when, secs)) = &h.started {
        let mut v = chars_of(when.as_str());
        crate::text::append_chars(&mut v, chars_of(" (").as_slice());
        crate::text::append_chars(&mut v, chars_of(age_string(*secs).as_str()).as_slice());
        crate::text::append_chars(&mut v, chars_of(")").as_slice());
        assert(v@ =~= when@ + " ("@ + age_text(*secs as int) + ")"@);
        add_line(&mut out, labelled_line("started :", v.as_slice()));
    }
    let ghost p4 = texts(out@);
    let mut mem = fmt_udec(h.rss_kb);
    crate::text::append_chars(&mut mem, chars_of(" KB RSS / ").as_slice());
    crate::text::append_chars(&mut mem, fmt_udec(h.vm_size_kb).as_slice());
    crate::text::append_chars(&mut mem, chars_of(" KB VSZ").as_slice());
    add_line(&mut out, labelled_line("memory  :", mem.as_slice()));
    add_line(&mut out, labelled_line("threads :", fmt_dec(h.threads as i64).as_slice()));
    let ghost p5 = texts(out@);
    if let Some(f) = h.fd_count {
        add_line(&mut out, labelled_line("open fds:", fmt_udec(f as u64).as_slice()));
    }
    assert(texts(out@) =~= header_spec(*h));
    out
}

// ─── Kernel ──────────────────────────────────────────────────────────────────

/// The kernel section.
pub open spec fn kernel_spec(k: KernelInfo) -> Seq<Seq<char>> {
    section_head("🧠 KERNEL CONTEXT"@) + seq![
        "  Scheduler  : "@ + k.sched_policy@ + " | Nice: "@ + dec(k.nice as int) + " | Priority: "@ + dec(
            k.priority as int,
        ),
        "  OOM Score  : "@ + oom_colored_text(k.oom_score) + " / 1000  (adj: "@ + dec(k.oom_score_adj as int)
            + ")"@,
        "  Cgroup     : "@ + k.cgroup@,
        "  Seccomp    : "@ + seccomp_text(k.seccomp),
        "  Cap Prm    : "@ + k.cap_permitted@,
        "  Cap Eff    : "@ + k.cap_effective@,
    ] + (if k.namespaces@.len() == 0 {
        Seq::empty()
    } else {
        seq![
            "  Namespaces : "@ + join(
                k.namespaces@.map_values(|n: crate::model::NamespaceEntry| n.ns_type@),
                ", "@,
            ),
        ]
    }) + (match (k.voluntary_ctxt_switches, k.nonvoluntary_ctxt_switches) {
        (Some(v), Some(nv)) => seq![
            "  Ctx Sw     : "@ + dec(v as int) + " voluntary, "@ + dec(nv as int) + " involuntary"@,
        ],
        _ => Seq::empty(),
    })
}

/// The kernel section lines (see [`kernel_spec`]).
pub fn kernel_lines(k: &KernelInfo) -> (r: Vec<String>)
    ensures
        texts(r@) == kernel_spec(*k),
{
    let mut out: Vec<String> = Vec::new();
    add_section_head(&mut out, "🧠 KERNEL CONTEXT");
    let mut l = chars_of("  Scheduler  : ");
    crate::text::append_chars(&mut l, chars_of(k.sched_policy.as_str()).as_slice());
    crate::text::append_chars(&mut l, chars_of(" | Nice: ").as_slice());
    crate::text::append_chars(&mut l, fmt_dec(k.nice as i64).as_slice());
    crate::text::append_chars(&mut l, chars_of(" | Priority: ").as_slice());
    crate::text::append_chars(&mut l, fmt_dec(k.priority as i64).as_slice());
    add_chars(&mut out, l.as_slice());
    let mut l = chars_of("  OOM Score  : ");
    crate::text::append_chars(&mut l, chars_of(oom_colored(k.oom_score).as_str()).as_slice());
    crate::text::append_chars(&mut l, chars_of(" / 1000  (adj: ").as_slice());
    crate::text::append_chars(&mut l, fmt_dec(k.oom_score_adj as i64).as_slice());
    crate::text::append_chars(&mut l, chars_of(")").as_slice());
    add_chars(&mut out, l.as_slice());
    let mut l = chars_of("  Cgroup     : ");
    crate::text::append_chars(&mut l, chars_of(k.cgroup.as_str()).as_slice());
    add_chars(&mut out, l.as_slice());
    let mut l = chars_of("  Seccomp    : ");
    crate::text::append_chars(&mut l, chars_of(seccomp_label(k.seccomp)).as_slice());
    add_chars(&mut out, l.as_slice());
    let mut l = chars_of("  Cap Prm    : ");
    crate::text::append_chars(&mut l, chars_of(k.cap_permitted.as_str()).as_slice());
    add_chars(&mut out, l.as_slice());
    let mut l = chars_of("  Cap Eff    : ");
    crate::text::append_chars(&mut l, chars_of(k.cap_effective.as_str()).as_slice());
    add_chars(&mut out, l.as_slice());
    let ghost p1 = texts(out@);
    if k.namespaces.len() > 0 {
        let mut names: Vec<Vec<char>> = Vec::new();
        let mut i: usize = 0;
        while i < k.namespaces.len()
            invariant
                i <= k.namespaces@.len(),
                crate::text::views(names@) == k.namespaces@.take(i as int).map_values(
                    |n: crate::model::NamespaceEntry| n.ns_type@,
                ),
            decreases k.namespaces@.len() - i,
        {
            let ghost before = names@;
            let c = chars_of(k.namespaces[i].ns_type.as_str());
            names.push(c);
            assert(crate::text::views(names@) =~= crate::text::views(before).push(k.namespaces@[i as int].ns_type@));
            i = i + 1;
        }
        assert(k.namespaces@.take(i as int) =~= k.namespaces@);
        let mut l = chars_of("  Namespaces : ");
        let sep = chars_of(", ");
        crate::text::append_chars(&mut l, crate::text::join_chars(names.as_slice(), sep.as_slice()).as_slice());
        add_chars(&mut out, l.as_slice());
    }
    let ghost p2 = texts(out@);
    if let (Some(v), Some(nv)) = (k.voluntary_ctxt_switches, k.nonvoluntary_ctxt_switches) {
        let mut l = chars_of("  Ctx Sw     : ");
        crate::text::append_chars(&mut l, fmt_udec(v).as_slice());
        crate::text::append_chars(&mut l, chars_of(" voluntary, ").as_slice());
        crate::text::append_chars(&mut l, fmt_udec(nv).as_slice());
        crate::text::append_chars(&mut l, chars_of(" involuntary").as_slice());
        add_chars(&mut out, l.as_slice());
    }
    assert(texts(out@) =~= kernel_spec(*k));
    out
}

// ─── Network ─────────────────────────────────────────────────────────────────

/// A listening socket line.
pub open spec fn listen_line(s: SocketEntry) -> Seq<char> {
    "  "@ + green_text("▶"@) + " Listening: "@ + s.protocol@ + " "@ + s.local_addr@ + ":"@ + dec(s.local_port as int)
}

/// A connection line.
pub open spec fn conn_line(c: ConnectionEntry) -> Seq<char> {
    "    "@ + c.protocol@ + " "@ + c.local_addr@ + ":"@ + dec(c.local_port as int) + " → "@ + c.remote_addr@ + ":"@
        + dec(c.remote_port as int) + " ["@ + dimmed_text(c.state@) + "]"@
}

/// The network section: every listening socket (TCP, then UDP) and the
/// first 20 connections.
pub open spec fn network_spec(n: NetworkInfo) -> Seq<Seq<char>> {
    let ls = n.listening_tcp@ + n.listening_udp@;
    let cs = n.connections@;
    section_head("🌐 NETWORK"@) + if ls.len() == 0 && cs.len() == 0 {
        seq!["  No sockets."@]
    } else {
        ls.map_values(|s: SocketEntry| listen_line(s)) + if cs.len() == 0 {
            Seq::empty()
        } else {
            seq!["  "@ + yellow_text("▶"@) + " Connections ("@ + dec(cs.len() as int) + "):"@]
                + first_n(cs, 20).map_values(|c: ConnectionEntry| conn_line(c))
                + if cs.len() > 20 { seq!["    … and "@ + dec(cs.len() - 20) + " more"@] } else { Seq::empty() }
        }
    }
}

fn add_listen_line(out: &mut Vec<String>, s: &SocketEntry)
    ensures
        texts(final(out)@) == texts(old(out)@).push(listen_line(*s)),
{
    let mut l = String::new();
    push_str(&mut l, "  ");
    push_str(&mut l, paint_green("▶").as_str());
    push_str(&mut l, " Listening: ");
    push_str(&mut l, s.protocol.as_str());
    push_str(&mut l, " ");
    push_str(&mut l, s.local_addr.as_str());
    push_str(&mut l, ":");
    push_all(&mut l, fmt_udec(s.local_port as u64).as_slice());
    add_line(out, l);
}

fn add_conn_line(out: &mut Vec<String>, c: &ConnectionEntry)
    ensures
        texts(final(out)@) == texts(old(out)@).push(conn_line(*c)),
{
    let mut l = String::new();
    push_str(&mut l, "    ");
    push_str(&mut l, c.protocol.as_str());
    push_str(&mut l, " ");
    push_str(&mut l, c.local_addr.as_str());
    push_str(&mut l, ":");
    push_all(&mut l, fmt_udec(c.local_port as u64).as_slice());
    push_str(&mut l, " → ");
    push_str(&mut l, c.remote_addr.as_str());
    push_str(&mut l, ":");
    push_all(&mut l, fmt_udec(c.remote_port as u64).as_slice());
    push_str(&mut l, " [");
    push_str(&mut l, paint_dimmed(c.state.as_str()).as_str());
    push_str(&mut l, "]");
    add_line(out, l);
}

/// The network section lines (see [`network_spec`]).
pub fn network_lines(n: &NetworkInfo) -> (r: Vec<String>)
    ensures
        texts(r@) == network_spec(*n),
{
    let mut out: Vec<String> = Vec::new();
    add_section_head(&mut out, "🌐 NETWORK");
    let ghost head = texts(out@);
    let ls = n.listening();
    let ghost lv = ls@;
    if ls.len() == 0 && n.connections.len() == 0 {
        add_line(&mut out, String::from_str("  No sockets."));
        return out;
    }
    let mut i: usize = 0;
    while i < ls.len()
        invariant
            lv == ls@,
            i <= lv.len(),
            texts(out@) == head + lv.take(i as int).map_values(|s: SocketEntry| listen_line(s)),
        decreases lv.len() - i,
    {
        add_listen_line(&mut out, &ls[i]);
        assert(lv.take(i + 1).map_values(|s: SocketEntry| listen_line(s)) =~= lv.take(i as int).map_values(
            |s: SocketEntry| listen_line(s),
        ).push(listen_line(lv[i as int])));
        i = i + 1;
    }
    assert(lv.take(i as int) =~= lv);
    let ghost mid = texts(out@);
    let cs = &n.connections;
    if cs.len() > 0 {
        let mut l = String::new();
        push_str(&mut l, "  ");
        push_str(&mut l, paint_yellow("▶").as_str());
        push_str(&mut l, " Connections (");
        push_all(&mut l, fmt_udec(cs.len() as u64).as_slice());
        push_str(&mut l, "):");
        add_line(&mut out, l);
        let ghost top = texts(out@);
        let k: usize = if cs.len() <= 20 { cs.len() } else { 20 };
        let ghost items = first_n(cs@, 20);
        assert(items.len() == k);
        let mut j: usize = 0;
        while j < k
            invariant
                j <= k,
                k == items.len(),
                k <= cs@.len(),
                items == first_n(cs@, 20),
                texts(out@) == top + items.take(j as int).map_values(|c: ConnectionEntry| conn_line(c)),
            decreases k - j,
        {
            assert(items[j as int] == cs@[j as int]);
            add_conn_line(&mut out, &cs[j]);
            assert(items.take(j + 1).map_values(|c: ConnectionEntry| conn_line(c)) =~= items.take(
                j as int,
            ).map_values(|c: ConnectionEntry| conn_line(c)).push(conn_line(items[j as int])));
            j = j + 1;
        }
        assert(items.take(j as int) =~= items);
        if cs.len() > 20 {
            let mut l = String::new();
            push_str(&mut l, "    … and ");
            push_all(&mut l, fmt_udec((cs.len() - 20) as u64).as_slice());
            push_str(&mut l, " more");
            add_line(&mut out, l);
        }
    }
    assert(texts(out@) =~= network_spec(*n));
    out
}

// ─── Open files ──────────────────────────────────────────────────────────────

/// An open-file line.
pub open spec fn file_line(f: OpenFile) -> Seq<char> {
    "  "@ + pad_left(dec(f.fd as int), 4) + "  "@ + dimmed_text(pad_left(f.fd_type@, 10)) + "  "@ + f.description@
}

/// The open-files section: a table of the first 50 and the total.
pub open spec fn files_spec(fs: Seq<OpenFile>) -> Seq<Seq<char>> {
    section_head("📁 OPEN FILES"@) + seq![
        "  "@ + pad_left("FD"@, 4) + "  "@ + pad_left("Type"@, 10) + "  "@ + "Path"@,
        "  "@ + repeat_char('─', 58),
    ] + first_n(fs, 50).map_values(|f: OpenFile| file_line(f)) + (if fs.len() > 50 {
        seq!["  … "@ + dec(fs.len() - 50) + " more"@]
    } else {
        Seq::empty()
    }) + seq!["  Total: "@ + dec(fs.len() as int)]
}

fn add_file_line(out: &mut Vec<String>, f: &OpenFile)
    ensures
        texts(final(out)@) == texts(old(out)@).push(file_line(*f)),
{
    let mut l = String::new();
    push_str(&mut l, "  ");
    push_all(&mut l, padded_left(fmt_udec(f.fd as u64).as_slice(), 4).as_slice());
    push_str(&mut l, "  ");
    let t = string_of(padded_left(chars_of(f.fd_type.as_str()).as_slice(), 10).as_slice());
    push_str(&mut l, paint_dimmed(t.as_str()).as_str());
    push_str(&mut l, "  ");
    push_str(&mut l, f.description.as_str());
    add_line(out, l);
}

/// The open-files section lines (see [`files_spec`]).
pub fn files_lines(fs: &Vec<OpenFile>) -> (r: Vec<String>)
    ensures
        texts(r@) == files_spec(fs@),
{
    let mut out: Vec<String> = Vec::new();
    add_section_head(&mut out, "📁 OPEN FILES");
    let mut h = String::new();
    push_str(&mut h, "  ");
    push_all(&mut h, padded_left(chars_of("FD").as_slice(), 4).as_slice());
    push_str(&mut h, "  ");
    push_all(&mut h, padded_left(chars_of("Type").as_slice(), 10).as_slice());
    push_str(&mut h, "  ");
    push_str(&mut h, "Path");
    add_line(&mut out, h);
    let mut r = String::new();
    push_str(&mut r, "  ");
    push_all(&mut r, repeat('─', 58).as_slice());
    add_line(&mut out, r);
    let ghost top = texts(out@);
    let k: usize = if fs.len() <= 50 { fs.len() } else { 50 };
    let ghost items = first_n(fs@, 50);
    assert(items.len() == k);
    let mut j: usize = 0;
    while j < k
        invariant
            j <= k,
            k == items.len(),
            k <= fs@.len(),
            items == first_n(fs@, 50),
            texts(out@) == top + items.take(j as int).map_values(|f: OpenFile| file_line(f)),
        decreases k - j,
    {
        assert(items[j as int] == fs@[j as int]);
        add_file_line(&mut out, &fs[j]);
        assert(items.take(j + 1).map_values(|f: OpenFile| file_line(f)) =~= items.take(j as int).map_values(
            |f: OpenFile| file_line(f),
        ).push(file_line(items[j as int])));
        j = j + 1;
    }
    assert(items.take(j as int) =~= items);
    let ghost body = texts(out@);
    if fs.len() > 50 {
        let mut l = String::new();
        push_str(&mut l, "  … ");
        push_all(&mut l, fmt_udec((fs.len() - 50) as u64).as_slice());
        push_str(&mut l, " more");
        add_line(&mut out, l);
    }
    let mut t = String::new();
    push_str(&mut t, "  Total: ");
    push_all(&mut t, fmt_udec(fs.len() as u64).as_slice());
    add_line(&mut out, t);
    assert(texts(out@) =~= files_spec(fs@));
    out
}

// ─── Environment ─────────────────────────────────────────────────────────────

/// The widest key in bytes (10 when there are none), at most 40.
pub open spec fn key_width(vs: Seq<EnvVar>) -> nat {
    let m = max_key_bytes(vs);
    let w: nat = if vs.len() == 0 { 10 } else { m };
    if w < 40 { w } else { 40 }
}

/// The largest UTF-8 length of the keys of `vs` (0 when there are none).
pub open spec fn max_key_bytes(vs: Seq<EnvVar>) -> nat
    decreases vs.len(),
{
    if vs.len() == 0 {
        0
    } else {
        let prev = max_key_bytes(vs.drop_last());
        let l = vstd::utf8::encode_utf8(vs.last().key@).len();
        if l > prev { l } else { prev }
    }
}

/// A variable's line: the key coloured (yellow when redacted, else cyan)
/// and padded to the key column, then the value; a redacted value is
/// marked, a plain one cut at 80 characters.
pub open spec fn env_line(v: EnvVar, width: nat) -> Seq<char> {
    let ks = if v.redacted { yellow_text(v.key@) } else { cyan_text(v.key@) };
    let vs = if v.redacted { v.value@ + " "@ + red_text("[REDACTED]"@) } else { first_n(v.value@, 80) };
    "  "@ + pad_right(ks, width + 2) + " = "@ + vs
}

/// The environment section.
pub open spec fn env_spec(vs: Seq<EnvVar>) -> Seq<Seq<char>> {
    let secrets = crate::report::redacted_count(vs);
    section_head("🔐 ENVIRONMENT"@) + (if secrets > 0 {
        seq!["  "@ + yellow_text("⚠️"@) + " "@ + dec(secrets as int) + " secret(s) detected and redacted."@]
    } else {
        Seq::empty()
    }) + vs.map_values(|v: EnvVar| env_line(v, key_width(vs)))
}

fn widest_key(vs: &Vec<EnvVar>) -> (r: usize)
    ensures
        r == key_width(vs@),
{
    let mut m: usize = 0;
    let mut i: usize = 0;
    while i < vs.len()
        invariant
            i <= vs@.len(),
            m == max_key_bytes(vs@.take(i as int)),
        decreases vs@.len() - i,
    {
        assert(vs@.take(i + 1).drop_last() =~= vs@.take(i as int));
        assert(vs@.take(i + 1).last() == vs@[i as int]);
        let l = vs[i].key.as_str().as_bytes().len();
        if l > m {
            m = l;
        }
        i = i + 1;
    }
    assert(vs@.take(i as int) =~= vs@);
    let w: usize = if vs.len() == 0 { 10 } else { m };
    if w < 40 { w } else { 40 }
}

fn add_env_line(out: &mut Vec<String>, v: &EnvVar, width: usize)
    requires
        width <= 40,
    ensures
        texts(final(out)@) == texts(old(out)@).push(env_line(*v, width as nat)),
{
    let ks = if v.redacted { paint_yellow(v.key.as_str()) } else { paint_cyan(v.key.as_str()) };
    assert(ks@ == if v.redacted { yellow_text(v.key@) } else { cyan_text(v.key@) });
    let mut l = String::new();
    push_str(&mut l, "  ");
    let padded = padded_right(chars_of(ks.as_str()).as_slice(), width + 2);
    assert(padded@ == pad_right(ks@, (width + 2) as nat));
    push_all(&mut l, padded.as_slice());
    push_str(&mut l, " = ");
    let ghost head = l@;
    assert(head =~= "  "@ + pad_right(ks@, (width + 2) as nat) + " = "@);
    if v.redacted {
        push_str(&mut l, v.value.as_str());
        push_str(&mut l, " ");
        push_str(&mut l, paint_red("[REDACTED]").as_str());
    } else {
        let cs = chars_of(v.value.as_str());
        let k: usize = if cs.len() <= 80 { cs.len() } else { 80 };
        let part = crate::text::sub_vec(cs.as_slice(), 0, k);
        assert(part@ =~= first_n(v.value@, 80));
        push_all(&mut l, part.as_slice());
    }
    assert(l@ =~= env_line(*v, width as nat));
    add_line(out, l);
}

/// The environment section lines (see [`env_spec`]).
pub fn env_lines(vs: &Vec<EnvVar>) -> (r: Vec<String>)
    ensures
        texts(r@) == env_spec(vs@),
{
    let mut out: Vec<String> = Vec::new();
    add_section_head(&mut out, "🔐 ENVIRONMENT");
    let secrets = crate::report::count_redacted(vs);
    if secrets > 0 {
        let mut l = String::new();
        push_str(&mut l, "  ");
        push_str(&mut l, paint_yellow("⚠️").as_str());
        push_str(&mut l, " ");
        push_all(&mut l, fmt_udec(secrets).as_slice());
        push_str(&mut l, " secret(s) detected and redacted.");
        add_line(&mut out, l);
    }
    let ghost top = texts(out@);
    let w = widest_key(vs);
    let mut i: usize = 0;
    while i < vs.len()
        invariant
            i <= vs@.len(),
            w == key_width(vs@),
            w <= 40,
            texts(out@) == top + vs@.take(i as int).map_values(|v: EnvVar| env_line(v, key_width(vs@))),
        decreases vs@.len() - i,
    {
        add_env_line(&mut out, &vs[i], w);
        assert(vs@.take(i + 1).map_values(|v: EnvVar| env_line(v, key_width(vs@))) =~= vs@.take(i as int).map_values(
            |v: EnvVar| env_line(v, key_width(vs@)),
        ).push(env_line(vs@[i as int], key_width(vs@))));
        i = i + 1;
    }
    assert(vs@.take(i as int) =~= vs@);
    assert(texts(out@) =~= env_spec(vs@));
    out
}

// ─── Tree ────────────────────────────────────────────────────────────────────

/// The tree section.
pub open spec fn tree_section_spec(tree: ProcessNode, target: i32) -> Seq<Seq<char>> {
    section_head("🌳 PROCESS TREE"@) + tree_lines(node_view(tree), Seq::empty(), true, target)
}

/// The tree section lines (see [`tree_section_spec`]).
pub fn tree_section_lines(tree: &ProcessNode, target: i32) -> (r: Vec<String>)
    ensures
        texts(r@) == tree_section_spec(*tree, target),
{
    let mut out: Vec<String> = Vec::new();
    add_section_head(&mut out, "🌳 PROCESS TREE");
    let ghost top = texts(out@);
    let lines = draw_tree(tree, target);
    let mut i: usize = 0;
    let ghost all = texts(lines@);
    while i < lines.len()
        invariant
            i <= lines@.len(),
            all == texts(lines@),
            texts(out@) == top + all.take(i as int),
        decreases lines@.len() - i,
    {
        add_line(&mut out, lines[i].clone());
        assert(all.take(i + 1) =~= all.take(i as int).push(all[i as int]));
        i = i + 1;
    }
    assert(all.take(i as int) =~= all);
    out
}

} // verus!
