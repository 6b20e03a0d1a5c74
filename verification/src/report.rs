//! The Markdown report of a process snapshot. Decimal measurements (CPU
//! share, traffic rates, GPU figures) come already written as text.
use vstd::prelude::*;
use crate::env::EnvVar;
use crate::model::{ConnectionEntry, KernelInfo, OpenFile, SocketEntry};
use crate::network::NetworkInfo;
use crate::proc_reader::UnixSocketEntry;
use crate::control::{html_page, render_html};
use crate::text::{dec, fmt_dec, fmt_udec, push_all, push_str};

verus! {

broadcast use vstd::string::group_string_axioms;

/// One GPU row of the report, its measurements written as text.
pub struct GpuCells {
    pub index: usize,
    pub name: String,
    /// Utilisation with one decimal.
    pub utilization: String,
    /// Used memory in MB, no decimals.
    pub memory_used: String,
    /// Total memory in MB, no decimals.
    pub memory_total: String,
    /// Memory used by the process in MB, or `-`.
    pub process_mb: String,
}

/// What a report shows of a process.
pub struct ReportData {
    pub name: String,
    pub pid: i32,
    pub ppid: i32,
    pub exe: Option<String>,
    pub cmdline: String,
    pub state: String,
    pub uid: u32,
    pub gid: u32,
    /// The start time as written for people.
    pub started: Option<String>,
    pub threads: i32,
    pub rss_kb: u64,
    pub pss_kb: Option<u64>,
    pub swap_kb: Option<u64>,
    pub vm_size_kb: u64,
    /// The CPU share with one decimal; the resources section is shown only with it.
    pub cpu_percent: Option<String>,
    pub io_read_bytes: Option<u64>,
    pub io_write_bytes: Option<u64>,
    pub fd_count: Option<usize>,
    pub kernel: Option<KernelInfo>,
    pub network: Option<NetworkInfo>,
    /// Receive and send rates as written for people, when both are known.
    pub traffic: Option<(String, String)>,
    pub open_files: Option<Vec<OpenFile>>,
    pub env_vars: Option<Vec<EnvVar>>,
    pub gpu: Option<Vec<GpuCells>>,
    /// When the snapshot was taken, as written for people.
    pub captured_at: String,
    /// The version of the tool that took it.
    pub peek_version: String,
}

/// The texts of `s` after one another, each as `f` writes it.
pub open spec fn concat_map<T>(s: Seq<T>, f: spec_fn(T) -> Seq<char>) -> Seq<char>
    decreases s.len(),
{
    if s.len() == 0 {
        Seq::empty()
    } else {
        concat_map(s.drop_last(), f) + f(s.last())
    }
}

/// `n` in decimal.
pub open spec fn num(n: int) -> Seq<char> {
    dec(n)
}

/// A table row `| label | value |`.
pub open spec fn row(label: Seq<char>, value: Seq<char>) -> Seq<char> {
    "| "@ + label + " | "@ + value + " |\n"@
}

/// The heading of a two-column table.
pub open spec fn table_head() -> Seq<char> {
    "| Field | Value |\n|---|---|\n"@
}

/// The title, the capture line and the head of the process table.
pub open spec fn title_md(d: ReportData) -> Seq<char> {
    "# peek report — "@ + d.name@ + " (PID "@ + num(d.pid as int) + ")\n\n"@
        + "> Generated "@ + d.captured_at@ + " (peek "@ + d.peek_version@ + ")\n\n"@
        + "## Process\n\n"@ + table_head()
}

/// The name and PID rows.
pub open spec fn id_rows_md(d: ReportData) -> Seq<char> {
    row("Name"@, "`"@ + d.name@ + "`"@) + row("PID"@, num(d.pid as int)) + row("PPID"@, num(d.ppid as int))
}

/// The executable row, when known.
pub open spec fn exe_md(d: ReportData) -> Seq<char> {
    match d.exe {
        Some(e) => row("Exe"@, "`"@ + e@ + "`"@),
        None => Seq::empty(),
    }
}

/// The command, state and owner rows.
pub open spec fn run_rows_md(d: ReportData) -> Seq<char> {
    row("Command"@, "`"@ + d.cmdline@ + "`"@) + row("State"@, d.state@)
        + row("UID:GID"@, num(d.uid as int) + ":"@ + num(d.gid as int))
}

/// The start row, when known.
pub open spec fn started_md(d: ReportData) -> Seq<char> {
    match d.started {
        Some(s) => row("Started"@, s@),
        None => Seq::empty(),
    }
}

/// The thread and memory rows.
pub open spec fn size_rows_md(d: ReportData) -> Seq<char> {
    row("Threads"@, num(d.threads as int)) + row("RSS KB"@, num(d.rss_kb as int)) + memory_extra_md(d)
        + row("VSZ KB"@, num(d.vm_size_kb as int))
}

/// The header and the process table.
pub open spec fn process_md(d: ReportData) -> Seq<char> {
    title_md(d) + id_rows_md(d) + exe_md(d) + run_rows_md(d) + started_md(d) + size_rows_md(d)
}

/// The PSS and swap rows, when known.
pub open spec fn memory_extra_md(d: ReportData) -> Seq<char> {
    (match d.pss_kb { Some(p) => row("PSS KB"@, num(p as int)), None => Seq::empty() })
        + (match d.swap_kb { Some(s) => row("Swap KB"@, num(s as int)), None => Seq::empty() })
}

/// The disk and descriptor rows, when known.
pub open spec fn io_rows_md(d: ReportData) -> Seq<char> {
    (match d.io_read_bytes { Some(r) => row("Disk read"@, num(r as int) + " B"@), None => Seq::empty() })
        + (match d.io_write_bytes { Some(w) => row("Disk write"@, num(w as int) + " B"@), None => Seq::empty() })
        + (match d.fd_count { Some(f) => row("Open FDs"@, num(f as int)), None => Seq::empty() })
}

/// The resources section, shown when the CPU share is known.
pub open spec fn resources_md(d: ReportData) -> Seq<char> {
    match d.cpu_percent {
        None => Seq::empty(),
        Some(cpu) => "\n## Resources\n\n"@ + table_head() + row("CPU %"@, cpu@)
            + row("RSS KB"@, num(d.rss_kb as int)) + memory_extra_md(d) + io_rows_md(d),
    }
}

/// The kernel section.
pub open spec fn kernel_md(k: KernelInfo) -> Seq<char> {
    "\n## Kernel\n\n"@ + table_head()
        + row("Scheduler"@, k.sched_policy@)
        + row("Nice / Priority"@, num(k.nice as int) + " / "@ + num(k.priority as int))
        + row("OOM Score"@, num(k.oom_score as int) + " / 1000"@)
        + row("OOM Adj"@, num(k.oom_score_adj as int))
        + row("Cgroup"@, "`"@ + k.cgroup@ + "`"@)
        + row("Seccomp"@, num(k.seccomp as int))
        + row("Cap Permitted"@, k.cap_permitted@)
        + row("Cap Effective"@, k.cap_effective@)
}

/// A listening socket as a list item.
pub open spec fn listen_md(s: SocketEntry) -> Seq<char> {
    "- `"@ + s.protocol@ + "` "@ + s.local_addr@ + ":"@ + num(s.local_port as int) + "\n"@
}

/// [`listen_md`] as a function value.
pub open spec fn listen_md_fn() -> spec_fn(SocketEntry) -> Seq<char> {
    |s: SocketEntry| listen_md(s)
}

/// A Unix socket as a list item; an anonymous one is shown as such.
pub open spec fn unix_md(u: UnixSocketEntry) -> Seq<char> {
    "- `"@ + (if u.path@.len() == 0 { "<anonymous>"@ } else { u.path@ }) + "`\n"@
}

/// [`unix_md`] as a function value.
pub open spec fn unix_md_fn() -> spec_fn(UnixSocketEntry) -> Seq<char> {
    |u: UnixSocketEntry| unix_md(u)
}

/// A connection as a table row.
pub open spec fn conn_md(c: ConnectionEntry) -> Seq<char> {
    "| "@ + c.protocol@ + " | "@ + c.local_addr@ + ":"@ + num(c.local_port as int) + " | "@
        + c.remote_addr@ + ":"@ + num(c.remote_port as int) + " | "@ + c.state@ + " |\n"@
}

/// [`conn_md`] as a function value.
pub open spec fn conn_md_fn() -> spec_fn(ConnectionEntry) -> Seq<char> {
    |c: ConnectionEntry| conn_md(c)
}

/// The first `n` items of `s` (all of them when there are fewer).
pub open spec fn first_n<T>(s: Seq<T>, n: nat) -> Seq<T> {
    if s.len() <= n { s } else { s.take(n as int) }
}

/// A titled list of listening sockets, when there are any.
pub open spec fn listening_md(title: Seq<char>, ls: Seq<SocketEntry>) -> Seq<char> {
    if ls.len() == 0 { Seq::empty() } else { title + concat_map(ls, listen_md_fn()) }
}

/// The traffic line, when both rates are known.
pub open spec fn traffic_md(traffic: Option<(String, String)>) -> Seq<char> {
    match traffic {
        Some((rx, tx)) => "**Traffic:** RX "@ + rx@ + " / s, TX "@ + tx@ + " / s\n\n"@,
        None => Seq::empty(),
    }
}

/// The first 20 Unix sockets, when there are any.
pub open spec fn unix_section_md(u: Option<Vec<UnixSocketEntry>>) -> Seq<char> {
    match u {
        Some(u) => if u@.len() == 0 {
            Seq::empty()
        } else {
            "**Unix sockets:**\n\n"@ + concat_map(first_n(u@, 20), unix_md_fn())
        },
        None => Seq::empty(),
    }
}

/// The connection count and the first 30 connections, when there are any.
pub open spec fn conns_section_md(cs: Seq<ConnectionEntry>) -> Seq<char> {
    if cs.len() == 0 {
        Seq::empty()
    } else {
        "\n**Connections ("@ + num(cs.len() as int) + "):**\n\n"@
            + "| Proto | Local | Remote | State |\n|---|---|---|---|\n"@
            + concat_map(first_n(cs, 30), conn_md_fn())
    }
}

/// The network section: traffic, listening sockets, the first 20 Unix
/// sockets and the first 30 connections.
pub open spec fn network_md(n: NetworkInfo, traffic: Option<(String, String)>) -> Seq<char> {
    "\n## Network\n\n"@ + traffic_md(traffic)
        + listening_md("**Listening (TCP):**\n\n"@, n.listening_tcp@)
        + listening_md("**Listening (UDP):**\n\n"@, n.listening_udp@)
        + unix_section_md(n.unix_sockets)
        + conns_section_md(n.connections@)
}

/// An open file as a table row.
pub open spec fn file_md(f: OpenFile) -> Seq<char> {
    "| "@ + num(f.fd as int) + " | "@ + f.fd_type@ + " | `"@ + f.description@ + "` |\n"@
}

/// [`file_md`] as a function value.
pub open spec fn file_md_fn() -> spec_fn(OpenFile) -> Seq<char> {
    |f: OpenFile| file_md(f)
}

/// The open-files section: the count, then the first 50.
pub open spec fn files_md(fs: Seq<OpenFile>) -> Seq<char> {
    "\n## Open Files ("@ + num(fs.len() as int) + " total)\n\n"@ + "| FD | Type | Path |\n|---|---|---|\n"@
        + concat_map(first_n(fs, 50), file_md_fn())
}

/// The number of redacted variables.
pub open spec fn redacted_count(vs: Seq<EnvVar>) -> nat
    decreases vs.len(),
{
    if vs.len() == 0 {
        0
    } else {
        redacted_count(vs.drop_last()) + if vs.last().redacted { 1nat } else { 0nat }
    }
}

/// A variable as a table row.
pub open spec fn env_md(v: EnvVar) -> Seq<char> {
    "| `"@ + v.key@ + "` | "@ + v.value@ + " |\n"@
}

/// [`env_md`] as a function value.
pub open spec fn env_md_fn() -> spec_fn(EnvVar) -> Seq<char> {
    |v: EnvVar| env_md(v)
}

/// The environment section: counts, then every variable.
pub open spec fn env_section_md(vs: Seq<EnvVar>) -> Seq<char> {
    "\n## Environment ("@ + num(vs.len() as int) + " vars, "@ + num(redacted_count(vs) as int) + " redacted)\n\n"@
        + "| Key | Value |\n|---|---|\n"@ + concat_map(vs, env_md_fn())
}

/// A GPU as a table row.
pub open spec fn gpu_md(g: GpuCells) -> Seq<char> {
    "| "@ + num(g.index as int) + " | "@ + g.name@ + " | "@ + g.utilization@ + " | "@ + g.memory_used@
        + " MB | "@ + g.memory_total@ + " MB | "@ + g.process_mb@ + " |\n"@
}

/// [`gpu_md`] as a function value.
pub open spec fn gpu_md_fn() -> spec_fn(GpuCells) -> Seq<char> {
    |g: GpuCells| gpu_md(g)
}

/// The GPU section, when there are GPUs.
pub open spec fn gpu_section_md(gs: Seq<GpuCells>) -> Seq<char> {
    if gs.len() == 0 {
        Seq::empty()
    } else {
        "\n## GPU\n\n| Index | Name | Util% | Mem Used | Mem Total | Process (MB) |\n|---|---|---|---|---|---|\n"@
            + concat_map(gs, gpu_md_fn())
    }
}

/// The whole report.
pub open spec fn markdown_spec(d: ReportData) -> Seq<char> {
    process_md(d) + resources_md(d)
        + (match d.kernel { Some(k) => kernel_md(k), None => Seq::empty() })
        + (match d.network { Some(n) => network_md(n, d.traffic), None => Seq::empty() })
        + (match d.open_files { Some(f) => files_md(f@), None => Seq::empty() })
        + (match d.env_vars { Some(v) => env_section_md(v@), None => Seq::empty() })
        + (match d.gpu { Some(g) => gpu_section_md(g@), None => Seq::empty() })
}

fn put_u(out: &mut String, n: u64)
    ensures
        final(out)@ == old(out)@ + num(n as int),
{
    push_all(out, fmt_udec(n).as_slice());
}

fn put_i(out: &mut String, n: i64)
    ensures
        final(out)@ == old(out)@ + num(n as int),
{
    push_all(out, fmt_dec(n).as_slice());
}

fn put_row(out: &mut String, label: &str, value: &str)
    ensures
        final(out)@ == old(out)@ + row(label@, value@),
{
    push_str(out, "| ");
    push_str(out, label);
    push_str(out, " | ");
    push_str(out, value);
    push_str(out, " |\n");
}

fn num_text(n: u64) -> (r: String)
    ensures
        r@ == num(n as int),
{
    let mut s = String::new();
    put_u(&mut s, n);
    s
}

fn inum_text(n: i64) -> (r: String)
    ensures
        r@ == num(n as int),
{
    let mut s = String::new();
    put_i(&mut s, n);
    s
}

fn code_text(t: &str) -> (r: String)
    ensures
        r@ == "`"@ + t@ + "`"@,
{
    let mut s = String::new();
    push_str(&mut s, "`");
    push_str(&mut s, t);
    push_str(&mut s, "`");
    s
}

fn put_memory_extra(out: &mut String, d: &ReportData)
    ensures
        final(out)@ == old(out)@ + memory_extra_md(*d),
{
    let ghost start = out@;
    if let Some(p) = d.pss_kb {
        put_row(out, "PSS KB", num_text(p).as_str());
    }
    let ghost mid = out@;
    if let Some(s) = d.swap_kb {
        put_row(out, "Swap KB", num_text(s).as_str());
    }
    assert(out@ =~= start + memory_extra_md(*d));
}

fn put_title(out: &mut String, d: &ReportData)
    ensures
        final(out)@ == old(out)@ + title_md(*d),
{
    let ghost start = out@;
    push_str(out, "# peek report — ");
    push_str(out, d.name.as_str());
    push_str(out, " (PID ");
    put_i(out, d.pid as i64);
    push_str(out, ")\n\n");
    push_str(out, "> Generated ");
    push_str(out, d.captured_at.as_str());
    push_str(out, " (peek ");
    push_str(out, d.peek_version.as_str());
    push_str(out, ")\n\n");
    push_str(out, "## Process\n\n");
    push_str(out, "| Field | Value |\n|---|---|\n");
    assert(out@ =~= start + title_md(*d));
}

fn put_id_rows(out: &mut String, d: &ReportData)
    ensures
        final(out)@ == old(out)@ + id_rows_md(*d),
{
    let ghost start = out@;
    put_row(out, "Name", code_text(d.name.as_str()).as_str());
    put_row(out, "PID", inum_text(d.pid as i64).as_str());
    put_row(out, "PPID", inum_text(d.ppid as i64).as_str());
    assert(out@ =~= start + id_rows_md(*d));
}

fn put_run_rows(out: &mut String, d: &ReportData)
    ensures
        final(out)@ == old(out)@ + run_rows_md(*d),
{
    let ghost start = out@;
    put_row(out, "Command", code_text(d.cmdline.as_str()).as_str());
    put_row(out, "State", d.state.as_str());
    let mut ug = num_text(d.uid as u64);
    push_str(&mut ug, ":");
    put_u(&mut ug, d.gid as u64);
    put_row(out, "UID:GID", ug.as_str());
    assert(out@ =~= start + run_rows_md(*d));
}

fn put_size_rows(out: &mut String, d: &ReportData)
    ensures
        final(out)@ == old(out)@ + size_rows_md(*d),
{
    let ghost start = out@;
    put_row(out, "Threads", inum_text(d.threads as i64).as_str());
    put_row(out, "RSS KB", num_text(d.rss_kb).as_str());
    put_memory_extra(out, d);
    put_row(out, "VSZ KB", num_text(d.vm_size_kb).as_str());
    assert(out@ =~= start + size_rows_md(*d));
}

fn put_exe(out: &mut String, d: &ReportData)
    ensures
        final(out)@ == old(out)@ + exe_md(*d),
{
    let ghost s0 = out@;
    if let Some(e) = &d.exe {
        put_row(out, "Exe", code_text(e.as_str()).as_str());
    }
    assert(out@ =~= s0 + exe_md(*d));
}

fn put_started(out: &mut String, d: &ReportData)
    ensures
        final(out)@ == old(out)@ + started_md(*d),
{
    let ghost s0 = out@;
    if let Some(st) = &d.started {
        put_row(out, "Started", st.as_str());
    }
    assert(out@ =~= s0 + started_md(*d));
}

fn put_process(out: &mut String, d: &ReportData)
    ensures
        final(out)@ == old(out)@ + process_md(*d),
{
    let ghost s0 = out@;
    put_title(out, d);
    put_id_rows(out, d);
    let ghost p2 = title_md(*d) + id_rows_md(*d);
    assert(out@ =~= s0 + p2);
    put_exe(out, d);
    let ghost p3 = p2 + exe_md(*d);
    assert(out@ =~= s0 + p3);
    put_run_rows(out, d);
    let ghost p4 = p3 + run_rows_md(*d);
    assert(out@ =~= s0 + p4);
    put_started(out, d);
    let ghost p5 = p4 + started_md(*d);
    assert(out@ =~= s0 + p5);
    put_size_rows(out, d);
    assert(out@ =~= s0 + (p5 + size_rows_md(*d)));
}

fn put_io_rows(out: &mut String, d: &ReportData)
    ensures
        final(out)@ == old(out)@ + io_rows_md(*d),
{
    let ghost s0 = out@;
    if let Some(r) = d.io_read_bytes {
        let mut t = num_text(r);
        push_str(&mut t, " B");
        put_row(out, "Disk read", t.as_str());
    }
    let ghost s1 = out@;
    if let Some(w) = d.io_write_bytes {
        let mut t = num_text(w);
        push_str(&mut t, " B");
        put_row(out, "Disk write", t.as_str());
    }
    let ghost s2 = out@;
    if let Some(f) = d.fd_count {
        put_row(out, "Open FDs", num_text(f as u64).as_str());
    }
    assert(out@ =~= s0 + io_rows_md(*d));
}

fn put_resources(out: &mut String, d: &ReportData)
    ensures
        final(out)@ == old(out)@ + resources_md(*d),
{
    let ghost s0 = out@;
    if let Some(cpu) = &d.cpu_percent {
        push_str(out, "\n## Resources\n\n");
        push_str(out, "| Field | Value |\n|---|---|\n");
        put_row(out, "CPU %", cpu.as_str());
        let ghost p1 = "\n## Resources\n\n"@ + table_head() + row("CPU %"@, cpu@);
        assert(out@ =~= s0 + p1);
        put_row(out, "RSS KB", num_text(d.rss_kb).as_str());
        let ghost p2 = p1 + row("RSS KB"@, num(d.rss_kb as int));
        assert(out@ =~= s0 + p2);
        put_memory_extra(out, d);
        let ghost p3 = p2 + memory_extra_md(*d);
        assert(out@ =~= s0 + p3);
        put_io_rows(out, d);
        assert(out@ =~= s0 + (p3 + io_rows_md(*d)));
    } else {
        assert(out@ =~= s0 + resources_md(*d));
    }
}

fn put_kernel(out: &mut String, k: &KernelInfo)
    ensures
        final(out)@ == old(out)@ + kernel_md(*k),
{
    let ghost start = out@;
    push_str(out, "\n## Kernel\n\n");
    push_str(out, "| Field | Value |\n|---|---|\n");
    put_row(out, "Scheduler", k.sched_policy.as_str());
    let mut np = inum_text(k.nice as i64);
    push_str(&mut np, " / ");
    put_i(&mut np, k.priority as i64);
    put_row(out, "Nice / Priority", np.as_str());
    let mut os = inum_text(k.oom_score as i64);
    push_str(&mut os, " / 1000");
    put_row(out, "OOM Score", os.as_str());
    put_row(out, "OOM Adj", inum_text(k.oom_score_adj as i64).as_str());
    put_row(out, "Cgroup", code_text(k.cgroup.as_str()).as_str());
    put_row(out, "Seccomp", num_text(k.seccomp as u64).as_str());
    put_row(out, "Cap Permitted", k.cap_permitted.as_str());
    put_row(out, "Cap Effective", k.cap_effective.as_str());
    assert(out@ =~= start + kernel_md(*k));
}

fn put_listening(out: &mut String, title: &str, ls: &Vec<SocketEntry>)
    ensures
        final(out)@ == old(out)@ + listening_md(title@, ls@),
{
    let ghost start = out@;
    if ls.len() == 0 {
        assert(out@ =~= start + listening_md(title@, ls@));
        return;
    }
    push_str(out, title);
    let ghost head = out@;
    let mut i: usize = 0;
    assert(head + concat_map(ls@.take(0), listen_md_fn()) =~= head);
    while i < ls.len()
        invariant
            i <= ls@.len(),
            out@ == head + concat_map(ls@.take(i as int), listen_md_fn()),
        decreases ls@.len() - i,
    {
        let s = &ls[i];
        let ghost before = out@;
        push_str(out, "- `");
        push_str(out, s.protocol.as_str());
        push_str(out, "` ");
        push_str(out, s.local_addr.as_str());
        push_str(out, ":");
        put_u(out, s.local_port as u64);
        push_str(out, "\n");
        assert(out@ =~= before + listen_md(ls@[i as int]));
        assert(ls@.take(i + 1).drop_last() =~= ls@.take(i as int));
        assert(ls@.take(i + 1).last() == ls@[i as int]);
        i = i + 1;
    }
    assert(ls@.take(i as int) =~= ls@);
    assert(out@ =~= start + listening_md(title@, ls@));
}

fn put_unix(out: &mut String, us: &Vec<UnixSocketEntry>)
    requires
        us@.len() > 0,
    ensures
        final(out)@ == old(out)@ + "**Unix sockets:**\n\n"@ + concat_map(first_n(us@, 20), unix_md_fn()),
{
    let ghost start = out@;
    push_str(out, "**Unix sockets:**\n\n");
    let ghost head = out@;
    let n: usize = if us.len() <= 20 { us.len() } else { 20 };
    let ghost items = first_n(us@, 20);
    assert(items.len() == n);
    let mut i: usize = 0;
    assert(head + concat_map(items.take(0), unix_md_fn()) =~= head);
    while i < n
        invariant
            i <= n,
            n == items.len(),
            items == first_n(us@, 20),
            n <= us@.len(),
            out@ == head + concat_map(items.take(i as int), unix_md_fn()),
        decreases n - i,
    {
        let u = &us[i];
        assert(items[i as int] == us@[i as int]);
        let ghost before = out@;
        push_str(out, "- `");
        if u.path.as_str().is_empty() {
            push_str(out, "<anonymous>");
        } else {
            push_str(out, u.path.as_str());
        }
        push_str(out, "`\n");
        assert(out@ =~= before + unix_md(items[i as int]));
        assert(items.take(i + 1).drop_last() =~= items.take(i as int));
        assert(items.take(i + 1).last() == items[i as int]);
        i = i + 1;
    }
    assert(items.take(i as int) =~= items);
}

fn put_connections(out: &mut String, cs: &Vec<ConnectionEntry>)
    requires
        cs@.len() > 0,
    ensures
        final(out)@ == old(out)@ + "\n**Connections ("@ + num(cs@.len() as int) + "):**\n\n"@
            + "| Proto | Local | Remote | State |\n|---|---|---|---|\n"@ + concat_map(first_n(cs@, 30), conn_md_fn()),
{
    push_str(out, "\n**Connections (");
    put_u(out, cs.len() as u64);
    push_str(out, "):**\n\n");
    push_str(out, "| Proto | Local | Remote | State |\n|---|---|---|---|\n");
    let ghost head = out@;
    let n: usize = if cs.len() <= 30 { cs.len() } else { 30 };
    let ghost items = first_n(cs@, 30);
    assert(items.len() == n);
    let mut i: usize = 0;
    assert(head + concat_map(items.take(0), conn_md_fn()) =~= head);
    while i < n
        invariant
            i <= n,
            n == items.len(),
            items == first_n(cs@, 30),
            n <= cs@.len(),
            out@ == head + concat_map(items.take(i as int), conn_md_fn()),
        decreases n - i,
    {
        let c = &cs[i];
        assert(items[i as int] == cs@[i as int]);
        let ghost before = out@;
        push_str(out, "| ");
        push_str(out, c.protocol.as_str());
        push_str(out, " | ");
        push_str(out, c.local_addr.as_str());
        push_str(out, ":");
        put_u(out, c.local_port as u64);
        push_str(out, " | ");
        push_str(out, c.remote_addr.as_str());
        push_str(out, ":");
        put_u(out, c.remote_port as u64);
        push_str(out, " | ");
        push_str(out, c.state.as_str());
        push_str(out, " |\n");
        assert(out@ =~= before + conn_md(items[i as int]));
        assert(items.take(i + 1).drop_last() =~= items.take(i as int));
        assert(items.take(i + 1).last() == items[i as int]);
        i = i + 1;
    }
    assert(items.take(i as int) =~= items);
}

fn put_traffic(out: &mut String, traffic: &Option<(String, String)>)
    ensures
        final(out)@ == old(out)@ + traffic_md(*traffic),
{
    let ghost s1 = out@;
    if let Some((rx, tx)) = traffic {
        push_str(out, "**Traffic:** RX ");
        push_str(out, rx.as_str());
        push_str(out, " / s, TX ");
        push_str(out, tx.as_str());
        push_str(out, " / s\n\n");
    }
    assert(out@ =~= s1 + traffic_md(*traffic));
}

fn put_unix_section(out: &mut String, u: &Option<Vec<UnixSocketEntry>>)
    ensures
        final(out)@ == old(out)@ + unix_section_md(*u),
{
    let ghost s4 = out@;
    if let Some(v) = u {
        if v.len() > 0 {
            put_unix(out, v);
        }
    }
    assert(out@ =~= s4 + unix_section_md(*u));
}

fn put_conns_section(out: &mut String, cs: &Vec<ConnectionEntry>)
    ensures
        final(out)@ == old(out)@ + conns_section_md(cs@),
{
    let ghost s5 = out@;
    if cs.len() > 0 {
        put_connections(out, cs);
    }
    assert(out@ =~= s5 + conns_section_md(cs@));
}

fn put_network(out: &mut String, n: &NetworkInfo, traffic: &Option<(String, String)>)
    ensures
        final(out)@ == old(out)@ + network_md(*n, *traffic),
{
    let ghost s0 = out@;
    push_str(out, "\n## Network\n\n");
    put_traffic(out, traffic);
    let ghost p1 = "\n## Network\n\n"@ + traffic_md(*traffic);
    assert(out@ =~= s0 + p1);
    put_listening(out, "**Listening (TCP):**\n\n", &n.listening_tcp);
    let ghost p2 = p1 + listening_md("**Listening (TCP):**\n\n"@, n.listening_tcp@);
    assert(out@ =~= s0 + p2);
    put_listening(out, "**Listening (UDP):**\n\n", &n.listening_udp);
    let ghost p3 = p2 + listening_md("**Listening (UDP):**\n\n"@, n.listening_udp@);
    assert(out@ =~= s0 + p3);
    put_unix_section(out, &n.unix_sockets);
    let ghost p4 = p3 + unix_section_md(n.unix_sockets);
    assert(out@ =~= s0 + p4);
    put_conns_section(out, &n.connections);
    assert(out@ =~= s0 + (p4 + conns_section_md(n.connections@)));
}

fn put_files(out: &mut String, fs: &Vec<OpenFile>)
    ensures
        final(out)@ == old(out)@ + files_md(fs@),
{
    let ghost start = out@;
    push_str(out, "\n## Open Files (");
    put_u(out, fs.len() as u64);
    push_str(out, " total)\n\n");
    push_str(out, "| FD | Type | Path |\n|---|---|---|\n");
    let ghost head = out@;
    let n: usize = if fs.len() <= 50 { fs.len() } else { 50 };
    let ghost items = first_n(fs@, 50);
    assert(items.len() == n);
    let mut i: usize = 0;
    assert(head + concat_map(items.take(0), file_md_fn()) =~= head);
    while i < n
        invariant
            i <= n,
            n == items.len(),
            items == first_n(fs@, 50),
            n <= fs@.len(),
            out@ == head + concat_map(items.take(i as int), file_md_fn()),
        decreases n - i,
    {
        let f = &fs[i];
        assert(items[i as int] == fs@[i as int]);
        let ghost before = out@;
        push_str(out, "| ");
        put_u(out, f.fd as u64);
        push_str(out, " | ");
        push_str(out, f.fd_type.as_str());
        push_str(out, " | `");
        push_str(out, f.description.as_str());
        push_str(out, "` |\n");
        assert(out@ =~= before + file_md(items[i as int]));
        assert(items.take(i + 1).drop_last() =~= items.take(i as int));
        assert(items.take(i + 1).last() == items[i as int]);
        i = i + 1;
    }
    assert(items.take(i as int) =~= items);
    assert(out@ =~= start + files_md(fs@));
}

/// The number of redacted variables.
pub fn count_redacted(vs: &Vec<EnvVar>) -> (r: u64)
    ensures
        r == redacted_count(vs@),
{
    let mut k: u64 = 0;
    let mut i: usize = 0;
    while i < vs.len()
        invariant
            i <= vs@.len(),
            k == redacted_count(vs@.take(i as int)),
            k <= i,
        decreases vs@.len() - i,
    {
        assert(vs@.take(i + 1).drop_last() =~= vs@.take(i as int));
        assert(vs@.take(i + 1).last() == vs@[i as int]);
        if vs[i].redacted {
            k = k + 1;
        }
        i = i + 1;
    }
    assert(vs@.take(i as int) =~= vs@);
    k
}

fn put_env(out: &mut String, vs: &Vec<EnvVar>)
    ensures
        final(out)@ == old(out)@ + env_section_md(vs@),
{
    let ghost start = out@;
    push_str(out, "\n## Environment (");
    put_u(out, vs.len() as u64);
    push_str(out, " vars, ");
    put_u(out, count_redacted(vs));
    push_str(out, " redacted)\n\n");
    push_str(out, "| Key | Value |\n|---|---|\n");
    let ghost head = out@;
    let mut i: usize = 0;
    assert(head + concat_map(vs@.take(0), env_md_fn()) =~= head);
    while i < vs.len()
        invariant
            i <= vs@.len(),
            out@ == head + concat_map(vs@.take(i as int), env_md_fn()),
        decreases vs@.len() - i,
    {
        let v = &vs[i];
        let ghost before = out@;
        push_str(out, "| `");
        push_str(out, v.key.as_str());
        push_str(out, "` | ");
        push_str(out, v.value.as_str());
        push_str(out, " |\n");
        assert(out@ =~= before + env_md(vs@[i as int]));
        assert(vs@.take(i + 1).drop_last() =~= vs@.take(i as int));
        assert(vs@.take(i + 1).last() == vs@[i as int]);
        i = i + 1;
    }
    assert(vs@.take(i as int) =~= vs@);
    assert(out@ =~= start + env_section_md(vs@));
}

fn put_gpus(out: &mut String, gs: &Vec<GpuCells>)
    ensures
        final(out)@ == old(out)@ + gpu_section_md(gs@),
{
    let ghost start = out@;
    if gs.len() == 0 {
        assert(out@ =~= start + gpu_section_md(gs@));
        return;
    }
    push_str(out, "\n## GPU\n\n| Index | Name | Util% | Mem Used | Mem Total | Process (MB) |\n|---|---|---|---|---|---|\n");
    let ghost head = out@;
    let mut i: usize = 0;
    assert(head + concat_map(gs@.take(0), gpu_md_fn()) =~= head);
    while i < gs.len()
        invariant
            i <= gs@.len(),
            out@ == head + concat_map(gs@.take(i as int), gpu_md_fn()),
        decreases gs@.len() - i,
    {
        let g = &gs[i];
        let ghost before = out@;
        push_str(out, "| ");
        put_u(out, g.index as u64);
        push_str(out, " | ");
        push_str(out, g.name.as_str());
        push_str(out, " | ");
        push_str(out, g.utilization.as_str());
        push_str(out, " | ");
        push_str(out, g.memory_used.as_str());
        push_str(out, " MB | ");
        push_str(out, g.memory_total.as_str());
        push_str(out, " MB | ");
        push_str(out, g.process_mb.as_str());
        push_str(out, " |\n");
        assert(out@ =~= before + gpu_md(gs@[i as int]));
        assert(gs@.take(i + 1).drop_last() =~= gs@.take(i as int));
        assert(gs@.take(i + 1).last() == gs@[i as int]);
        i = i + 1;
    }
    assert(gs@.take(i as int) =~= gs@);
    assert(out@ =~= start + gpu_section_md(gs@));
}

/// The Markdown report of a snapshot (see [`markdown_spec`]).
pub fn render_markdown(d: &ReportData) -> (r: String)
    ensures
        r@ == markdown_spec(*d),
{
    let mut out = String::new();
    put_process(&mut out, d);
    put_resources(&mut out, d);
    let ghost a = out@;
    if let Some(k) = &d.kernel {
        put_kernel(&mut out, k);
    }
    let ghost b = out@;
    if let Some(n) = &d.network {
        put_network(&mut out, n, &d.traffic);
    }
    let ghost c = out@;
    if let Some(f) = &d.open_files {
        put_files(&mut out, f);
    }
    let ghost e = out@;
    if let Some(v) = &d.env_vars {
        put_env(&mut out, v);
    }
    let ghost g = out@;
    if let Some(gs) = &d.gpu {
        put_gpus(&mut out, gs);
    }
    assert(out@ =~= markdown_spec(*d));
    out
}

/// The HTML report page of a snapshot: its Markdown report, escaped, in the
/// page titled with its name and PID (see [`html_page`]).
pub fn render_html_report(d: &ReportData) -> (r: String)
    ensures
        r@ == html_page(d.name@, d.pid, markdown_spec(*d)),
{
    let md = render_markdown(d);
    render_html(d.name.as_str(), d.pid, md.as_str())
}

proof fn lemma_assoc(x: Seq<char>, y: Seq<char>, z: Seq<char>)
    ensures
        (x + y) + z == x + (y + z),
{
    assert((x + y) + z =~= x + (y + z));
}

proof fn lemma_infix(a: Seq<char>, h: Seq<char>, r: Seq<char>, b: Seq<char>)
    ensures
        crate::text::contains_seq(a + (h + r) + b, h),
{
    let m = a + (h + r) + b;
    assert(m.subrange(a.len() as int, (a.len() + h.len()) as int) =~= h);
}

/// The Open Files heading counts every open file, however many rows (at
/// most 50) the table lists.
pub proof fn lemma_files_heading_counts_all(d: ReportData)
    requires
        d.open_files is Some,
    ensures
        crate::text::contains_seq(
            markdown_spec(d),
            "\n## Open Files ("@ + dec(d.open_files->0@.len() as int) + " total)\n\n"@,
        ),
{
    let fs = d.open_files->0@;
    let h = "\n## Open Files ("@ + dec(fs.len() as int) + " total)\n\n"@;
    let r = "| FD | Type | Path |\n|---|---|---|\n"@ + concat_map(first_n(fs, 50), file_md_fn());
    let a = process_md(d) + resources_md(d)
        + (match d.kernel { Some(k) => kernel_md(k), None => Seq::empty() })
        + (match d.network { Some(n) => network_md(n, d.traffic), None => Seq::empty() });
    let b = (match d.env_vars { Some(v) => env_section_md(v@), None => Seq::empty() })
        + (match d.gpu { Some(g) => gpu_section_md(g@), None => Seq::empty() });
    lemma_infix(a, h, r, b);
    assert(files_md(fs) == h + r) by {
        lemma_assoc(h, "| FD | Type | Path |\n|---|---|---|\n"@, concat_map(first_n(fs, 50), file_md_fn()));
    }
    assert(markdown_spec(d) == (a + files_md(fs)) + b) by {
        lemma_assoc(a + files_md(fs), (match d.env_vars { Some(v) => env_section_md(v@), None => Seq::empty() }), (match d.gpu { Some(g) => gpu_section_md(g@), None => Seq::empty() }));
    }
}

/// The open-files table lists the files in their order: all of them when
/// there are at most 50, else the first 50.
pub proof fn lemma_files_rows_first_fifty(fs: Seq<OpenFile>)
    ensures
        fs.len() <= 50 ==> crate::text::contains_seq(files_md(fs), concat_map(fs, file_md_fn())),
        fs.len() > 50 ==> crate::text::contains_seq(files_md(fs), concat_map(fs.take(50), file_md_fn())),
{
    let h = "\n## Open Files ("@ + dec(fs.len() as int) + " total)\n\n"@ + "| FD | Type | Path |\n|---|---|---|\n"@;
    let rows = concat_map(first_n(fs, 50), file_md_fn());
    lemma_infix(h, rows, Seq::empty(), Seq::empty());
    assert(h + (rows + Seq::<char>::empty()) + Seq::<char>::empty() =~= files_md(fs));
}

} // verus!
