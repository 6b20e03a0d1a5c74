//! Command-line decisions of `peek`: which sections to collect, which
//! command to run, how a target names a process, and how values are
//! shown on a terminal.
use vstd::prelude::*;
use owo_colors::OwoColorize;
use crate::model::{CollectOptions, PeekError};
use crate::text::{
    chars_of, contains_chars, contains_seq, dec, fmt_dec, join, join_chars, parse_i32,
    parse_i32_chars, push_all, push_str, string_of, views,
};

verus! {

broadcast use vstd::string::group_string_axioms;

/// The command line of `peek`.
#[derive(Debug)]
pub struct Cli {
    /// PID or process name to inspect.
    pub target: Option<String>,
    pub resources: bool,
    pub kernel: bool,
    pub network: bool,
    pub files: bool,
    pub env: bool,
    pub tree: bool,
    /// Live mode; the inner value is the refresh interval in milliseconds.
    pub watch: Option<Option<u64>>,
    pub kill: bool,
    pub all: bool,
    /// Export format: json | html | md | pdf.
    pub export: Option<String>,
    pub json: bool,
    pub no_color: bool,
    /// PID of a second process to compare with.
    pub diff: Option<i32>,
    pub history: bool,
    pub sudo: bool,
    /// Search for processes using this TCP/UDP port.
    pub port: Option<u16>,
}

/// The sections to collect for the command line: each requested one, all
/// of them with `--all`, and GPU only with `--all`.
pub fn make_opts(cli: &Cli) -> (o: CollectOptions)
    ensures
        o.resources == (cli.resources || cli.all),
        o.kernel == (cli.kernel || cli.all),
        o.network == (cli.network || cli.all),
        o.files == (cli.files || cli.all),
        o.env == (cli.env || cli.all),
        o.tree == (cli.tree || cli.all),
        o.gpu == cli.all,
{
    CollectOptions {
        resources: cli.resources || cli.all,
        kernel: cli.kernel || cli.all,
        network: cli.network || cli.all,
        files: cli.files || cli.all,
        env: cli.env || cli.all,
        tree: cli.tree || cli.all,
        gpu: cli.all,
    }
}

/// `--all` turns every section flag on; without it nothing changes.
pub fn expand_all(cli: &mut Cli)
    ensures
        old(cli).all ==> {
            &&& final(cli).resources && final(cli).kernel && final(cli).network
            &&& final(cli).files && final(cli).env && final(cli).tree
        },
        !old(cli).all ==> {
            &&& final(cli).resources == old(cli).resources
            &&& final(cli).kernel == old(cli).kernel
            &&& final(cli).network == old(cli).network
            &&& final(cli).files == old(cli).files
            &&& final(cli).env == old(cli).env
            &&& final(cli).tree == old(cli).tree
        },
        final(cli).all == old(cli).all,
        final(cli).target == old(cli).target,
        final(cli).watch == old(cli).watch,
        final(cli).kill == old(cli).kill,
        final(cli).export == old(cli).export,
        final(cli).json == old(cli).json,
        final(cli).no_color == old(cli).no_color,
        final(cli).diff == old(cli).diff,
        final(cli).history == old(cli).history,
        final(cli).sudo == old(cli).sudo,
        final(cli).port == old(cli).port,
{
    if cli.all {
        cli.resources = true;
        cli.kernel = true;
        cli.network = true;
        cli.files = true;
        cli.env = true;
        cli.tree = true;
    }
}

/// What `peek` does for a command line.
#[derive(Debug, PartialEq, Eq)]
pub enum Command {
    /// Search processes by port (needs no target).
    PortSearch(u16),
    /// Run again under `sudo` (needs no target).
    Sudo,
    /// Compare the target with another PID.
    Diff(i32),
    /// Show the target's history from the daemon.
    History,
    /// Live view with this refresh interval in milliseconds.
    Watch(u64),
    /// Export a report in this format.
    Export(String),
    /// Interactive kill/control panel.
    Kill,
    /// Raw JSON.
    Json,
    /// The terminal report.
    Report,
}

/// The command a command line asks for, the first that applies in the
/// order port search, sudo, diff, history, watch (2000 ms by default),
/// export, kill, JSON, report.
pub fn command_of(cli: &Cli) -> (c: Command)
    ensures
        c == (if cli.port is Some {
            Command::PortSearch(cli.port->0)
        } else if cli.sudo {
            Command::Sudo
        } else if cli.diff is Some {
            Command::Diff(cli.diff->0)
        } else if cli.history {
            Command::History
        } else if cli.watch is Some {
            Command::Watch(
                match cli.watch->0 {
                    Some(ms) => ms,
                    None => 2000u64,
                },
            )
        } else if cli.export is Some {
            Command::Export(cli.export->0)
        } else if cli.kill {
            Command::Kill
        } else if cli.json {
            Command::Json
        } else {
            Command::Report
        }),
{
    if let Some(port) = cli.port {
        return Command::PortSearch(port);
    }
    if cli.sudo {
        return Command::Sudo;
    }
    if let Some(pid2) = cli.diff {
        return Command::Diff(pid2);
    }
    if cli.history {
        return Command::History;
    }
    if let Some(interval) = cli.watch {
        let ms = match interval {
            Some(ms) => ms,
            None => 2000,
        };
        return Command::Watch(ms);
    }
    if let Some(fmt) = &cli.export {
        return Command::Export(fmt.clone());
    }
    if cli.kill {
        return Command::Kill;
    }
    if cli.json {
        return Command::Json;
    }
    Command::Report
}

/// Whether an argument is not the `--sudo` flag.
pub open spec fn not_sudo_flag(a: String) -> bool {
    a@ != "--sudo"@
}

/// The `sudo` arguments that run `exe` again: the path, then the
/// arguments after the program name without `--sudo`.
pub fn sudo_args(exe: String, args: &[String]) -> (r: Vec<String>)
    requires
        args@.len() >= 1,
    ensures
        r@ == seq![exe] + args@.drop_first().filter(|a: String| not_sudo_flag(a)),
{
    let mut out: Vec<String> = Vec::new();
    out.push(exe);
    let ghost rest = args@.drop_first();
    let ghost pred = |a: String| not_sudo_flag(a);
    let mut i: usize = 1;
    assert(rest.take(0).filter(pred) =~= Seq::<String>::empty()) by {
        reveal(Seq::filter);
    }
    while i < args.len()
        invariant
            1 <= i <= args@.len(),
            rest == args@.drop_first(),
            pred == (|a: String| not_sudo_flag(a)),
            out@ == seq![exe] + rest.take(i - 1).filter(pred),
        decreases args@.len() - i,
    {
        let a = &args[i];
        assert(rest.take(i as int) =~= rest.take(i - 1).push(args@[i as int]));
        proof {
            rest.take(i - 1).lemma_filter_push(args@[i as int], pred);
        }
        let flag = chars_of("--sudo");
        let cs = chars_of(a.as_str());
        if !crate::text::eq_chars(cs.as_slice(), flag.as_slice()) {
            out.push(a.clone());
            assert(rest.take(i as int).filter(pred) == rest.take(i - 1).filter(pred).push(args@[i as int]));
        } else {
            assert(rest.take(i as int).filter(pred) == rest.take(i - 1).filter(pred));
        }
        i = i + 1;
    }
    assert(rest.take(i - 1) =~= rest);
    out
}

// ─── Naming the target ───────────────────────────────────────────────────────

/// The PID a target names directly: a decimal `i32` above 0.
pub open spec fn target_pid_spec(t: Seq<char>) -> Option<int> {
    match parse_i32(t) {
        Some(p) if p > 0 => Some(p),
        _ => None,
    }
}

/// The PID a target names directly, if it is a positive decimal number;
/// otherwise the target is a process name.
pub fn target_pid(t: &str) -> (r: Option<i32>)
    ensures
        match r {
            Some(p) => target_pid_spec(t@) == Some(p as int),
            None => target_pid_spec(t@) is None,
        },
{
    let cs = chars_of(t);
    match parse_i32_chars(cs.as_slice()) {
        Some(p) if p > 0 => Some(p),
        _ => None,
    }
}

/// What is known of a running process when looking one up by name.
pub struct ProcEntry {
    pub pid: i32,
    /// The command name from `stat`, when readable.
    pub comm: Option<String>,
    /// The command-line arguments, when readable.
    pub cmdline: Option<Vec<String>>,
}

/// Whether a process matches a name: its command name is the name, or its
/// arguments joined by spaces contain it.
pub open spec fn proc_matches(e: ProcEntry, name: Seq<char>) -> bool {
    ||| (e.comm is Some && e.comm->0@ == name)
    ||| (e.cmdline is Some && contains_seq(
        join(e.cmdline->0@.map_values(|a: String| a@), " "@),
        name,
    ))
}

/// The PIDs of the processes in `procs` that match `name`, in order.
pub open spec fn matching_pids(procs: Seq<ProcEntry>, name: Seq<char>) -> Seq<i32>
    decreases procs.len(),
{
    if procs.len() == 0 {
        Seq::empty()
    } else {
        let prev = matching_pids(procs.drop_last(), name);
        if proc_matches(procs.last(), name) {
            prev.push(procs.last().pid)
        } else {
            prev
        }
    }
}

/// Why a name did not resolve to a process.
#[derive(Debug, PartialEq, Eq)]
pub enum NameError {
    /// No process matches.
    NoMatch,
}

fn joined_args(args: &Vec<String>) -> (r: Vec<char>)
    ensures
        r@ == join(args@.map_values(|a: String| a@), " "@),
{
    let mut parts: Vec<Vec<char>> = Vec::new();
    let mut i: usize = 0;
    while i < args.len()
        invariant
            i <= args@.len(),
            views(parts@) == args@.take(i as int).map_values(|a: String| a@),
        decreases args@.len() - i,
    {
        let ghost before = parts@;
        let c = chars_of(args[i].as_str());
        parts.push(c);
        assert(views(parts@) =~= views(before).push(args@[i as int]@));
        i = i + 1;
        assert(views(parts@) =~= args@.take(i as int).map_values(|a: String| a@));
    }
    assert(args@.take(i as int) =~= args@);
    let sp = chars_of(" ");
    join_chars(parts.as_slice(), sp.as_slice())
}

fn matches_name(e: &ProcEntry, name: &[char]) -> (r: bool)
    ensures
        r == proc_matches(*e, name@),
{
    if let Some(c) = &e.comm {
        let cs = chars_of(c.as_str());
        if crate::text::eq_chars(cs.as_slice(), name) {
            return true;
        }
    }
    if let Some(args) = &e.cmdline {
        let j = joined_args(args);
        return contains_chars(j.as_slice(), name);
    }
    false
}

/// The process `name` names among `procs`: the first matching process, in
/// the order of `procs`, or `NoMatch` when none matches.
pub fn resolve_by_name(name: &str, procs: &[ProcEntry]) -> (r: Result<i32, NameError>)
    ensures
        ({
            let m = matching_pids(procs@, name@);
            match r {
                Ok(p) => m.len() > 0 && p == m[0],
                Err(NameError::NoMatch) => m.len() == 0,
            }
        }),
{
    let nm = chars_of(name);
    let mut found: Vec<i32> = Vec::new();
    let mut i: usize = 0;
    while i < procs.len()
        invariant
            i <= procs@.len(),
            nm@ == name@,
            found@ == matching_pids(procs@.take(i as int), name@),
        decreases procs@.len() - i,
    {
        assert(procs@.take(i + 1).drop_last() =~= procs@.take(i as int));
        assert(procs@.take(i + 1).last() == procs@[i as int]);
        if matches_name(&procs[i], nm.as_slice()) {
            found.push(procs[i].pid);
        }
        i = i + 1;
    }
    assert(procs@.take(i as int) =~= procs@);
    if found.len() == 0 {
        Err(NameError::NoMatch)
    } else {
        Ok(found[0])
    }
}

/// The error text for a name that did not resolve.
pub open spec fn name_error_text(name: Seq<char>, e: NameError) -> Seq<char> {
    match e {
        NameError::NoMatch => "no process matching '"@ + name + "'"@,
    }
}

/// The error text for a name that did not resolve.
pub fn name_error_message(name: &str, e: &NameError) -> (r: String)
    ensures
        r@ == name_error_text(name@, *e),
{
    let mut out = String::new();
    match e {
        NameError::NoMatch => {
            push_str(&mut out, "no process matching '");
            push_str(&mut out, name);
            push_str(&mut out, "'");
        },
    }
    out
}

// ─── Shortening text ─────────────────────────────────────────────────────────

/// `s` shortened for a column of `max` bytes: unchanged when its UTF-8
/// form fits, else its first `max - 1` characters and an ellipsis.
pub open spec fn truncate_spec(s: Seq<char>, max: nat) -> Seq<char> {
    if vstd::utf8::encode_utf8(s).len() <= max {
        s
    } else {
        let keep: int = if max == 0 { 0 } else { max - 1 };
        s.take(if keep < s.len() { keep } else { s.len() as int }) + seq!['…']
    }
}

/// Shortens `s` to fit a column of `max` bytes (see [`truncate_spec`]).
pub fn truncate(s: &str, max: usize) -> (r: String)
    ensures
        r@ == truncate_spec(s@, max as nat),
{
    let bytes = s.as_bytes();
    if bytes.len() <= max {
        let mut out = String::new();
        push_str(&mut out, s);
        return out;
    }
    let cs = chars_of(s);
    let keep: usize = if max == 0 { 0 } else { max - 1 };
    let n: usize = if keep < cs.len() { keep } else { cs.len() };
    let mut out: Vec<char> = Vec::new();
    let mut i: usize = 0;
    while i < n
        invariant
            i <= n <= cs@.len(),
            out@ == cs@.take(i as int),
        decreases n - i,
    {
        out.push(cs[i]);
        i = i + 1;
        assert(out@ =~= cs@.take(i as int));
    }
    out.push('…');
    string_of(out.as_slice())
}

// ─── Colours ─────────────────────────────────────────────────────────────────

/// `s` with a green foreground (ANSI 32, reset by 39).
pub open spec fn green_text(s: Seq<char>) -> Seq<char> {
    "\x1b[32m"@ + s + "\x1b[39m"@
}

/// `s` with a yellow foreground (ANSI 33, reset by 39).
pub open spec fn yellow_text(s: Seq<char>) -> Seq<char> {
    "\x1b[33m"@ + s + "\x1b[39m"@
}

/// `s` bold around a red foreground.
pub open spec fn red_bold_text(s: Seq<char>) -> Seq<char> {
    bold_text(red_text(s))
}

/// owo-colors' `s.green().to_string()`: its `FgColorDisplay` writes the
/// foreground code of `Green`, the text, then the default-foreground code.
#[verifier::external_body]
pub(crate) fn paint_green(s: &str) -> (r: String)
    ensures
        r@ == green_text(s@),
{
    s.green().to_string()
}

/// owo-colors' `s.yellow().to_string()`, written as for [`paint_green`]
/// with the foreground code of `Yellow`.
#[verifier::external_body]
pub(crate) fn paint_yellow(s: &str) -> (r: String)
    ensures
        r@ == yellow_text(s@),
{
    s.yellow().to_string()
}

/// `s` red and bold, as `s.red().bold()` writes it.
pub(crate) fn paint_red_bold(s: &str) -> (r: String)
    ensures
        r@ == red_bold_text(s@),
{
    let red = paint_red(s);
    paint_bold(red.as_str())
}

/// `s` bold around a cyan foreground.
pub open spec fn cyan_bold_text(s: Seq<char>) -> Seq<char> {
    bold_text(cyan_text(s))
}

/// `s` cyan and bold, as `s.cyan().bold()` writes it.
pub(crate) fn paint_cyan_bold(s: &str) -> (r: String)
    ensures
        r@ == cyan_bold_text(s@),
{
    let cyan = paint_cyan(s);
    paint_bold(cyan.as_str())
}

/// `s` bold (ANSI 1, reset by 0).
pub open spec fn bold_text(s: Seq<char>) -> Seq<char> {
    "\x1b[1m"@ + s + "\x1b[0m"@
}

/// `s` dimmed (ANSI 2, reset by 0).
pub open spec fn dimmed_text(s: Seq<char>) -> Seq<char> {
    "\x1b[2m"@ + s + "\x1b[0m"@
}

/// `s` with a cyan foreground (ANSI 36, reset by 39).
pub open spec fn cyan_text(s: Seq<char>) -> Seq<char> {
    "\x1b[36m"@ + s + "\x1b[39m"@
}

/// `s` with a red foreground (ANSI 31, reset by 39).
pub open spec fn red_text(s: Seq<char>) -> Seq<char> {
    "\x1b[31m"@ + s + "\x1b[39m"@
}

/// owo-colors' `s.bold().to_string()`: `BoldDisplay` writes the bold code,
/// the text, then the reset code.
#[verifier::external_body]
pub(crate) fn paint_bold(s: &str) -> (r: String)
    ensures
        r@ == bold_text(s@),
{
    s.bold().to_string()
}

/// owo-colors' `s.dimmed().to_string()`: `DimDisplay` writes the dim code,
/// the text, then the reset code.
#[verifier::external_body]
pub(crate) fn paint_dimmed(s: &str) -> (r: String)
    ensures
        r@ == dimmed_text(s@),
{
    s.dimmed().to_string()
}

/// owo-colors' `s.cyan().to_string()`: `FgColorDisplay` writes the
/// foreground code of `Cyan`, the text, then the default-foreground code.
#[verifier::external_body]
pub(crate) fn paint_cyan(s: &str) -> (r: String)
    ensures
        r@ == cyan_text(s@),
{
    s.cyan().to_string()
}

/// owo-colors' `s.red().to_string()`, written as for [`paint_cyan`] with
/// the foreground code of `Red`.
#[verifier::external_body]
pub(crate) fn paint_red(s: &str) -> (r: String)
    ensures
        r@ == red_text(s@),
{
    s.red().to_string()
}

/// A process state coloured by severity: running green, zombie or dead
/// red and bold, uninterruptible yellow, anything else plain.
pub open spec fn state_colored(s: Seq<char>) -> Seq<char> {
    if "Running"@.is_prefix_of(s) {
        green_text(s)
    } else if "Zombie"@.is_prefix_of(s) || "Dead"@.is_prefix_of(s) {
        red_bold_text(s)
    } else if "Uninterruptible"@.is_prefix_of(s) {
        yellow_text(s)
    } else {
        s
    }
}

fn has_prefix(s: &[char], p: &str) -> (r: bool)
    ensures
        r == p@.is_prefix_of(s@),
{
    let pc = chars_of(p);
    crate::text::starts_with(s, pc.as_slice())
}

/// A process state coloured by severity (see [`state_colored`]).
pub fn colorize_state(s: &str) -> (r: String)
    ensures
        r@ == state_colored(s@),
{
    let cs = chars_of(s);
    if has_prefix(cs.as_slice(), "Running") {
        paint_green(s)
    } else if has_prefix(cs.as_slice(), "Zombie") || has_prefix(cs.as_slice(), "Dead") {
        paint_red_bold(s)
    } else if has_prefix(cs.as_slice(), "Uninterruptible") {
        paint_yellow(s)
    } else {
        let mut out = String::new();
        push_str(&mut out, s);
        out
    }
}

/// An OOM score coloured by risk: above 700 red and bold, above 400
/// yellow, otherwise green.
pub open spec fn oom_colored_text(score: i32) -> Seq<char> {
    if score > 700 {
        red_bold_text(dec(score as int))
    } else if score > 400 {
        yellow_text(dec(score as int))
    } else {
        green_text(dec(score as int))
    }
}

/// An OOM score coloured by risk (see [`oom_colored_text`]).
pub fn oom_colored(score: i32) -> (r: String)
    ensures
        r@ == oom_colored_text(score),
{
    let t = string_of(fmt_dec(score as i64).as_slice());
    if score > 700 {
        paint_red_bold(t.as_str())
    } else if score > 400 {
        paint_yellow(t.as_str())
    } else {
        paint_green(t.as_str())
    }
}

// ─── Ages and errors ─────────────────────────────────────────────────────────

/// How long ago something started, from the seconds elapsed: seconds
/// under a minute, minutes under an hour, hours under a day, else days.
pub open spec fn age_text(s: int) -> Seq<char> {
    if s < 60 {
        dec(s) + "s ago"@
    } else if s < 3600 {
        dec(s / 60) + "m ago"@
    } else if s < 86400 {
        dec(s / 3600) + "h ago"@
    } else {
        dec(s / 86400) + "d ago"@
    }
}

/// How long ago something started `secs` seconds ago (see [`age_text`]).
pub fn age_string(secs: i64) -> (r: String)
    ensures
        r@ == age_text(secs as int),
{
    let (n, unit): (i64, &str) = if secs < 60 {
        (secs, "s ago")
    } else if secs < 3600 {
        (secs / 60, "m ago")
    } else if secs < 86400 {
        (secs / 3600, "h ago")
    } else {
        (secs / 86400, "d ago")
    };
    let mut out = string_of(fmt_dec(n).as_slice());
    push_str(&mut out, unit);
    out
}

/// The text of an I/O error (its `Display`); what the system reports is
/// not stated here.
#[verifier::external_body]
fn io_error_text(e: &std::io::Error) -> (r: String)
{
    e.to_string()
}

/// The message of a snapshot error; for an I/O failure the text of the
/// I/O error follows the prefix.
pub fn core_error_message(e: &PeekError) -> (r: String)
    ensures
        match e {
            PeekError::NotFound(pid) => r@ == "process "@ + dec(*pid as int) + " not found"@,
            PeekError::ProcIo { pid, .. } => ("failed to read /proc for pid "@ + dec(
                *pid as int,
            ) + ": "@).is_prefix_of(r@),
            PeekError::ProcParse { pid, msg } => r@ == "failed to parse /proc for pid "@ + dec(
                *pid as int,
            ) + ": "@ + msg@,
        },
{
    let mut out = String::new();
    match e {
        PeekError::NotFound(pid) => {
            push_str(&mut out, "process ");
            push_all(&mut out, fmt_dec(*pid as i64).as_slice());
            push_str(&mut out, " not found");
        },
        PeekError::ProcIo { pid, source } => {
            push_str(&mut out, "failed to read /proc for pid ");
            push_all(&mut out, fmt_dec(*pid as i64).as_slice());
            push_str(&mut out, ": ");
            let t = io_error_text(source);
            let ghost head = out@;
            push_str(&mut out, t.as_str());
            assert(head.is_prefix_of(out@)) by {
                assert(out@.subrange(0, head.len() as int) =~= head);
            }
        },
        PeekError::ProcParse { pid, msg } => {
            push_str(&mut out, "failed to parse /proc for pid ");
            push_all(&mut out, fmt_dec(*pid as i64).as_slice());
            push_str(&mut out, ": ");
            push_str(&mut out, msg.as_str());
        },
    }
    out
}

} // verus!
