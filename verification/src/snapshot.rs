//! The baseline facts of a process snapshot, computed from what `/proc`
//! reports, and the comparison of two snapshots.
use vstd::prelude::*;
use crate::cli::{green_text, yellow_text};
use crate::explain::{format_state, state_text};
use crate::text::{chars_of, dec, fmt_dec, join, join_chars, push_all, push_str, string_of, views};

verus! {

broadcast use vstd::string::group_string_axioms;

/// The fields of `/proc/<pid>/stat` a snapshot uses.
pub struct StatFields {
    pub comm: String,
    pub state: char,
    pub ppid: i32,
    pub num_threads: i64,
    /// Start time in clock ticks after boot.
    pub starttime: u64,
}

/// The baseline facts of a process.
#[derive(Debug)]
pub struct ProcBasics {
    pub name: String,
    /// The arguments joined by spaces, or the name when there are none.
    pub cmdline: String,
    /// The state described in words.
    pub state: String,
    pub ppid: i32,
    pub threads: i32,
    pub vm_size_kb: u64,
    pub rss_kb: u64,
    /// Whole seconds from boot to the start.
    pub start_secs: u64,
    /// The nanoseconds beyond `start_secs`.
    pub start_nanos: u64,
}

/// The command line shown for a process: its arguments joined by spaces
/// when it has any, else its name.
pub open spec fn cmdline_text(args: Option<Vec<String>>, name: Seq<char>) -> Seq<char> {
    match args {
        Some(v) => if v@.len() > 0 { join(v@.map_values(|a: String| a@), " "@) } else { name },
        None => name,
    }
}

/// The baseline facts from the `stat` fields, the arguments (when
/// readable), the virtual and resident page counts from `statm` (four
/// kilobytes a page) and the clock ticks per second.
pub fn process_basics(
    stat: &StatFields,
    cmdline: Option<Vec<String>>,
    size_pages: u64,
    resident_pages: u64,
    ticks_per_sec: u64,
) -> (r: ProcBasics)
    requires
        size_pages * 4 <= u64::MAX,
        resident_pages * 4 <= u64::MAX,
        0 < ticks_per_sec <= u64::MAX / 1_000_000_000,
    ensures
        r.name@ == stat.comm@,
        r.cmdline@ == cmdline_text(cmdline, stat.comm@),
        r.state@ == state_text(stat.state),
        r.ppid == stat.ppid,
        r.threads == stat.num_threads as i32,
        r.vm_size_kb == size_pages * 4,
        r.rss_kb == resident_pages * 4,
        r.start_secs == stat.starttime / ticks_per_sec,
        r.start_nanos == (stat.starttime % ticks_per_sec) * 1_000_000_000 / (ticks_per_sec as int),
{
    let line = match &cmdline {
        Some(v) => {
            if v.len() > 0 {
                let mut parts: Vec<Vec<char>> = Vec::new();
                let mut i: usize = 0;
                while i < v.len()
                    invariant
                        i <= v@.len(),
                        views(parts@) == v@.take(i as int).map_values(|a: String| a@),
                    decreases v@.len() - i,
                {
                    let ghost before = parts@;
                    let c = chars_of(v[i].as_str());
                    parts.push(c);
                    assert(views(parts@) =~= views(before).push(v@[i as int]@));
                    i = i + 1;
                }
                assert(v@.take(i as int) =~= v@);
                let sp = chars_of(" ");
                string_of(join_chars(parts.as_slice(), sp.as_slice()).as_slice())
            } else {
                stat.comm.clone()
            }
        },
        None => stat.comm.clone(),
    };
    let rem = stat.starttime % ticks_per_sec;
    assert(rem * 1_000_000_000 <= u64::MAX) by (nonlinear_arith)
        requires
            rem < ticks_per_sec,
            ticks_per_sec <= u64::MAX / 1_000_000_000,
    ;
    ProcBasics {
        name: stat.comm.clone(),
        cmdline: line,
        state: format_state(stat.state),
        ppid: stat.ppid,
        threads: stat.num_threads as i32,
        vm_size_kb: size_pages * 4,
        rss_kb: resident_pages * 4,
        start_secs: stat.starttime / ticks_per_sec,
        start_nanos: rem * 1_000_000_000 / ticks_per_sec,
    }
}

/// The RSS change from the first process to the second, in kilobytes: a
/// growth (or no change) is signed and yellow, a shrink green.
pub open spec fn rss_delta_text(rss1: u64, rss2: u64) -> Seq<char> {
    let d: int = rss2 - rss1;
    if d >= 0 {
        yellow_text("+"@ + dec(d) + " KB"@)
    } else {
        green_text(dec(d) + " KB"@)
    }
}

/// The RSS change between two processes (see [`rss_delta_text`]).
pub fn rss_delta(rss1: u64, rss2: u64) -> (r: String)
    requires
        rss1 <= i64::MAX,
        rss2 <= i64::MAX,
    ensures
        r@ == rss_delta_text(rss1, rss2),
{
    let d: i64 = rss2 as i64 - rss1 as i64;
    let mut t = String::new();
    if d >= 0 {
        push_str(&mut t, "+");
    }
    push_all(&mut t, fmt_dec(d).as_slice());
    push_str(&mut t, " KB");
    if d >= 0 {
        crate::cli::paint_yellow(t.as_str())
    } else {
        crate::cli::paint_green(t.as_str())
    }
}

} // verus!
