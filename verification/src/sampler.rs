//! Resource counters read from `/proc` text: disk I/O, memory (RSS, PSS,
//! swap), network-device byte totals and rates, and CPU ticks.
use vstd::prelude::*;
use crate::text::{
    chars_of, find_char, find_first, lines, or_zero, parse_u64, parse_u64_chars, skip_first,
    split_lines, split_whitespace, split_ws, starts_with, strip_prefix, sub_vec, trim, trim_chars,
    trim_start, trim_start_chars, views,
};
use crate::proc_text::{stat_tail, stat_tail_chars, stat_tail_ok};

verus! {

broadcast use vstd::string::group_string_axioms;

// ─── Disk I/O ────────────────────────────────────────────────────────────────

/// The `(read_bytes, write_bytes)` counters after reading lines `ls` in
/// order: each `read_bytes: ` or `write_bytes: ` line sets its counter to
/// its trimmed number, or 0 when that does not parse.
pub open spec fn io_fold(ls: Seq<Seq<char>>) -> (nat, nat)
    decreases ls.len(),
{
    if ls.len() == 0 {
        (0, 0)
    } else {
        let (r, w) = io_fold(ls.drop_last());
        let line = ls.last();
        if "read_bytes: "@.is_prefix_of(line) {
            (or_zero(parse_u64(trim(line.skip("read_bytes: "@.len() as int)))), w)
        } else if "write_bytes: "@.is_prefix_of(line) {
            (r, or_zero(parse_u64(trim(line.skip("write_bytes: "@.len() as int)))))
        } else {
            (r, w)
        }
    }
}

/// `(read_bytes, write_bytes)` from the contents of `/proc/<pid>/io`.
pub fn read_io(raw: &str) -> (r: (u64, u64))
    ensures
        (r.0 as nat, r.1 as nat) == io_fold(lines(raw@)),
{
    let cs = chars_of(raw);
    let ls = split_lines(cs.as_slice());
    let ghost all = views(ls@);
    let rp = chars_of("read_bytes: ");
    let wp = chars_of("write_bytes: ");
    let mut read_bytes: u64 = 0;
    let mut write_bytes: u64 = 0;
    let mut i: usize = 0;
    while i < ls.len()
        invariant
            all == views(ls@),
            rp@ == "read_bytes: "@,
            wp@ == "write_bytes: "@,
            i <= ls@.len(),
            (read_bytes as nat, write_bytes as nat) == io_fold(all.take(i as int)),
        decreases ls@.len() - i,
    {
        assert(all.take(i + 1).drop_last() =~= all.take(i as int));
        assert(all.take(i + 1).last() == ls@[i as int]@);
        let line = ls[i].as_slice();
        match strip_prefix(line, rp.as_slice()) {
            Some(v) => {
                let t = trim_chars(v.as_slice());
                read_bytes = match parse_u64_chars(t.as_slice()) {
                    Some(n) => n,
                    None => 0,
                };
            },
            None => {
                match strip_prefix(line, wp.as_slice()) {
                    Some(v) => {
                        let t = trim_chars(v.as_slice());
                        write_bytes = match parse_u64_chars(t.as_slice()) {
                            Some(n) => n,
                            None => 0,
                        };
                    },
                    None => {},
                }
            },
        }
        i = i + 1;
    }
    assert(all.take(i as int) =~= all);
    (read_bytes, write_bytes)
}

// ─── Memory ──────────────────────────────────────────────────────────────────

/// The value of field `name` in `smaps_rollup` lines: the first line that,
/// after leading whitespace, starts with `name` decides; it gives the
/// number after `name`, optional whitespace, `:` and whitespace, or nothing
/// when that is not there.
pub open spec fn smaps_field(ls: Seq<Seq<char>>, name: Seq<char>) -> Option<nat>
    decreases ls.len(),
{
    if ls.len() == 0 {
        None
    } else {
        let line = trim_start(ls[0]);
        if name.is_prefix_of(line) {
            let rest = trim_start(line.skip(name.len() as int));
            if rest.len() > 0 && rest[0] == ':' {
                let toks = split_ws(trim_start(rest.drop_first()));
                if toks.len() > 0 {
                    parse_u64(toks[0])
                } else {
                    None
                }
            } else {
                None
            }
        } else {
            smaps_field(ls.drop_first(), name)
        }
    }
}

fn field_value(line: &[char], name: &[char]) -> (r: Option<Option<u64>>)
    ensures
        match r {
            None => !name@.is_prefix_of(trim_start(line@)),
            Some(v) => name@.is_prefix_of(trim_start(line@)) && ({
                let t = trim_start(line@);
                let rest = trim_start(t.skip(name@.len() as int));
                let expect = if rest.len() > 0 && rest[0] == ':' {
                    let toks = split_ws(trim_start(rest.drop_first()));
                    if toks.len() > 0 {
                        parse_u64(toks[0])
                    } else {
                        None
                    }
                } else {
                    None
                };
                match v {
                    Some(n) => expect == Some(n as nat),
                    None => expect is None,
                }
            }),
        },
{
    let t = trim_start_chars(line);
    match strip_prefix(t.as_slice(), name) {
        None => None,
        Some(after) => {
            let rest = trim_start_chars(after.as_slice());
            if rest.len() > 0 && rest[0] == ':' {
                let n = rest.len();
                let r2 = sub_vec(rest.as_slice(), 1, n);
                assert(r2@ =~= rest@.drop_first());
                let r3 = trim_start_chars(r2.as_slice());
                let toks = split_whitespace(r3.as_slice());
                if toks.len() > 0 {
                    Some(parse_u64_chars(toks[0].as_slice()))
                } else {
                    Some(None)
                }
            } else {
                Some(None)
            }
        },
    }
}

/// Field `name` (e.g. `Rss`, `Pss`) in KB from `smaps_rollup` text.
pub fn read_smaps_rollup_field(raw: &str, name: &str) -> (r: Option<u64>)
    ensures
        match r {
            Some(n) => smaps_field(lines(raw@), name@) == Some(n as nat),
            None => smaps_field(lines(raw@), name@) is None,
        },
{
    let cs = chars_of(raw);
    let ls = split_lines(cs.as_slice());
    let nm = chars_of(name);
    let ghost all = views(ls@);
    let mut i: usize = 0;
    assert(all.skip(0) =~= all);
    while i < ls.len()
        invariant
            all == views(ls@),
            all == lines(raw@),
            nm@ == name@,
            i <= ls@.len(),
            smaps_field(all, name@) == smaps_field(all.skip(i as int), name@),
        decreases ls@.len() - i,
    {
        let ghost rest = all.skip(i as int);
        assert(rest[0] == ls@[i as int]@);
        assert(rest.drop_first() =~= all.skip(i + 1));
        match field_value(ls[i].as_slice(), nm.as_slice()) {
            Some(v) => return v,
            None => {},
        }
        i = i + 1;
    }
    assert(all.skip(i as int) =~= Seq::<Seq<char>>::empty());
    None
}

/// `s` without its `,` characters.
pub open spec fn without_commas(s: Seq<char>) -> Seq<char> {
    s.filter(|c: char| c != ',')
}

fn remove_commas(s: &[char]) -> (r: Vec<char>)
    ensures
        r@ == without_commas(s@),
{
    let mut out: Vec<char> = Vec::new();
    let mut i: usize = 0;
    while i < s.len()
        invariant
            i <= s@.len(),
            out@ == without_commas(s@.take(i as int)),
        decreases s@.len() - i,
    {
        proof {
            reveal(Seq::filter);
            assert(s@.take(i + 1).drop_last() =~= s@.take(i as int));
        }
        if s[i] != ',' {
            out.push(s[i]);
        }
        i = i + 1;
    }
    assert(s@.take(i as int) =~= s@);
    out
}

/// Swap usage in KB from `status` lines: the first `VmSwap:` line gives its
/// first number (commas removed), or nothing when there is none or it does
/// not parse; no `VmSwap:` line gives 0.
pub open spec fn vmswap(ls: Seq<Seq<char>>) -> Option<nat>
    decreases ls.len(),
{
    if ls.len() == 0 {
        Some(0)
    } else if "VmSwap:"@.is_prefix_of(ls[0]) {
        let toks = split_ws(trim_start(ls[0].skip("VmSwap:"@.len() as int)));
        if toks.len() > 0 {
            parse_u64(without_commas(toks[0]))
        } else {
            None
        }
    } else {
        vmswap(ls.drop_first())
    }
}

/// Swap usage in KB from the contents of `/proc/<pid>/status`.
pub fn read_vmswap_kb(raw: &str) -> (r: Option<u64>)
    ensures
        match r {
            Some(n) => vmswap(lines(raw@)) == Some(n as nat),
            None => vmswap(lines(raw@)) is None,
        },
{
    let cs = chars_of(raw);
    let ls = split_lines(cs.as_slice());
    let pre = chars_of("VmSwap:");
    let ghost all = views(ls@);
    let mut i: usize = 0;
    assert(all.skip(0) =~= all);
    while i < ls.len()
        invariant
            all == views(ls@),
            all == lines(raw@),
            pre@ == "VmSwap:"@,
            i <= ls@.len(),
            vmswap(all) == vmswap(all.skip(i as int)),
        decreases ls@.len() - i,
    {
        let ghost rest = all.skip(i as int);
        assert(rest[0] == ls@[i as int]@);
        assert(rest.drop_first() =~= all.skip(i + 1));
        match strip_prefix(ls[i].as_slice(), pre.as_slice()) {
            Some(after) => {
                let t = trim_start_chars(after.as_slice());
                let toks = split_whitespace(t.as_slice());
                if toks.len() > 0 {
                    let d = remove_commas(toks[0].as_slice());
                    return parse_u64_chars(d.as_slice());
                } else {
                    return None;
                }
            },
            None => {},
        }
        i = i + 1;
    }
    assert(all.skip(i as int) =~= Seq::<Seq<char>>::empty());
    Some(0)
}

/// The memory snapshot `(rss_kb, pss_kb, swap_kb)` the texts give.
pub open spec fn memory_spec(smaps: Option<Seq<char>>, status: Option<Seq<char>>) -> Option<(nat, nat, nat)> {
    match smaps {
        None => None,
        Some(s) => match (smaps_field(lines(s), "Rss"@), smaps_field(lines(s), "Pss"@)) {
            (Some(rss), Some(pss)) => {
                let swap = match status {
                    Some(st) => or_zero(vmswap(lines(st))),
                    None => 0,
                };
                Some((rss, pss, swap))
            },
            _ => None,
        },
    }
}

/// The view of an optional string.
pub open spec fn opt_chars(o: Option<&str>) -> Option<Seq<char>> {
    match o {
        Some(s) => Some(s@),
        None => None,
    }
}

/// Memory snapshot: RSS and PSS from `smaps_rollup`, swap from `status`, in
/// KB; `None` when `smaps_rollup` is missing or lacks either field.
pub fn sample_memory(smaps_rollup: Option<&str>, status: Option<&str>) -> (r: Option<(u64, u64, u64)>)
    ensures
        match r {
            Some(t) => memory_spec(opt_chars(smaps_rollup), opt_chars(status)) == Some(
                (t.0 as nat, t.1 as nat, t.2 as nat),
            ),
            None => memory_spec(opt_chars(smaps_rollup), opt_chars(status)) is None,
        },
{
    let smaps = match smaps_rollup {
        Some(s) => s,
        None => return None,
    };
    let rss_kb = match read_smaps_rollup_field(smaps, "Rss") {
        Some(v) => v,
        None => return None,
    };
    let pss_kb = match read_smaps_rollup_field(smaps, "Pss") {
        Some(v) => v,
        None => return None,
    };
    let swap_kb = match status {
        Some(st) => match read_vmswap_kb(st) {
            Some(v) => v,
            None => 0,
        },
        None => 0,
    };
    Some((rss_kb, pss_kb, swap_kb))
}

// ─── Network devices ─────────────────────────────────────────────────────────

/// The tokens of `toks` that parse as `u64`, parsed, in order
/// (`filter_map(|s| s.parse().ok())`).
pub open spec fn u64_tokens(toks: Seq<Seq<char>>) -> Seq<nat>
    decreases toks.len(),
{
    if toks.len() == 0 {
        Seq::empty()
    } else {
        let prev = u64_tokens(toks.drop_last());
        match parse_u64(toks.last()) {
            Some(v) => prev.push(v),
            None => prev,
        }
    }
}

fn u64_tokens_exec(toks: &[Vec<char>]) -> (r: Vec<u64>)
    ensures
        r@.map_values(|x: u64| x as nat) == u64_tokens(views(toks@)),
{
    let ghost all = views(toks@);
    let mut out: Vec<u64> = Vec::new();
    let mut i: usize = 0;
    while i < toks.len()
        invariant
            all == views(toks@),
            i <= toks@.len(),
            out@.map_values(|x: u64| x as nat) == u64_tokens(all.take(i as int)),
        decreases toks@.len() - i,
    {
        assert(all.take(i + 1).drop_last() =~= all.take(i as int));
        assert(all.take(i + 1).last() == toks@[i as int]@);
        let ghost prev = out@;
        match parse_u64_chars(toks[i].as_slice()) {
            Some(v) => {
                out.push(v);
                assert(out@.map_values(|x: u64| x as nat) =~= prev.map_values(|x: u64| x as nat).push(
                    v as nat,
                ));
            },
            None => {},
        }
        i = i + 1;
    }
    assert(all.take(i as int) =~= all);
    out
}

/// The numbers after the `:` of a device line.
pub open spec fn dev_numbers(line: Seq<char>, colon: int) -> Seq<nat> {
    u64_tokens(split_ws(line.skip(colon + 1)))
}

/// Reading device lines `ls` from running totals `(rx, tx)`: whether the
/// reading completes without an out-of-range index or an overflow, and the
/// totals it gives. A line without `:` ends the reading with no totals; a
/// line with at least nine numbers adds its first to `rx` and its ninth to
/// `tx`; a line with exactly eight numbers cannot be read.
pub open spec fn net_dev_run(ls: Seq<Seq<char>>, rx: nat, tx: nat) -> (bool, Option<(nat, nat)>)
    decreases ls.len(),
{
    if ls.len() == 0 {
        (true, Some((rx, tx)))
    } else {
        match find_first(ls[0], ':') {
            None => (true, None),
            Some(c) => {
                let nums = dev_numbers(ls[0], c);
                if nums.len() == 8 {
                    (false, None)
                } else if nums.len() > 8 {
                    let rx2 = rx + nums[0];
                    let tx2 = tx + nums[8];
                    if rx2 > u64::MAX || tx2 > u64::MAX {
                        (false, None)
                    } else {
                        net_dev_run(ls.drop_first(), rx2, tx2)
                    }
                } else {
                    net_dev_run(ls.drop_first(), rx, tx)
                }
            },
        }
    }
}

/// The device lines of a `net/dev` text: all but the two header lines.
pub open spec fn dev_lines(raw: Seq<char>) -> Seq<Seq<char>> {
    skip_first(skip_first(lines(raw)))
}

/// Whether a `net/dev` text can be totalled.
pub open spec fn net_dev_readable(raw: Seq<char>) -> bool {
    net_dev_run(dev_lines(raw), 0, 0).0
}

/// The `(rx, tx)` byte totals a `net/dev` text gives.
pub open spec fn net_dev_totals(raw: Seq<char>) -> Option<(nat, nat)> {
    net_dev_run(dev_lines(raw), 0, 0).1
}

/// Total RX and TX bytes over all interfaces from `net/dev` text.
pub fn read_net_dev_from_text(raw: &str) -> (r: Option<(u64, u64)>)
    requires
        net_dev_readable(raw@),
    ensures
        match r {
            Some(t) => net_dev_totals(raw@) == Some((t.0 as nat, t.1 as nat)),
            None => net_dev_totals(raw@) is None,
        },
{
    let cs = chars_of(raw);
    let ls = split_lines(cs.as_slice());
    let ghost all = views(ls@);
    let ghost body = dev_lines(raw@);
    let mut rx_total: u64 = 0;
    let mut tx_total: u64 = 0;
    let mut i: usize = 2;
    if ls.len() < 2 {
        assert(body.len() == 0);
        return Some((0, 0));
    }
    assert(body =~= all.skip(2));
    while i < ls.len()
        invariant
            all == views(ls@),
            2 <= i <= ls@.len(),
            body == all.skip(2),
            body == dev_lines(raw@),
            net_dev_run(body, 0, 0) == net_dev_run(all.skip(i as int), rx_total as nat, tx_total as nat),
            net_dev_run(body, 0, 0).0,
        decreases ls@.len() - i,
    {
        let ghost rest = all.skip(i as int);
        assert(rest[0] == ls@[i as int]@);
        assert(rest.drop_first() =~= all.skip(i + 1));
        let line = ls[i].as_slice();
        let n = line.len();
        let colon = match find_char(line, ':') {
            Some(c) => c,
            None => {
                assert(find_first(rest[0], ':') is None);
                assert(net_dev_run(rest, rx_total as nat, tx_total as nat).1 is None);
                return None;
            },
        };
        let after = sub_vec(line, colon + 1, n);
        assert(after@ =~= line@.skip(colon + 1));
        let toks = split_whitespace(after.as_slice());
        let nums = u64_tokens_exec(toks.as_slice());
        let ghost nv = nums@.map_values(|x: u64| x as nat);
        assert(nv.len() == nums@.len());
        if nums.len() >= 8 {
            assert(nums.len() > 8);
            assert(nv[0] == nums@[0] as nat);
            assert(nv[8] == nums@[8] as nat);
            rx_total = rx_total + nums[0];
            tx_total = tx_total + nums[8];
        }
        i = i + 1;
    }
    assert(all.skip(i as int) =~= Seq::<Seq<char>>::empty());
    Some((rx_total, tx_total))
}

/// Total RX and TX bytes across all interfaces, from the contents of `/proc/net/dev`.
pub fn read_net_dev(raw: &str) -> (r: Option<(u64, u64)>)
    requires
        net_dev_readable(raw@),
    ensures
        match r {
            Some(t) => net_dev_totals(raw@) == Some((t.0 as nat, t.1 as nat)),
            None => net_dev_totals(raw@) is None,
        },
{
    read_net_dev_from_text(raw)
}

/// Total RX and TX bytes of a process's network namespace, from the
/// contents of `/proc/<pid>/net/dev`.
pub fn read_net_dev_for_pid(raw: &str) -> (r: Option<(u64, u64)>)
    requires
        net_dev_readable(raw@),
    ensures
        match r {
            Some(t) => net_dev_totals(raw@) == Some((t.0 as nat, t.1 as nat)),
            None => net_dev_totals(raw@) is None,
        },
{
    read_net_dev_from_text(raw)
}

/// RX/TX bytes per second from two totals taken one second apart; a
/// counter that went down counts as 0.
pub fn sample_network_rate(first: Option<(u64, u64)>, second: Option<(u64, u64)>) -> (r: Option<(u64, u64)>)
    ensures
        match (first, second) {
            (Some(a), Some(b)) => r == Some(
                (
                    if b.0 >= a.0 { (b.0 - a.0) as u64 } else { 0u64 },
                    if b.1 >= a.1 { (b.1 - a.1) as u64 } else { 0u64 },
                ),
            ),
            _ => r is None,
        },
{
    match (first, second) {
        (Some((r1, t1)), Some((r2, t2))) => Some((r2.saturating_sub(r1), t2.saturating_sub(t1))),
        _ => None,
    }
}

// ─── CPU ticks ───────────────────────────────────────────────────────────────

/// The sum of `s`.
pub open spec fn sum_nats(s: Seq<nat>) -> nat
    decreases s.len(),
{
    if s.len() == 0 {
        0
    } else {
        sum_nats(s.drop_last()) + s.last()
    }
}

/// A process's CPU ticks (utime + stime) from its `stat` line: the 12th and
/// 13th fields after the command name.
pub open spec fn process_ticks(stat: Seq<char>) -> Option<nat> {
    match stat_tail(stat) {
        None => None,
        Some(t) => {
            let f = split_ws(t);
            if f.len() > 12 {
                match (parse_u64(f[11]), parse_u64(f[12])) {
                    (Some(u), Some(s)) => Some(u + s),
                    _ => None,
                }
            } else {
                None
            }
        },
    }
}

/// The system's total CPU ticks from `/proc/stat`: the sum of the numbers
/// after the label on its first line.
pub open spec fn total_ticks(kstat: Seq<char>) -> Option<nat> {
    let ls = lines(kstat);
    if ls.len() == 0 {
        None
    } else {
        Some(sum_nats(u64_tokens(skip_first(split_ws(ls[0])))))
    }
}

/// Whether the tick counts can be taken without overflow or a bad slice.
pub open spec fn cpu_ticks_ok(stat: Seq<char>, kstat: Seq<char>) -> bool {
    &&& stat_tail_ok(stat)
    &&& match process_ticks(stat) {
        None => true,
        Some(p) => p <= u64::MAX && match total_ticks(kstat) {
            None => true,
            Some(t) => t <= u64::MAX,
        },
    }
}

/// `(process ticks, total system ticks)` as the texts give them.
pub open spec fn cpu_ticks_spec(stat: Seq<char>, kstat: Seq<char>) -> Option<(nat, nat)> {
    match (process_ticks(stat), total_ticks(kstat)) {
        (Some(p), Some(t)) => Some((p, t)),
        _ => None,
    }
}

proof fn lemma_sum_prefix(s: Seq<nat>, k: int)
    requires
        0 <= k <= s.len(),
    ensures
        sum_nats(s.take(k)) <= sum_nats(s),
    decreases s.len() - k,
{
    if k < s.len() {
        lemma_sum_prefix(s, k + 1);
        assert(s.take(k + 1).drop_last() =~= s.take(k));
    } else {
        assert(s.take(k) =~= s);
    }
}

/// Process and system CPU ticks from the contents of `/proc/<pid>/stat`
/// and `/proc/stat`.
pub fn read_cpu_ticks(stat: &str, kstat: &str) -> (r: Option<(u64, u64)>)
    requires
        cpu_ticks_ok(stat@, kstat@),
    ensures
        match r {
            Some(t) => cpu_ticks_spec(stat@, kstat@) == Some((t.0 as nat, t.1 as nat)),
            None => cpu_ticks_spec(stat@, kstat@) is None,
        },
{
    let sc = chars_of(stat);
    let tail = match stat_tail_chars(sc.as_slice()) {
        Some(t) => t,
        None => return None,
    };
    let f = split_whitespace(tail.as_slice());
    if f.len() <= 12 {
        return None;
    }
    let utime = match parse_u64_chars(f[11].as_slice()) {
        Some(v) => v,
        None => return None,
    };
    let stime = match parse_u64_chars(f[12].as_slice()) {
        Some(v) => v,
        None => return None,
    };
    let process_ticks = utime + stime;
    let kc = chars_of(kstat);
    let ls = split_lines(kc.as_slice());
    if ls.len() == 0 {
        return None;
    }
    let mut rest = split_whitespace(ls[0].as_slice());
    if rest.len() > 0 {
        let ghost before = rest@;
        rest.remove(0);
        assert(views(rest@) =~= views(before).drop_first());
    }
    assert(views(rest@) =~= skip_first(split_ws(ls@[0]@)));
    let nums = u64_tokens_exec(rest.as_slice());
    let ghost nv = nums@.map_values(|x: u64| x as nat);
    let mut total: u64 = 0;
    let mut i: usize = 0;
    while i < nums.len()
        invariant
            nv == nums@.map_values(|x: u64| x as nat),
            i <= nums@.len(),
            total as nat == sum_nats(nv.take(i as int)),
            sum_nats(nv) <= u64::MAX,
        decreases nums@.len() - i,
    {
        assert(nv.take(i + 1).drop_last() =~= nv.take(i as int));
        proof {
            lemma_sum_prefix(nv, i + 1);
        }
        total = total + nums[i];
        i = i + 1;
    }
    assert(nv.take(i as int) =~= nv);
    Some((process_ticks, total))
}

/// Whether a `/proc/stat` line is one logical CPU's line: `cpu` followed
/// by the CPU's number (the aggregate `cpu` line is not).
pub open spec fn is_cpu_n_line(l: Seq<char>) -> bool {
    &&& "cpu"@.is_prefix_of(l)
    &&& l.len() > 3
    &&& '0' <= l[3] <= '9'
}

/// Number of logical CPUs listed in `/proc/stat`: its `cpuN` lines.
pub open spec fn count_cpu_lines(ls: Seq<Seq<char>>) -> nat
    decreases ls.len(),
{
    if ls.len() == 0 {
        0
    } else {
        count_cpu_lines(ls.drop_last()) + if is_cpu_n_line(ls.last()) {
            1nat
        } else {
            0nat
        }
    }
}

/// Number of logical CPUs from the non-aggregate `cpuN` lines of
/// `/proc/stat` (1 when it cannot be read).
pub fn cpu_count(kstat: Option<&str>) -> (n: usize)
    ensures
        n == match kstat {
            Some(s) => count_cpu_lines(lines(s@)),
            None => 1,
        },
{
    let s = match kstat {
        Some(s) => s,
        None => return 1,
    };
    let cs = chars_of(s);
    let ls = split_lines(cs.as_slice());
    let ghost all = views(ls@);
    let cpu = chars_of("cpu");
    let mut count: usize = 0;
    let mut i: usize = 0;
    while i < ls.len()
        invariant
            all == views(ls@),
            cpu@ == "cpu"@,
            i <= ls@.len(),
            count == count_cpu_lines(all.take(i as int)),
            count <= i,
        decreases ls@.len() - i,
    {
        assert(all.take(i + 1).drop_last() =~= all.take(i as int));
        assert(all.take(i + 1).last() == ls@[i as int]@);
        if starts_with(ls[i].as_slice(), cpu.as_slice()) && ls[i].len() > 3 && '0' <= ls[i][3] && ls[i][3] <= '9' {
            count = count + 1;
        }
        i = i + 1;
    }
    assert(all.take(i as int) =~= all);
    count
}

} // verus!
