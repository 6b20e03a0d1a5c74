//! Alert rules of the monitoring daemon: adding and removing rules, and
//! deciding which rules fire for a new sample of a process.
use vstd::prelude::*;
use crate::text::{chars_of, dec, fmt_dec, string_of};

verus! {

broadcast use vstd::string::group_string_axioms;

/// A metric that can be monitored.
#[derive(Debug, Clone, Copy, PartialEq, Eq, Structural)]
pub enum AlertMetric {
    /// CPU usage percentage (0–100 per CPU).
    CpuPercent,
    /// RSS memory in megabytes.
    MemoryMb,
    /// Open file descriptor count.
    FdCount,
    /// Thread count.
    ThreadCount,
}

/// The wire name of a metric.
pub open spec fn metric_name_spec(m: AlertMetric) -> Seq<char> {
    match m {
        AlertMetric::CpuPercent => "cpu_percent"@,
        AlertMetric::MemoryMb => "memory_mb"@,
        AlertMetric::FdCount => "fd_count"@,
        AlertMetric::ThreadCount => "thread_count"@,
    }
}

impl AlertMetric {
    /// The wire name of the metric, as its `Display` writes it.
    pub fn name(&self) -> (r: &'static str)
        ensures
            r@ == metric_name_spec(*self),
    {
        match self {
            AlertMetric::CpuPercent => "cpu_percent",
            AlertMetric::MemoryMb => "memory_mb",
            AlertMetric::FdCount => "fd_count",
            AlertMetric::ThreadCount => "thread_count",
        }
    }
}

/// Comparison operator of a rule.
#[derive(Debug, Clone, Copy, PartialEq, Eq, Structural)]
pub enum Comparison {
    GreaterThan,
    LessThan,
}

/// How to notify when an alert fires.
#[derive(Debug, Clone)]
pub enum NotifyMethod {
    /// Write to the daemon log.
    Log,
    /// Write to stderr.
    Stderr,
    /// Run a shell command; `{pid}`, `{metric}` and `{value}` are substituted.
    Script { command: String },
}

/// The default minimum number of seconds between two firings of a rule.
pub fn default_cooldown() -> (r: u64)
    ensures
        r == 60,
{
    60
}

/// A monitoring rule; `T` is the threshold's type.
#[derive(Debug, Clone)]
pub struct AlertRule<T> {
    pub id: String,
    pub pid: i32,
    pub metric: AlertMetric,
    pub comparison: Comparison,
    pub threshold: T,
    pub notify: NotifyMethod,
    /// Minimum seconds between repeated firings.
    pub cooldown_secs: u64,
    /// When the rule last fired, in nanoseconds since the Unix epoch.
    pub last_triggered: Option<i64>,
}

/// A rule that fired for a sample.
#[derive(Debug)]
pub struct Firing {
    /// Position of the rule in the engine.
    pub index: usize,
    pub rule_id: String,
    pub pid: i32,
    /// Wire name of the rule's metric.
    pub metric: String,
}

/// Whole seconds from `last` to `now` (nanosecond timestamps), truncated
/// toward zero.
pub open spec fn elapsed_secs(now: i64, last: i64) -> int {
    let d: int = now - last;
    if d >= 0 { d / 1_000_000_000 } else { -((-d) / 1_000_000_000) }
}

/// Whether a rule is still cooling down at `now`: fewer whole seconds than
/// its cooldown have passed since it last fired, or the clock now reads
/// earlier than that firing.
pub open spec fn cooling<T>(r: AlertRule<T>, now: i64) -> bool {
    match r.last_triggered {
        Some(last) => now < last || elapsed_secs(now, last) < r.cooldown_secs,
        None => false,
    }
}

fn elapsed(now: i64, last: i64) -> (r: i64)
    ensures
        r == elapsed_secs(now, last),
{
    let d: i128 = now as i128 - last as i128;
    let q: i128 = if d >= 0 {
        d / 1_000_000_000
    } else {
        -((-d) / 1_000_000_000)
    };
    assert(-0x8000_0000_0000_0000 <= q < 0x8000_0000_0000_0000);
    q as i64
}

/// Engine holding the rules, in the order they were added.
#[derive(Debug)]
pub struct AlertEngine<T> {
    pub rules: Vec<AlertRule<T>>,
}

/// Whether a rule is not for `pid`.
pub open spec fn not_for_pid<T>(pid: i32) -> spec_fn(AlertRule<T>) -> bool {
    |r: AlertRule<T>| r.pid != pid
}

/// Whether a rule does not have id `id`.
pub open spec fn not_with_id<T>(id: Seq<char>) -> spec_fn(AlertRule<T>) -> bool {
    |r: AlertRule<T>| r.id@ != id
}

impl<T> AlertEngine<T> {
    /// An engine without rules.
    pub fn new() -> (r: Self)
        ensures
            r.rules@.len() == 0,
    {
        AlertEngine { rules: Vec::new() }
    }

    /// Adds a rule after the others.
    pub fn add_rule(&mut self, rule: AlertRule<T>)
        ensures
            final(self).rules@ == old(self).rules@.push(rule),
    {
        self.rules.push(rule);
    }

    /// Removes every rule for `pid`, keeping the others in order.
    pub fn remove_rules_for_pid(&mut self, pid: i32)
        ensures
            final(self).rules@ == old(self).rules@.filter(not_for_pid::<T>(pid)),
    {
        let ghost pred = not_for_pid::<T>(pid);
        let ghost orig = self.rules@;
        let mut kept: Vec<AlertRule<T>> = Vec::new();
        let mut src: Vec<AlertRule<T>> = Vec::new();
        std::mem::swap(&mut src, &mut self.rules);
        let n0 = src.len();
        let mut i: usize = 0;
        assert(src@ =~= orig.skip(0));
        assert(orig.take(0).filter(pred) =~= Seq::<AlertRule<T>>::empty()) by {
            reveal(Seq::filter);
        }
        while src.len() > 0
            invariant
                orig.len() == n0,
                i + src@.len() == n0,
                src@ == orig.skip(i as int),
                kept@ == orig.take(i as int).filter(pred),
                pred == not_for_pid::<T>(pid),
            decreases src@.len(),
        {
            let r = src.remove(0);
            assert(r == orig[i as int]);
            proof {
                orig.take(i as int).lemma_filter_push(r, pred);
            }
            assert(orig.take(i + 1) =~= orig.take(i as int).push(r));
            if r.pid != pid {
                kept.push(r);
            }
            i = i + 1;
            assert(src@ =~= orig.skip(i as int));
        }
        assert(orig.take(i as int) =~= orig);
        self.rules = kept;
    }

    /// Removes the rules with id `rule_id`; says whether one was removed.
    pub fn remove_rule(&mut self, rule_id: &str) -> (removed: bool)
        ensures
            final(self).rules@ == old(self).rules@.filter(not_with_id::<T>(rule_id@)),
            removed == (final(self).rules@.len() < old(self).rules@.len()),
    {
        let ghost pred = not_with_id::<T>(rule_id@);
        let ghost orig = self.rules@;
        let len_before = self.rules.len();
        let target = chars_of(rule_id);
        let mut kept: Vec<AlertRule<T>> = Vec::new();
        let mut src: Vec<AlertRule<T>> = Vec::new();
        std::mem::swap(&mut src, &mut self.rules);
        let n0 = src.len();
        let mut i: usize = 0;
        assert(src@ =~= orig.skip(0));
        assert(orig.take(0).filter(pred) =~= Seq::<AlertRule<T>>::empty()) by {
            reveal(Seq::filter);
        }
        while src.len() > 0
            invariant
                orig.len() == n0,
                i + src@.len() == n0,
                src@ == orig.skip(i as int),
                kept@ == orig.take(i as int).filter(pred),
                kept@.len() <= i,
                pred == not_with_id::<T>(rule_id@),
                target@ == rule_id@,
            decreases src@.len(),
        {
            let r = src.remove(0);
            assert(r == orig[i as int]);
            proof {
                orig.take(i as int).lemma_filter_push(r, pred);
            }
            assert(orig.take(i + 1) =~= orig.take(i as int).push(r));
            let cs = chars_of(r.id.as_str());
            if !crate::text::eq_chars(cs.as_slice(), target.as_slice()) {
                kept.push(r);
            }
            i = i + 1;
            assert(src@ =~= orig.skip(i as int));
        }
        assert(orig.take(i as int) =~= orig);
        self.rules = kept;
        self.rules.len() < len_before
    }

    /// Decides which rules fire for a new sample of process `pid` taken at
    /// `now` (nanoseconds since the Unix epoch). In order, each rule for
    /// `pid` that is not cooling down is offered to `exceeds` (its metric's
    /// value compared with its threshold); when that holds the rule fires
    /// and is stamped with `now`. No other rule changes.
    pub fn evaluate<F: Fn(&AlertRule<T>) -> bool>(&mut self, pid: i32, now: i64, exceeds: F) -> (r: Vec<Firing>)
        requires
            forall|x: &AlertRule<T>| #[trigger] exceeds.requires((x,)),
        ensures
            final(self).rules@.len() == old(self).rules@.len(),
            forall|k: int| 0 <= k < r@.len() ==> {
                let f = #[trigger] r@[k];
                let a = old(self).rules@[f.index as int];
                &&& f.index < old(self).rules@.len()
                &&& eligible(a, pid, now) && exceeds.ensures((&a,), true)
                &&& final(self).rules@[f.index as int] == stamped(a, now)
                &&& f.rule_id@ == a.id@ && f.pid == pid && f.metric@ == metric_name_spec(a.metric)
            },
            forall|k: int, l: int| 0 <= k < l < r@.len() ==> r@[k].index < r@[l].index,
            forall|i: int| 0 <= i < old(self).rules@.len() ==> {
                let a = #[trigger] old(self).rules@[i];
                let b = final(self).rules@[i];
                if eligible(a, pid, now) {
                    (exists|k: int| 0 <= k < r@.len() && r@[k].index == i)
                        || (b == a && exceeds.ensures((&a,), false))
                } else {
                    b == a
                }
            },
    {
        let ghost orig = self.rules@;
        let mut events: Vec<Firing> = Vec::new();
        let mut i: usize = 0;
        while i < self.rules.len()
            invariant
                self.rules@.len() == orig.len(),
                i <= orig.len(),
                forall|x: &AlertRule<T>| #[trigger] exceeds.requires((x,)),
                forall|j: int| i <= j < orig.len() ==> #[trigger] self.rules@[j] == orig[j],
                forall|j: int| 0 <= j < i ==> {
                    let a = #[trigger] orig[j];
                    let b = self.rules@[j];
                    if eligible(a, pid, now) {
                        (exists|k: int| 0 <= k < events@.len() && events@[k].index == j)
                            || (b == a && exceeds.ensures((&a,), false))
                    } else {
                        b == a
                    }
                },
                forall|k: int| 0 <= k < events@.len() ==> {
                    let f = #[trigger] events@[k];
                    let a = orig[f.index as int];
                    &&& f.index < i
                    &&& eligible(a, pid, now) && exceeds.ensures((&a,), true)
                    &&& self.rules@[f.index as int] == stamped(a, now)
                    &&& f.rule_id@ == a.id@ && f.pid == pid && f.metric@ == metric_name_spec(a.metric)
                },
                forall|k: int, l: int| 0 <= k < l < events@.len() ==> events@[k].index < events@[l].index,
            decreases orig.len() - i,
        {
            let skip = if self.rules[i].pid != pid {
                true
            } else {
                match self.rules[i].last_triggered {
                    Some(last) => now < last || (elapsed(now, last) as u64) < self.rules[i].cooldown_secs,
                    None => false,
                }
            };
            if !skip {
                let fired = exceeds(&self.rules[i]);
                if fired {
                    let ghost before_events = events@;
                    let mut rule = self.rules.remove(i);
                    rule.last_triggered = Some(now);
                    let f = Firing {
                        index: i,
                        rule_id: rule.id.clone(),
                        pid: rule.pid,
                        metric: String::from_str(rule.metric.name()),
                    };
                    self.rules.insert(i, rule);
                    events.push(f);
                    assert(events@.last().index == i);
                    assert forall|j: int| 0 <= j < i implies {
                        let a = #[trigger] orig[j];
                        let b = self.rules@[j];
                        if eligible(a, pid, now) {
                            (exists|k: int| 0 <= k < events@.len() && events@[k].index == j)
                                || (b == a && exceeds.ensures((&a,), false))
                        } else {
                            b == a
                        }
                    } by {
                        let a = orig[j];
                        if eligible(a, pid, now) && exists|k: int| 0 <= k < before_events.len() && before_events[k].index == j {
                            let k = choose|k: int| 0 <= k < before_events.len() && before_events[k].index == j;
                            assert(events@[k] == before_events[k]);
                        }
                    }
                    assert(exists|k: int| 0 <= k < events@.len() && events@[k].index == i) by {
                        assert(events@[events@.len() - 1].index == i);
                    }
                }
            }
            i = i + 1;
        }
        events
    }
}

/// Whether a rule is for `pid` and not cooling down at `now`.
pub open spec fn eligible<T>(a: AlertRule<T>, pid: i32, now: i64) -> bool {
    a.pid == pid && !cooling(a, now)
}

/// A rule stamped as fired at `now`.
pub open spec fn stamped<T>(a: AlertRule<T>, now: i64) -> AlertRule<T> {
    AlertRule { last_triggered: Some(now), ..a }
}

/// A request to add a rule; `T` is the threshold's type.
#[derive(Debug)]
pub struct AlertAddRequest<T> {
    pub pid: i32,
    pub metric: AlertMetric,
    pub comparison: Comparison,
    pub threshold: T,
    pub notify: NotifyMethod,
    pub cooldown_secs: Option<u64>,
}

impl<T> AlertAddRequest<T> {
    /// The rule the request describes, with id `id`, the default cooldown
    /// when none is given, and never fired.
    pub fn into_rule(self, id: String) -> (r: AlertRule<T>)
        ensures
            r.id == id,
            r.pid == self.pid,
            r.metric == self.metric,
            r.comparison == self.comparison,
            r.threshold == self.threshold,
            r.notify == self.notify,
            r.cooldown_secs == match self.cooldown_secs {
                Some(c) => c,
                None => 60u64,
            },
            r.last_triggered is None,
    {
        AlertRule {
            id,
            pid: self.pid,
            metric: self.metric,
            comparison: self.comparison,
            threshold: self.threshold,
            notify: self.notify,
            cooldown_secs: match self.cooldown_secs {
                Some(c) => c,
                None => default_cooldown(),
            },
            last_triggered: None,
        }
    }
}

// ─── Script commands ─────────────────────────────────────────────────────────

/// `s` with every non-overlapping occurrence of `pat`, scanned left to
/// right, replaced by `rep` (`str::replace` with a non-empty pattern).
pub open spec fn replace_all(s: Seq<char>, pat: Seq<char>, rep: Seq<char>) -> Seq<char>
    decreases s.len(),
{
    if s.len() == 0 || pat.len() == 0 {
        s
    } else if pat.is_prefix_of(s) {
        rep + replace_all(s.skip(pat.len() as int), pat, rep)
    } else {
        seq![s[0]] + replace_all(s.drop_first(), pat, rep)
    }
}

fn replace_chars(s: &[char], pat: &str, rep: &[char]) -> (r: Vec<char>)
    requires
        pat@.len() > 0,
    ensures
        r@ == replace_all(s@, pat@, rep@),
{
    let p = chars_of(pat);
    let mut out: Vec<char> = Vec::new();
    let mut i: usize = 0;
    assert(s@.skip(0) =~= s@);
    assert(out@ + replace_all(s@, pat@, rep@) =~= replace_all(s@, pat@, rep@));
    while i < s.len()
        invariant
            p@ == pat@,
            p@.len() > 0,
            i <= s@.len(),
            out@ + replace_all(s@.skip(i as int), pat@, rep@) == replace_all(s@, pat@, rep@),
        decreases s@.len() - i,
    {
        let rest = crate::text::sub_vec(s, i, s.len());
        assert(rest@ =~= s@.skip(i as int));
        if crate::text::starts_with(rest.as_slice(), p.as_slice()) {
            crate::text::append_chars(&mut out, rep);
            assert(s@.skip(i as int).skip(p@.len() as int) =~= s@.skip(i + p@.len()));
            i = i + p.len();
        } else {
            out.push(s[i]);
            assert(s@.skip(i as int).drop_first() =~= s@.skip(i + 1));
            assert(seq![s@[i as int]] =~= seq![s@.skip(i as int)[0]]);
            i = i + 1;
        }
    }
    assert(s@.skip(i as int) =~= Seq::<char>::empty());
    assert(out@ + Seq::<char>::empty() =~= out@);
    out
}

/// The shell command of a script notification: `{pid}`, then `{metric}`,
/// then `{value}` replaced by the firing's values (`value` already
/// written with two decimals).
pub fn script_command(command: &str, pid: i32, metric: &str, value: &str) -> (r: String)
    ensures
        r@ == replace_all(
            replace_all(replace_all(command@, "{pid}"@, dec(pid as int)), "{metric}"@, metric@),
            "{value}"@,
            value@,
        ),
{
    proof {
        reveal_strlit("{pid}");
        reveal_strlit("{metric}");
        reveal_strlit("{value}");
    }
    let c = chars_of(command);
    let d = fmt_dec(pid as i64);
    let s1 = replace_chars(c.as_slice(), "{pid}", d.as_slice());
    let m = chars_of(metric);
    let s2 = replace_chars(s1.as_slice(), "{metric}", m.as_slice());
    let v = chars_of(value);
    let s3 = replace_chars(s2.as_slice(), "{value}", v.as_slice());
    string_of(s3.as_slice())
}

// ─── Laws ────────────────────────────────────────────────────────────────────

/// After removing the rules of a process, none of its rules is left.
pub proof fn lemma_no_rules_left_for_pid<T>(rules: Seq<AlertRule<T>>, pid: i32)
    ensures
        forall|i: int| 0 <= i < rules.filter(not_for_pid::<T>(pid)).len()
            ==> (#[trigger] rules.filter(not_for_pid::<T>(pid))[i]).pid != pid,
{
    broadcast use Seq::lemma_filter_pred;
}

/// Removing a rule by id reports a removal exactly when a rule had that id.
pub proof fn lemma_remove_reports_presence<T>(rules: Seq<AlertRule<T>>, id: Seq<char>)
    ensures
        (rules.filter(not_with_id::<T>(id)).len() < rules.len()) == (exists|i: int|
            0 <= i < rules.len() && (#[trigger] rules[i]).id@ == id),
    decreases rules.len(),
{
    reveal(Seq::filter);
    let pred = not_with_id::<T>(id);
    if rules.len() > 0 {
        let t = rules.drop_last();
        lemma_remove_reports_presence(t, id);
        t.lemma_filter_len(pred);
        if exists|i: int| 0 <= i < t.len() && (#[trigger] t[i]).id@ == id {
            let i = choose|i: int| 0 <= i < t.len() && (#[trigger] t[i]).id@ == id;
            assert(rules[i] == t[i]);
        }
        if exists|i: int| 0 <= i < rules.len() && (#[trigger] rules[i]).id@ == id {
            let i = choose|i: int| 0 <= i < rules.len() && (#[trigger] rules[i]).id@ == id;
            if i < rules.len() - 1 {
                assert(t[i] == rules[i]);
            }
        }
    }
}

/// Adding a rule whose id no other rule has, then removing by that id,
/// gives back the rules there were.
pub proof fn lemma_add_then_remove<T>(rules: Seq<AlertRule<T>>, rule: AlertRule<T>)
    requires
        forall|i: int| 0 <= i < rules.len() ==> (#[trigger] rules[i]).id@ != rule.id@,
    ensures
        rules.push(rule).filter(not_with_id::<T>(rule.id@)) == rules,
    decreases rules.len(),
{
    reveal(Seq::filter);
    let pred = not_with_id::<T>(rule.id@);
    assert(rules.push(rule).drop_last() =~= rules);
    lemma_filter_all(rules, pred);
}

/// Filtering keeps a sequence whose items all pass.
pub proof fn lemma_filter_all<A>(s: Seq<A>, pred: spec_fn(A) -> bool)
    requires
        forall|i: int| 0 <= i < s.len() ==> pred(#[trigger] s[i]),
    ensures
        s.filter(pred) == s,
    decreases s.len(),
{
    reveal(Seq::filter);
    if s.len() > 0 {
        let t = s.drop_last();
        assert forall|i: int| 0 <= i < t.len() implies pred(#[trigger] t[i]) by {
            assert(t[i] == s[i]);
        }
        lemma_filter_all(t, pred);
        assert(s =~= t.push(s.last()));
    }
}

/// A rule that fired at `t` does not fire again for its process while
/// fewer whole seconds than its cooldown have passed, nor while the clock
/// reads earlier than `t`.
pub proof fn lemma_cooldown_blocks<T>(a: AlertRule<T>, pid: i32, t: i64, later: i64)
    requires
        later < t || elapsed_secs(later, t) < a.cooldown_secs,
    ensures
        !eligible(stamped(a, t), pid, later),
{
}

} // verus!
