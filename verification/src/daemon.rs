//! Request handling of the monitoring daemon: the watched PIDs, alert
//! rules, and the answer to each request of the socket protocol.
use vstd::prelude::*;
use crate::alert::{
    not_for_pid, AlertAddRequest, AlertEngine, AlertRule, NotifyMethod,
};
use crate::text::{dec, fmt_dec, push_all, push_str};

verus! {

broadcast use vstd::string::group_string_axioms;

/// A request as the daemon reads it off the socket.
pub struct DaemonRequest<T> {
    /// The `action` field, empty when absent.
    pub action: String,
    /// The `pid` field, when it is an integer.
    pub pid: Option<i64>,
    /// The `rule_id` field, when it is a string.
    pub rule_id: Option<String>,
    /// For `alert_add`: the rule the request describes, or why it does not
    /// describe one.
    pub alert: Option<Result<AlertAddRequest<T>, String>>,
    /// The time of the request in milliseconds since the Unix epoch; it
    /// names new rules.
    pub now_millis: i64,
}

/// What the daemon answers.
#[derive(Debug)]
pub enum Reply {
    /// `ok: false` with this message.
    Error(String),
    /// Now watching this PID.
    Watching(i32),
    /// No longer watching this PID; its history is to be dropped.
    Unwatched(i32),
    /// The watched PIDs.
    List(Vec<i32>),
    /// The history of this PID is asked for.
    History(i32),
    /// A rule was added under this id.
    RuleAdded(String),
    /// The rules are asked for.
    RuleList,
    /// Whether a rule with this id was removed.
    Removed(bool, String),
    /// Alive; this many PIDs are watched.
    Pong(usize),
}

/// State of the daemon: the watched PIDs and the alert rules.
pub struct DaemonState<T> {
    pub watched: Vec<i32>,
    pub engine: AlertEngine<T>,
}

/// No PID is watched twice.
pub open spec fn distinct_pids(w: Seq<i32>) -> bool {
    forall|i: int, j: int| 0 <= i < j < w.len() ==> w[i] != w[j]
}

/// `w` with `p` added at the end unless it is already there.
pub open spec fn with_pid(w: Seq<i32>, p: i32) -> Seq<i32> {
    if w.contains(p) { w } else { w.push(p) }
}

/// Whether a PID is not `p`.
pub open spec fn not_pid(p: i32) -> spec_fn(i32) -> bool {
    |x: i32| x != p
}

/// `w` without `p`.
pub open spec fn without_pid(w: Seq<i32>, p: i32) -> Seq<i32> {
    w.filter(not_pid(p))
}

fn copy_pids(w: &Vec<i32>) -> (r: Vec<i32>)
    ensures
        r@ == w@,
{
    let mut out: Vec<i32> = Vec::new();
    let mut i: usize = 0;
    while i < w.len()
        invariant
            i <= w@.len(),
            out@ == w@.take(i as int),
        decreases w@.len() - i,
    {
        out.push(w[i]);
        i = i + 1;
        assert(out@ =~= w@.take(i as int));
    }
    assert(w@.take(i as int) =~= w@);
    out
}

/// Adds `p` to the watched PIDs unless it is already there.
pub fn watch_pid(w: &mut Vec<i32>, p: i32)
    ensures
        final(w)@ == with_pid(old(w)@, p),
        distinct_pids(old(w)@) ==> distinct_pids(final(w)@),
{
    let mut i: usize = 0;
    while i < w.len()
        invariant
            i <= w@.len(),
            w@ == old(w)@,
            forall|j: int| 0 <= j < i ==> w@[j] != p,
        decreases w@.len() - i,
    {
        if w[i] == p {
            assert(w@.contains(p)) by {
                assert(w@[i as int] == p);
            }
            return;
        }
        i = i + 1;
    }
    assert(!w@.contains(p));
    w.push(p);
}

/// Removes `p` from the watched PIDs.
pub fn unwatch_pid(w: &mut Vec<i32>, p: i32)
    ensures
        final(w)@ == without_pid(old(w)@, p),
        !final(w)@.contains(p),
        distinct_pids(old(w)@) ==> distinct_pids(final(w)@),
{
    let ghost orig = w@;
    let ghost pred = not_pid(p);
    let mut kept: Vec<i32> = Vec::new();
    let mut i: usize = 0;
    assert(orig.take(0).filter(pred) =~= Seq::<i32>::empty()) by {
        reveal(Seq::filter);
    }
    while i < w.len()
        invariant
            w@ == orig,
            i <= orig.len(),
            pred == not_pid(p),
            kept@ == orig.take(i as int).filter(pred),
        decreases orig.len() - i,
    {
        proof {
            orig.take(i as int).lemma_filter_push(orig[i as int], pred);
        }
        assert(orig.take(i + 1) =~= orig.take(i as int).push(orig[i as int]));
        if w[i] != p {
            kept.push(w[i]);
        }
        i = i + 1;
    }
    assert(orig.take(i as int) =~= orig);
    proof {
        lemma_without_pid(orig, p);
    }
    *w = kept;
}

/// Removing a PID leaves it out and keeps the others distinct.
proof fn lemma_without_pid(w: Seq<i32>, p: i32)
    ensures
        !without_pid(w, p).contains(p),
        distinct_pids(w) ==> distinct_pids(without_pid(w, p)),
        forall|x: i32| x != p ==> (#[trigger] without_pid(w, p).contains(x) == w.contains(x)),
    decreases w.len(),
{
    reveal(Seq::filter);
    let pred = not_pid(p);
    if w.len() > 0 {
        let t = w.drop_last();
        lemma_without_pid(t, p);
        assert(distinct_pids(w) ==> distinct_pids(t)) by {
            if distinct_pids(w) {
                assert forall|i: int, j: int| 0 <= i < j < t.len() implies t[i] != t[j] by {
                    assert(t[i] == w[i] && t[j] == w[j]);
                }
            }
        }
        assert forall|x: i32| x != p implies (#[trigger] without_pid(w, p).contains(x) == w.contains(x)) by {
            if w.contains(x) {
                let k = choose|k: int| 0 <= k < w.len() && w[k] == x;
                if k < w.len() - 1 {
                    assert(t[k] == x);
                    assert(t.contains(x));
                }
            }
            if t.contains(x) {
                let k = choose|k: int| 0 <= k < t.len() && t[k] == x;
                assert(w[k] == x);
            }
            if without_pid(w, p).contains(x) && !without_pid(t, p).contains(x) {
                assert(pred(w.last()));
                let k = choose|k: int| 0 <= k < without_pid(w, p).len() && without_pid(w, p)[k] == x;
                assert(without_pid(w, p) == without_pid(t, p).push(w.last()));
                if k < without_pid(t, p).len() {
                    assert(without_pid(t, p)[k] == x);
                }
                assert(w[w.len() - 1] == x);
            }
        }
        if pred(w.last()) {
            assert(without_pid(w, p) == without_pid(t, p).push(w.last()));
            assert(distinct_pids(w) ==> distinct_pids(without_pid(w, p))) by {
                if distinct_pids(w) {
                    let s = without_pid(w, p);
                    assert(!without_pid(t, p).contains(w.last())) by {
                        if t.contains(w.last()) {
                            let k = choose|k: int| 0 <= k < t.len() && t[k] == w.last();
                            assert(w[k] == w[w.len() - 1]);
                        }
                    }
                    assert forall|i: int, j: int| 0 <= i < j < s.len() implies s[i] != s[j] by {
                        if j == s.len() - 1 {
                            assert(s[j] == w.last());
                            assert(s[i] == without_pid(t, p)[i]);
                            assert(without_pid(t, p).contains(s[i]));
                        } else {
                            assert(s[i] == without_pid(t, p)[i] && s[j] == without_pid(t, p)[j]);
                        }
                    }
                }
            }
            assert(!without_pid(w, p).contains(p)) by {
                if without_pid(w, p).contains(p) {
                    let k = choose|k: int| 0 <= k < without_pid(w, p).len() && without_pid(w, p)[k] == p;
                    if k < without_pid(t, p).len() {
                        assert(without_pid(t, p)[k] == p);
                    }
                }
            }
        } else {
            assert(without_pid(w, p) == without_pid(t, p));
        }
    } else {
        assert(without_pid(w, p) =~= Seq::<i32>::empty());
    }
}

/// The id of a rule added at `millis`: `rule-<millis>`.
pub open spec fn rule_id_text(millis: i64) -> Seq<char> {
    "rule-"@ + dec(millis as int)
}

/// The answer to `req`, and its effect on the state:
/// - `watch` / `unwatch` with a PID (taken as `i32`) add it to / remove it
///   from the watched PIDs; `unwatch` also drops the PID's rules;
/// - `list` gives the watched PIDs; `history` with a PID asks for its history;
/// - `alert_add` adds the described rule, named `rule-<millis>`, and
///   watches its PID when that is positive;
/// - `alert_list` asks for the rules; `alert_remove` with a rule id
///   removes the rules with that id;
/// - `ping` answers with the number of watched PIDs;
/// - a missing PID or rule id, a bad rule, or another action is an error.
pub fn dispatch<T>(state: &mut DaemonState<T>, req: DaemonRequest<T>) -> (r: Reply)
    requires
        distinct_pids(old(state).watched@),
    ensures
        distinct_pids(final(state).watched@),
        reply_ok(*old(state), req, r, *final(state)),
{
    let action = crate::text::chars_of(req.action.as_str());
    let is = |lit: &str| -> (b: bool)
        ensures
            b == (req.action@ == lit@),
        { crate::text::is_lit(action.as_slice(), lit) };
    if is("watch") {
        match req.pid {
            None => Reply::Error(String::from_str("'watch' requires pid")),
            Some(p) => {
                let p = p as i32;
                watch_pid(&mut state.watched, p);
                Reply::Watching(p)
            },
        }
    } else if is("unwatch") {
        match req.pid {
            None => Reply::Error(String::from_str("'unwatch' requires pid")),
            Some(p) => {
                let p = p as i32;
                unwatch_pid(&mut state.watched, p);
                state.engine.remove_rules_for_pid(p);
                Reply::Unwatched(p)
            },
        }
    } else if is("list") {
        Reply::List(copy_pids(&state.watched))
    } else if is("history") {
        match req.pid {
            None => Reply::Error(String::from_str("'history' requires pid")),
            Some(p) => Reply::History(p as i32),
        }
    } else if is("alert_add") {
        match req.alert {
            None => Reply::Error(String::from_str("invalid alert rule")),
            Some(Err(e)) => {
                let mut m = String::new();
                push_str(&mut m, "invalid alert rule: ");
                push_str(&mut m, e.as_str());
                Reply::Error(m)
            },
            Some(Ok(add)) => {
                let mut id = String::new();
                push_str(&mut id, "rule-");
                push_all(&mut id, fmt_dec(req.now_millis).as_slice());
                let rule = add.into_rule(id.clone());
                let ghost before = state.engine.rules@;
                state.engine.add_rule(rule);
                assert(state.engine.rules@.drop_last() =~= before);
                let to_watch: i32 = match req.pid {
                    Some(p) => p as i32,
                    None => 0,
                };
                if to_watch > 0 {
                    watch_pid(&mut state.watched, to_watch);
                }
                Reply::RuleAdded(id)
            },
        }
    } else if is("alert_list") {
        Reply::RuleList
    } else if is("alert_remove") {
        match req.rule_id {
            None => Reply::Error(String::from_str("'alert_remove' requires rule_id")),
            Some(id) => {
                let removed = state.engine.remove_rule(id.as_str());
                Reply::Removed(removed, id)
            },
        }
    } else if is("ping") {
        Reply::Pong(state.watched.len())
    } else {
        let mut m = String::new();
        push_str(&mut m, "unknown action '");
        push_str(&mut m, req.action.as_str());
        push_str(&mut m, "'");
        Reply::Error(m)
    }
}

/// The PID a request field names: the integer taken as `i32`.
pub open spec fn pid_of(p: i64) -> i32 {
    p as i32
}

/// The state is unchanged.
pub open spec fn same_state<T>(a: DaemonState<T>, b: DaemonState<T>) -> bool {
    a.watched@ == b.watched@ && a.engine.rules@ == b.engine.rules@
}

/// `r` and `post` are the answer to `req` and the state after it, from `pre`.
pub open spec fn reply_ok<T>(pre: DaemonState<T>, req: DaemonRequest<T>, r: Reply, post: DaemonState<T>) -> bool {
    let a = req.action@;
    if a == "watch"@ {
        match req.pid {
            None => r matches Reply::Error(m) && m@ == "'watch' requires pid"@ && same_state(pre, post),
            Some(p) => r == Reply::Watching(pid_of(p)) && post.watched@ == with_pid(pre.watched@, pid_of(p))
                && post.engine.rules@ == pre.engine.rules@,
        }
    } else if a == "unwatch"@ {
        match req.pid {
            None => r matches Reply::Error(m) && m@ == "'unwatch' requires pid"@ && same_state(pre, post),
            Some(p) => r == Reply::Unwatched(pid_of(p)) && post.watched@ == without_pid(pre.watched@, pid_of(p))
                && post.engine.rules@ == pre.engine.rules@.filter(not_for_pid::<T>(pid_of(p))),
        }
    } else if a == "list"@ {
        r matches Reply::List(v) && v@ == pre.watched@ && same_state(pre, post)
    } else if a == "history"@ {
        same_state(pre, post) && match req.pid {
            None => r matches Reply::Error(m) && m@ == "'history' requires pid"@,
            Some(p) => r == Reply::History(pid_of(p)),
        }
    } else if a == "alert_add"@ {
        match req.alert {
            None => r matches Reply::Error(m) && m@ == "invalid alert rule"@ && same_state(pre, post),
            Some(Err(e)) => r matches Reply::Error(m) && m@ == "invalid alert rule: "@ + e@ && same_state(pre, post),
            Some(Ok(add)) => {
                let to_watch: i32 = match req.pid {
                    Some(p) => pid_of(p),
                    None => 0,
                };
                &&& r matches Reply::RuleAdded(id) && id@ == rule_id_text(req.now_millis)
                &&& post.engine.rules@.len() == pre.engine.rules@.len() + 1
                &&& post.engine.rules@.drop_last() == pre.engine.rules@
                &&& ({
                    let rule = post.engine.rules@.last();
                    &&& rule.id@ == rule_id_text(req.now_millis)
                    &&& rule.pid == add.pid && rule.metric == add.metric
                    &&& rule.comparison == add.comparison && rule.threshold == add.threshold
                    &&& rule.notify == add.notify && rule.last_triggered is None
                    &&& rule.cooldown_secs == match add.cooldown_secs {
                        Some(c) => c,
                        None => 60u64,
                    }
                })
                &&& post.watched@ == if to_watch > 0 { with_pid(pre.watched@, to_watch) } else { pre.watched@ }
            },
        }
    } else if a == "alert_list"@ {
        r == Reply::RuleList && same_state(pre, post)
    } else if a == "alert_remove"@ {
        match req.rule_id {
            None => r matches Reply::Error(m) && m@ == "'alert_remove' requires rule_id"@ && same_state(pre, post),
            Some(id) => {
                &&& post.engine.rules@ == pre.engine.rules@.filter(crate::alert::not_with_id::<T>(id@))
                &&& r == Reply::Removed(post.engine.rules@.len() < pre.engine.rules@.len(), id)
                &&& post.watched@ == pre.watched@
            },
        }
    } else if a == "ping"@ {
        r == Reply::Pong(pre.watched@.len() as usize) && same_state(pre, post)
    } else {
        r matches Reply::Error(m) && m@ == "unknown action '"@ + a + "'"@ && same_state(pre, post)
    }
}

/// A rule of the static configuration; `T` is the threshold's type.
pub struct ConfigRule<T> {
    pub pid: i32,
    pub metric: crate::alert::AlertMetric,
    pub comparison: crate::alert::Comparison,
    pub threshold: T,
    pub cooldown_secs: Option<u64>,
    pub notify: Option<NotifyMethod>,
}

/// The id of the `n`-th configured rule (counting from 1): `config-<n>`.
pub open spec fn config_id_text(n: int) -> Seq<char> {
    "config-"@ + dec(n)
}

/// `w` after watching the PIDs of `rules` in order: each PID not already
/// there is appended.
pub open spec fn with_rule_pids<T>(w: Seq<i32>, rules: Seq<ConfigRule<T>>) -> Seq<i32>
    decreases rules.len(),
{
    if rules.len() == 0 {
        w
    } else {
        with_pid(with_rule_pids(w, rules.drop_last()), rules.last().pid)
    }
}

/// Adds the configured rules, in order, named `config-1`, `config-2`, ...,
/// notifying the log unless said otherwise, with the default cooldown
/// unless given; each rule's PID is watched.
pub fn load_config_rules<T>(engine: &mut AlertEngine<T>, watched: &mut Vec<i32>, rules: Vec<ConfigRule<T>>)
    requires
        old(engine).rules@.len() + rules@.len() <= usize::MAX,
        rules@.len() < i64::MAX,
    ensures
        distinct_pids(old(watched)@) ==> distinct_pids(final(watched)@),
        final(watched)@ == with_rule_pids(old(watched)@, rules@),
        final(engine).rules@.len() == old(engine).rules@.len() + rules@.len(),
        final(engine).rules@.take(old(engine).rules@.len() as int) == old(engine).rules@,
        forall|i: int| 0 <= i < rules@.len() ==> {
            let c = #[trigger] rules@[i];
            let r = final(engine).rules@[old(engine).rules@.len() + i];
            &&& r.id@ == config_id_text(i + 1)
            &&& r.pid == c.pid && r.metric == c.metric && r.comparison == c.comparison
            &&& r.threshold == c.threshold && r.last_triggered is None
            &&& r.notify == match c.notify {
                Some(n) => n,
                None => NotifyMethod::Log,
            }
            &&& r.cooldown_secs == match c.cooldown_secs {
                Some(s) => s,
                None => 60u64,
            }
            &&& final(watched)@.contains(c.pid)
        },
        forall|p: i32| #[trigger] old(watched)@.contains(p) ==> final(watched)@.contains(p),
{
    let ghost orig = rules@;
    let ghost base = engine.rules@;
    let n0 = rules.len();
    let mut src = rules;
    let mut idx: usize = 0;
    assert(src@ =~= orig.skip(0));
    while src.len() > 0
        invariant
            orig.len() == n0,
            n0 < i64::MAX,
            base.len() + n0 <= usize::MAX,
            idx + src@.len() == n0,
            src@ == orig.skip(idx as int),
            distinct_pids(old(watched)@) ==> distinct_pids(watched@),
            watched@ == with_rule_pids(old(watched)@, orig.take(idx as int)),
            engine.rules@.len() == base.len() + idx,
            engine.rules@.take(base.len() as int) == base,
            forall|i: int| 0 <= i < idx ==> {
                let c = #[trigger] orig[i];
                let r = engine.rules@[base.len() + i];
                &&& r.id@ == config_id_text(i + 1)
                &&& r.pid == c.pid && r.metric == c.metric && r.comparison == c.comparison
                &&& r.threshold == c.threshold && r.last_triggered is None
                &&& r.notify == match c.notify {
                    Some(n) => n,
                    None => NotifyMethod::Log,
                }
                &&& r.cooldown_secs == match c.cooldown_secs {
                    Some(s) => s,
                    None => 60u64,
                }
                &&& watched@.contains(c.pid)
            },
            forall|p: i32| #[trigger] old(watched)@.contains(p) ==> watched@.contains(p),
        decreases src@.len(),
    {
        let c = src.remove(0);
        assert(c == orig[idx as int]);
        let mut id = String::new();
        push_str(&mut id, "config-");
        push_all(&mut id, fmt_dec((idx + 1) as i64).as_slice());
        let rule = AlertRule {
            id,
            pid: c.pid,
            metric: c.metric,
            comparison: c.comparison,
            threshold: c.threshold,
            notify: match c.notify {
                Some(n) => n,
                None => NotifyMethod::Log,
            },
            cooldown_secs: match c.cooldown_secs {
                Some(s) => s,
                None => crate::alert::default_cooldown(),
            },
            last_triggered: None,
        };
        let ghost w_before = watched@;
        watch_pid(watched, c.pid);
        assert(watched@.contains(c.pid)) by {
            if !w_before.contains(c.pid) {
                assert(watched@[watched@.len() - 1] == c.pid);
            }
        }
        assert forall|p: i32| #[trigger] w_before.contains(p) implies watched@.contains(p) by {
            if !w_before.contains(c.pid) {
                let k = choose|k: int| 0 <= k < w_before.len() && w_before[k] == p;
                assert(watched@[k] == p);
            }
        }
        let ghost e_before = engine.rules@;
        engine.add_rule(rule);
        assert(engine.rules@.take(base.len() as int) =~= e_before.take(base.len() as int));
        assert(orig.take(idx + 1).drop_last() =~= orig.take(idx as int));
        idx = idx + 1;
        assert(src@ =~= orig.skip(idx as int));
    }
    assert(orig.take(idx as int) =~= orig);
}

/// Watching a PID makes it watched, unwatching it makes it unwatched, and
/// unwatching a PID that was just newly watched gives back the watched
/// PIDs there were.
pub proof fn lemma_watch_unwatch(w: Seq<i32>, p: i32)
    ensures
        with_pid(w, p).contains(p),
        !without_pid(w, p).contains(p),
        !w.contains(p) ==> without_pid(with_pid(w, p), p) == w,
{
    lemma_without_pid(w, p);
    if !w.contains(p) {
        assert(w.push(p)[w.len() as int] == p);
        reveal(Seq::filter);
        assert(w.push(p).drop_last() =~= w);
        assert forall|i: int| 0 <= i < w.len() implies not_pid(p)(#[trigger] w[i]) by {
            if w[i] == p {
                assert(w.contains(p));
            }
        }
        crate::alert::lemma_filter_all(w, not_pid(p));
    } else {
        let k = choose|k: int| 0 <= k < w.len() && w[k] == p;
        assert(with_pid(w, p)[k] == p);
    }
}

// ─── Client side ─────────────────────────────────────────────────────────────

/// A reply of the daemon as the client reads it.
pub struct ClientReply {
    pub ok: bool,
    pub message: Option<String>,
    /// Whether the reply carries data.
    pub has_data: bool,
}

/// Whether the daemon answered a ping (`None`: no answer could be had)
/// with success.
pub fn ping(reply: &Option<ClientReply>) -> (r: bool)
    ensures
        r == match reply {
            Some(a) => a.ok,
            None => false,
        },
{
    match reply {
        Some(a) => a.ok,
        None => false,
    }
}

/// The outcome of asking the daemon to watch a PID: an error carries the
/// daemon's message, or nothing.
pub fn register_watch(reply: &ClientReply) -> (r: Result<(), String>)
    ensures
        reply.ok ==> r is Ok,
        !reply.ok ==> (r matches Err(m) && m@ == match reply.message {
            Some(t) => t@,
            None => Seq::<char>::empty(),
        }),
{
    if reply.ok {
        return Ok(());
    }
    match &reply.message {
        Some(t) => Err(t.clone()),
        None => Err(String::new()),
    }
}

/// The outcome of asking for a PID's history: the daemon's message (or
/// `unknown peekd error`) when it refused, `no data in response` when
/// nothing came with the answer.
pub fn history_outcome(reply: &ClientReply) -> (r: Result<(), String>)
    ensures
        !reply.ok ==> (r matches Err(m) && m@ == match reply.message {
            Some(t) => t@,
            None => "unknown peekd error"@,
        }),
        reply.ok && !reply.has_data ==> (r matches Err(m) && m@ == "no data in response"@),
        reply.ok && reply.has_data ==> r is Ok,
{
    if !reply.ok {
        return match &reply.message {
            Some(t) => Err(t.clone()),
            None => Err(String::from_str("unknown peekd error")),
        };
    }
    if !reply.has_data {
        return Err(String::from_str("no data in response"));
    }
    Ok(())
}

} // verus!
