//! The process tree below a process, built from the parent links of all
//! processes, and its drawing as indented lines.
use vstd::prelude::*;
use std::collections::HashMap;
use vstd::relations::{sorted_by, total_ordering};
use crate::daemon::not_pid;
use crate::model::ProcessNode;
use crate::cli::{cyan_bold_text, paint_cyan_bold};
use crate::text::{chars_of, dec, fmt_dec, fmt_udec, push_all, push_str};

verus! {

broadcast use vstd::string::group_string_axioms;

/// A process tree as values.
#[verifier::ext_equal]
pub struct NodeView {
    pub pid: i32,
    pub name: Seq<char>,
    pub uid: u32,
    pub rss_kb: u64,
    pub children: Seq<NodeView>,
}

/// The value of a process tree.
pub open spec fn node_view(n: ProcessNode) -> NodeView
    decreases n,
{
    NodeView { pid: n.pid, name: n.name@, uid: n.uid, rss_kb: n.rss_kb, children: nodes_view(n.children@) }
}

/// The values of a list of process trees.
pub open spec fn nodes_view(ns: Seq<ProcessNode>) -> Seq<NodeView>
    decreases ns,
{
    if ns.len() == 0 {
        Seq::empty()
    } else {
        nodes_view(ns.drop_last()).push(node_view(ns.last()))
    }
}

/// What is known of one process when building the tree.
pub struct ProcRecord {
    pub pid: i32,
    pub ppid: i32,
    /// The command name from `stat`.
    pub name: String,
    /// The real UID from `status`, when readable.
    pub uid: Option<u32>,
    /// Resident pages from `statm`, when readable.
    pub resident_pages: Option<u64>,
}

/// The node a record gives: UID 0 and RSS 0 when unknown, RSS as four
/// kilobytes per resident page.
pub open spec fn record_node(r: ProcRecord) -> NodeView {
    NodeView {
        pid: r.pid,
        name: r.name@,
        uid: match r.uid {
            Some(u) => u,
            None => 0,
        },
        rss_kb: match r.resident_pages {
            Some(p) => (p * 4) as u64,
            None => 0,
        },
        children: Seq::empty(),
    }
}

/// The node of a PID no record gives (or one already placed).
pub open spec fn unknown_node(pid: i32) -> NodeView {
    NodeView { pid, name: "?"@, uid: 0, rss_kb: 0, children: Seq::empty() }
}

/// The last record for `pid`, which is the one kept when PIDs repeat.
pub open spec fn record_for(recs: Seq<ProcRecord>, pid: i32) -> Option<ProcRecord>
    decreases recs.len(),
{
    if recs.len() == 0 {
        None
    } else if recs.last().pid == pid {
        Some(recs.last())
    } else {
        record_for(recs.drop_last(), pid)
    }
}

/// The PIDs of the records whose parent is `pid`, in record order.
pub open spec fn child_pids(recs: Seq<ProcRecord>, pid: i32) -> Seq<i32>
    decreases recs.len(),
{
    if recs.len() == 0 {
        Seq::empty()
    } else {
        let prev = child_pids(recs.drop_last(), pid);
        if recs.last().ppid == pid {
            prev.push(recs.last().pid)
        } else {
            prev
        }
    }
}

/// Ascending order of PIDs.
pub open spec fn pid_leq() -> spec_fn(i32, i32) -> bool {
    |a: i32, b: i32| a <= b
}

/// The children visited below `pid`: its child PIDs in ascending order,
/// without `pid` itself.
pub open spec fn visit_order(recs: Seq<ProcRecord>, pid: i32) -> Seq<i32> {
    child_pids(recs, pid).sort_by(pid_leq()).filter(not_pid(pid))
}

/// The deepest level that gets children.
pub open spec fn depth_left(depth: nat) -> nat {
    if depth < 10 { (10 - depth) as nat } else { 0 }
}

/// The tree below `pid` at `depth`, when the PIDs in `used` were already
/// placed, and the PIDs placed after it. A PID's record is used once: a
/// PID met again (or without a record) gets the unknown node. Nodes at
/// depth 10 get no children.
pub open spec fn attach_spec(recs: Seq<ProcRecord>, pid: i32, depth: nat, used: Seq<i32>) -> (NodeView, Seq<i32>)
    decreases depth_left(depth), 0nat,
{
    let (base, used1) = match record_for(recs, pid) {
        Some(r) => if used.contains(pid) { (unknown_node(pid), used) } else { (record_node(r), used.push(pid)) },
        None => (unknown_node(pid), used),
    };
    if depth < 10 {
        let (kids, used2) = attach_all(recs, visit_order(recs, pid), depth + 1, used1);
        (NodeView { children: kids, ..base }, used2)
    } else {
        (base, used1)
    }
}

/// The trees below `pids`, built left to right at `depth`.
pub open spec fn attach_all(recs: Seq<ProcRecord>, pids: Seq<i32>, depth: nat, used: Seq<i32>) -> (Seq<NodeView>, Seq<i32>)
    decreases depth_left(depth), pids.len(),
{
    if pids.len() == 0 {
        (Seq::empty(), used)
    } else {
        let (prev, used1) = attach_all(recs, pids.drop_last(), depth, used);
        let (n, used2) = attach_spec(recs, pids.last(), depth, used1);
        (prev.push(n), used2)
    }
}

/// The known ancestors of `cur`, nearest first: its parent when that is a
/// positive PID with a record and not already in `seen`, then the
/// parent's ancestors; at most `fuel` of them.
pub open spec fn ancestors(recs: Seq<ProcRecord>, cur: i32, seen: Seq<i32>, fuel: nat) -> Seq<i32>
    decreases fuel,
{
    if fuel == 0 {
        Seq::empty()
    } else {
        match record_for(recs, cur) {
            Some(r) => if r.ppid > 0 && !seen.contains(r.ppid) && record_for(recs, r.ppid) is Some {
                seq![r.ppid] + ancestors(recs, r.ppid, seen.push(r.ppid), (fuel - 1) as nat)
            } else {
                Seq::empty()
            },
            None => Seq::empty(),
        }
    }
}

/// The ancestors of `pid` shown above it, nearest first.
pub open spec fn ancestors_of(recs: Seq<ProcRecord>, pid: i32) -> Seq<i32> {
    ancestors(recs, pid, seq![pid], recs.len())
}

/// The node of ancestor `a` with `n` as its only child.
pub open spec fn wrap_node(recs: Seq<ProcRecord>, a: i32, n: NodeView) -> NodeView {
    let base = match record_for(recs, a) {
        Some(r) => record_node(r),
        None => unknown_node(a),
    };
    NodeView { children: seq![n], ..base }
}

/// `n` below its ancestors `chain` (nearest first): the farthest one is
/// the root, and each holds the next nearer one as its only child.
pub open spec fn with_ancestors(recs: Seq<ProcRecord>, chain: Seq<i32>, n: NodeView) -> NodeView
    decreases chain.len(),
{
    if chain.len() == 0 {
        n
    } else {
        with_ancestors(recs, chain.drop_first(), wrap_node(recs, chain[0], n))
    }
}

/// The process tree shown for `pid`: its ancestors from the topmost known
/// one down, then `pid` itself with its descendants.
pub open spec fn tree_spec(recs: Seq<ProcRecord>, pid: i32) -> NodeView {
    with_ancestors(recs, ancestors_of(recs, pid), attach_spec(recs, pid, 0, Seq::empty()).0)
}

proof fn lemma_record_for_pid(recs: Seq<ProcRecord>, pid: i32)
    ensures
        record_for(recs, pid) matches Some(r) ==> r.pid == pid,
    decreases recs.len(),
{
    if recs.len() > 0 {
        lemma_record_for_pid(recs.drop_last(), pid);
    }
}

proof fn lemma_attach_pids(recs: Seq<ProcRecord>, pids: Seq<i32>, depth: nat, used: Seq<i32>)
    ensures
        attach_all(recs, pids, depth, used).0.len() == pids.len(),
        forall|i: int| 0 <= i < pids.len() ==> (#[trigger] attach_all(recs, pids, depth, used).0[i]).pid == pids[i],
    decreases pids.len(),
{
    if pids.len() > 0 {
        let (prev, used1) = attach_all(recs, pids.drop_last(), depth, used);
        lemma_attach_pids(recs, pids.drop_last(), depth, used);
        lemma_record_for_pid(recs, pids.last());
        let n = attach_spec(recs, pids.last(), depth, used1).0;
        assert(n.pid == pids.last());
        assert forall|i: int| 0 <= i < pids.len() implies (#[trigger] attach_all(recs, pids, depth, used).0[i]).pid == pids[i] by {
            if i < pids.len() - 1 {
                assert(attach_all(recs, pids, depth, used).0[i] == prev[i]);
                assert(pids.drop_last()[i] == pids[i]);
            }
        }
    }
}

/// The shape of the tree below a process: a node holds its PID; below
/// depth 10 its children are its child processes other than itself, in
/// ascending PID order; at depth 10 and deeper it has none.
pub proof fn lemma_tree_children(recs: Seq<ProcRecord>, pid: i32, depth: nat, used: Seq<i32>)
    ensures
        attach_spec(recs, pid, depth, used).0.pid == pid,
        depth < 10 ==> ({
            let n = attach_spec(recs, pid, depth, used).0;
            let kids = child_pids(recs, pid).sort_by(pid_leq()).filter(not_pid(pid));
            &&& n.children.len() == kids.len()
            &&& forall|i: int| 0 <= i < kids.len() ==> (#[trigger] n.children[i]).pid == kids[i]
        }),
        depth >= 10 ==> attach_spec(recs, pid, depth, used).0.children.len() == 0,
{
    lemma_record_for_pid(recs, pid);
    let (base, used1) = match record_for(recs, pid) {
        Some(r) => if used.contains(pid) { (unknown_node(pid), used) } else { (record_node(r), used.push(pid)) },
        None => (unknown_node(pid), used),
    };
    if depth < 10 {
        lemma_attach_pids(recs, visit_order(recs, pid), depth + 1, used1);
    }
}

proof fn lemma_pid_leq_total()
    ensures
        total_ordering(pid_leq()),
{
}

fn sorted_pids(v: Vec<i32>) -> (r: Vec<i32>)
    ensures
        r@ == v@.sort_by(pid_leq()),
{
    broadcast use vstd::seq_lib::group_to_multiset_ensures;

    let mut r: Vec<i32> = Vec::new();
    let mut i: usize = 0;
    while i < v.len()
        invariant
            i <= v@.len(),
            sorted_by(r@, pid_leq()),
            r@.to_multiset() == v@.take(i as int).to_multiset(),
        decreases v@.len() - i,
    {
        let x = v[i];
        let mut p = r.len();
        while p > 0 && r[p - 1] > x
            invariant
                p <= r@.len(),
                forall|j: int| p <= j < r@.len() ==> r@[j] > x,
            decreases p,
        {
            p = p - 1;
        }
        let ghost before = r@;
        r.insert(p, x);
        assert(sorted_by(r@, pid_leq())) by {
            assert forall|a: int, b: int| 0 <= a < b < r@.len() implies #[trigger] pid_leq()(r@[a], r@[b]) by {
                if b < p {
                    assert(r@[a] == before[a] && r@[b] == before[b]);
                    assert(pid_leq()(before[a], before[b]));
                } else if b == p {
                    assert(r@[a] == before[a]);
                    if p > 0 {
                        assert(before[p - 1] <= x);
                        if a < p - 1 {
                            assert(pid_leq()(before[a], before[p - 1]));
                        }
                    }
                } else if a == p {
                    assert(r@[b] == before[b - 1]);
                } else if a < p {
                    assert(r@[a] == before[a] && r@[b] == before[b - 1]);
                    assert(pid_leq()(before[a], before[b - 1]));
                } else {
                    assert(r@[a] == before[a - 1] && r@[b] == before[b - 1]);
                    assert(pid_leq()(before[a - 1], before[b - 1]));
                }
            }
        }
        assert(v@.take(i + 1) =~= v@.take(i as int).push(x));
        proof {
            vstd::seq_lib::to_multiset_insert(before, p as int, x);
            vstd::seq_lib::to_multiset_build(v@.take(i as int), x);
        }
        i = i + 1;
    }
    assert(v@.take(i as int) =~= v@);
    proof {
        lemma_pid_leq_total();
        v@.lemma_sort_by_ensures(pid_leq());
        vstd::seq_lib::lemma_sorted_unique(r@, v@.sort_by(pid_leq()), pid_leq());
    }
    r
}

/// Every resident page count can be turned into kilobytes.
pub open spec fn pages_fit(recs: Seq<ProcRecord>) -> bool {
    forall|i: int| 0 <= i < recs.len() ==> match (#[trigger] recs[i]).resident_pages {
        Some(p) => p * 4 <= u64::MAX,
        None => true,
    }
}

fn record_index(recs: &[ProcRecord], pid: i32) -> (r: Option<usize>)
    ensures
        match r {
            Some(i) => i < recs@.len() && record_for(recs@, pid) == Some(recs@[i as int]),
            None => record_for(recs@, pid) is None,
        },
{
    let mut k: usize = recs.len();
    assert(recs@.take(k as int) =~= recs@);
    while k > 0
        invariant
            k <= recs@.len(),
            record_for(recs@, pid) == record_for(recs@.take(k as int), pid),
        decreases k,
    {
        let ghost t = recs@.take(k as int);
        assert(t.last() == recs@[k - 1]);
        assert(t.drop_last() =~= recs@.take(k - 1));
        if recs[k - 1].pid == pid {
            return Some(k - 1);
        }
        k = k - 1;
    }
    None
}

fn contains_pid(v: &Vec<i32>, p: i32) -> (r: bool)
    ensures
        r == v@.contains(p),
{
    let mut i: usize = 0;
    while i < v.len()
        invariant
            i <= v@.len(),
            forall|j: int| 0 <= j < i ==> v@[j] != p,
        decreases v@.len() - i,
    {
        if v[i] == p {
            assert(v@[i as int] == p);
            return true;
        }
        i = i + 1;
    }
    false
}

/// The child PIDs of each parent, as the children map holds them.
pub open spec fn kids_match(recs: Seq<ProcRecord>, kids: Map<i32, Vec<i32>>) -> bool {
    forall|p: i32| #[trigger] child_pids(recs, p) == if kids.contains_key(p) { kids[p]@ } else { Seq::<i32>::empty() }
}

/// The nodes not yet placed: one for each PID that has a record and is not
/// in `used`, built from its last record.
pub open spec fn nodes_match(recs: Seq<ProcRecord>, nodes: Map<i32, ProcessNode>, used: Seq<i32>) -> bool {
    &&& forall|p: i32| #[trigger] nodes.contains_key(p) <==> (record_for(recs, p) is Some && !used.contains(p))
    &&& forall|p: i32| #[trigger] nodes.contains_key(p) ==> node_view(nodes[p]) == record_node(record_for(recs, p)->0)
}

fn kids_of(kids: &HashMap<i32, Vec<i32>>, pid: i32, Ghost(recs): Ghost<Seq<ProcRecord>>) -> (r: Vec<i32>)
    requires
        kids_match(recs, kids@),
    ensures
        r@ == visit_order(recs, pid),
{
    broadcast use vstd::std_specs::hash::group_hash_axioms;
    let mut all: Vec<i32> = Vec::new();
    assert(child_pids(recs, pid) == if kids@.contains_key(pid) { kids@[pid]@ } else { Seq::<i32>::empty() });
    match kids.get(&pid) {
        Some(v) => {
            let mut i: usize = 0;
            while i < v.len()
                invariant
                    i <= v@.len(),
                    all@ == v@.take(i as int),
                decreases v@.len() - i,
            {
                all.push(v[i]);
                i = i + 1;
                assert(all@ =~= v@.take(i as int));
            }
            assert(v@.take(i as int) =~= v@);
        },
        None => {},
    }
    assert(all@ == child_pids(recs, pid));
    let sorted = sorted_pids(all);
    let ghost pred = not_pid(pid);
    let mut out: Vec<i32> = Vec::new();
    let mut j: usize = 0;
    assert(sorted@.take(0).filter(pred) =~= Seq::<i32>::empty()) by {
        reveal(Seq::filter);
    }
    while j < sorted.len()
        invariant
            j <= sorted@.len(),
            pred == not_pid(pid),
            out@ == sorted@.take(j as int).filter(pred),
        decreases sorted@.len() - j,
    {
        proof {
            sorted@.take(j as int).lemma_filter_push(sorted@[j as int], pred);
        }
        assert(sorted@.take(j + 1) =~= sorted@.take(j as int).push(sorted@[j as int]));
        if sorted[j] != pid {
            out.push(sorted[j]);
        }
        j = j + 1;
    }
    assert(sorted@.take(j as int) =~= sorted@);
    out
}

fn attach(
    kids: &HashMap<i32, Vec<i32>>,
    nodes: &mut HashMap<i32, ProcessNode>,
    pid: i32,
    depth: usize,
    Ghost(recs): Ghost<Seq<ProcRecord>>,
    Ghost(used): Ghost<Seq<i32>>,
) -> (n: ProcessNode)
    requires
        depth <= 10,
        kids_match(recs, kids@),
        nodes_match(recs, old(nodes)@, used),
    ensures
        node_view(n) == attach_spec(recs, pid, depth as nat, used).0,
        nodes_match(recs, final(nodes)@, attach_spec(recs, pid, depth as nat, used).1),
    decreases 10 - depth,
{
    broadcast use vstd::std_specs::hash::group_hash_axioms;
    let ghost old_nodes = nodes@;
    let mut node = match nodes.remove(&pid) {
        Some(n) => n,
        None => ProcessNode { pid, name: String::from_str("?"), uid: 0, rss_kb: 0, children: Vec::new() },
    };
    let ghost base = node_view(node);
    let ghost used1 = if old_nodes.contains_key(pid) { used.push(pid) } else { used };
    assert(nodes_view(node.children@) =~= Seq::<NodeView>::empty()) by {
        if old_nodes.contains_key(pid) {
            assert(node_view(node) == record_node(record_for(recs, pid)->0));
            assert(node_view(node).children == nodes_view(node.children@));
        }
    }
    proof {
        let (b, u1) = match record_for(recs, pid) {
            Some(r) => if used.contains(pid) { (unknown_node(pid), used) } else { (record_node(r), used.push(pid)) },
            None => (unknown_node(pid), used),
        };
        assert(base =~= b);
        assert(used1 =~= u1);
        assert forall|p: i32| #[trigger] nodes@.contains_key(p) <==> (record_for(recs, p) is Some && !used1.contains(p)) by {
            if p != pid && used1.contains(p) {
                if old_nodes.contains_key(pid) {
                    assert(used1 == used.push(pid));
                    let k = choose|k: int| 0 <= k < used1.len() && used1[k] == p;
                    assert(used[k] == p);
                }
            }
            if p != pid && used.contains(p) && old_nodes.contains_key(pid) {
                let k = choose|k: int| 0 <= k < used.len() && used[k] == p;
                assert(used1[k] == p);
            }
            if p == pid && old_nodes.contains_key(pid) {
                assert(used1[used.len() as int] == pid);
            }
        }
        assert(nodes_match(recs, nodes@, used1));
    }
    if depth < 10 {
        let ks = kids_of(kids, pid, Ghost(recs));
        let mut children: Vec<ProcessNode> = Vec::new();
        let mut j: usize = 0;
        assert(ks@.take(0) =~= Seq::<i32>::empty());
        assert(nodes_view(children@) =~= Seq::<NodeView>::empty());
        while j < ks.len()
            invariant
                depth < 10,
                kids_match(recs, kids@),
                j <= ks@.len(),
                ks@ == visit_order(recs, pid),
                nodes_view(children@) == attach_all(recs, ks@.take(j as int), (depth + 1) as nat, used1).0,
                nodes_match(recs, nodes@, attach_all(recs, ks@.take(j as int), (depth + 1) as nat, used1).1),
            decreases ks@.len() - j,
        {
            let ghost t = ks@.take(j + 1);
            assert(t.drop_last() =~= ks@.take(j as int));
            assert(t.last() == ks@[j as int]);
            let ghost u = attach_all(recs, ks@.take(j as int), (depth + 1) as nat, used1).1;
            let c = attach(kids, nodes, ks[j], depth + 1, Ghost(recs), Ghost(u));
            let ghost before = children@;
            children.push(c);
            assert(children@.drop_last() =~= before);
            assert(children@.last() == c);
            j = j + 1;
        }
        assert(ks@.take(j as int) =~= ks@);
        node.children = children;
        assert(node_view(node) =~= NodeView { children: nodes_view(node.children@), ..base });
    }
    node
}

fn node_of(r: &ProcRecord) -> (n: ProcessNode)
    requires
        match r.resident_pages {
            Some(p) => p * 4 <= u64::MAX,
            None => true,
        },
    ensures
        node_view(n) == record_node(*r),
{
    let n = ProcessNode {
        pid: r.pid,
        name: r.name.clone(),
        uid: match r.uid {
            Some(u) => u,
            None => 0,
        },
        rss_kb: match r.resident_pages {
            Some(p) => p * 4,
            None => 0,
        },
        children: Vec::new(),
    };
    assert(nodes_view(n.children@) =~= Seq::<NodeView>::empty());
    n
}

fn ancestor_chain(recs: &[ProcRecord], pid: i32) -> (r: Vec<i32>)
    ensures
        r@ == ancestors_of(recs@, pid),
{
    let mut chain: Vec<i32> = Vec::new();
    let mut seen: Vec<i32> = vec![pid];
    let mut cur = pid;
    let mut fuel = recs.len();
    let mut done = false;
    assert(seen@ =~= seq![pid]);
    while fuel > 0 && !done
        invariant
            chain@ + (if done { Seq::empty() } else { ancestors(recs@, cur, seen@, fuel as nat) })
                == ancestors_of(recs@, pid),
        decreases fuel + if done { 0int } else { 1int },
    {
        let ghost rest = ancestors(recs@, cur, seen@, fuel as nat);
        match record_index(recs, cur) {
            None => {
                done = true;
                assert(chain@ + Seq::<i32>::empty() =~= chain@);
            },
            Some(i) => {
                let pp = recs[i].ppid;
                if pp > 0 && !contains_pid(&seen, pp) && record_index(recs, pp).is_some() {
                    let ghost before = chain@;
                    chain.push(pp);
                    seen.push(pp);
                    cur = pp;
                    fuel = fuel - 1;
                    assert(rest == seq![pp] + ancestors(recs@, cur, seen@, fuel as nat));
                    assert(chain@ + ancestors(recs@, cur, seen@, fuel as nat) =~= before + rest);
                } else {
                    done = true;
                    assert(chain@ + Seq::<i32>::empty() =~= chain@);
                }
            },
        }
    }
    if !done {
        assert(chain@ + Seq::<i32>::empty() =~= chain@);
    }
    chain
}

fn index_records(recs: &[ProcRecord]) -> (r: (HashMap<i32, Vec<i32>>, HashMap<i32, ProcessNode>))
    requires
        pages_fit(recs@),
    ensures
        kids_match(recs@, r.0@),
        nodes_match(recs@, r.1@, Seq::empty()),
{
    broadcast use vstd::std_specs::hash::group_hash_axioms;
    let mut kids: HashMap<i32, Vec<i32>> = HashMap::new();
    let mut nodes: HashMap<i32, ProcessNode> = HashMap::new();
    let mut i: usize = 0;
    while i < recs.len()
        invariant
            i <= recs@.len(),
            pages_fit(recs@),
            kids_match(recs@.take(i as int), kids@),
            nodes_match(recs@.take(i as int), nodes@, Seq::empty()),
        decreases recs@.len() - i,
    {
        let r = &recs[i];
        let ghost pre = recs@.take(i as int);
        let ghost post = recs@.take(i + 1);
        assert(post.drop_last() =~= pre);
        assert(post.last() == *r);
        assert(match recs@[i as int].resident_pages {
            Some(p) => p * 4 <= u64::MAX,
            None => true,
        });
        let ghost k0 = kids@;
        let mut v = match kids.remove(&r.ppid) {
            Some(v) => v,
            None => Vec::new(),
        };
        assert(v@ == child_pids(pre, r.ppid));
        v.push(r.pid);
        kids.insert(r.ppid, v);
        assert forall|p: i32| #[trigger] child_pids(post, p) == if kids@.contains_key(p) { kids@[p]@ } else { Seq::<i32>::empty() } by {
            assert(child_pids(pre, p) == if k0.contains_key(p) { k0[p]@ } else { Seq::<i32>::empty() });
        }
        let n = node_of(r);
        nodes.insert(r.pid, n);
        assert forall|p: i32| #[trigger] nodes@.contains_key(p) implies node_view(nodes@[p]) == record_node(record_for(post, p)->0) by {
            if p != r.pid {
                assert(record_for(post, p) == record_for(pre, p));
            }
        }
        i = i + 1;
    }
    assert(recs@.take(i as int) =~= recs@);
    (kids, nodes)
}

/// The process tree shown for `root_pid`, from the records of all
/// processes: its known ancestors from the topmost one down, each holding
/// the next as its only child, then `root_pid` with its descendants (see
/// [`tree_spec`]).
pub fn build_tree(root_pid: i32, recs: &[ProcRecord]) -> (r: ProcessNode)
    requires
        pages_fit(recs@),
    ensures
        node_view(r) == tree_spec(recs@, root_pid),
{
    let (kids, mut nodes) = index_records(recs);
    let mut node = attach(&kids, &mut nodes, root_pid, 0, Ghost(recs@), Ghost(Seq::empty()));
    let ghost sub = node_view(node);
    let chain = ancestor_chain(recs, root_pid);
    let mut i: usize = 0;
    assert(chain@.skip(0) =~= chain@);
    while i < chain.len()
        invariant
            pages_fit(recs@),
            i <= chain@.len(),
            with_ancestors(recs@, chain@.skip(i as int), node_view(node)) == with_ancestors(recs@, chain@, sub),
        decreases chain@.len() - i,
    {
        let a = chain[i];
        let ghost inner = node_view(node);
        let mut up = match record_index(recs, a) {
            Some(j) => {
                assert(match recs@[j as int].resident_pages {
                    Some(p) => p * 4 <= u64::MAX,
                    None => true,
                });
                node_of(&recs[j])
            },
            None => ProcessNode { pid: a, name: String::from_str("?"), uid: 0, rss_kb: 0, children: Vec::new() },
        };
        let ghost base = node_view(up);
        assert(nodes_view(up.children@) =~= Seq::<NodeView>::empty());
        up.children = vec![node];
        proof {
            assert(up.children@.drop_last() =~= Seq::<ProcessNode>::empty());
            assert(up.children@.last() == node);
            assert(nodes_view(Seq::<ProcessNode>::empty()) =~= Seq::<NodeView>::empty());
            assert(nodes_view(up.children@) =~= seq![inner]);
            assert(node_view(up) =~= wrap_node(recs@, a, inner));
            assert(chain@.skip(i as int).drop_first() =~= chain@.skip(i + 1));
        }
        node = up;
        i = i + 1;
    }
    node
}

// ─── Drawing ─────────────────────────────────────────────────────────────────

/// The line of one node: indented by `prefix`, joined to its parent by a
/// corner (last child) or a tee, its name highlighted when it is the
/// inspected process, then its PID and RSS in whole megabytes.
pub open spec fn node_line(n: NodeView, prefix: Seq<char>, is_last: bool, target: i32) -> Seq<char> {
    "  "@ + prefix + (if is_last { "└── "@ } else { "├── "@ })
        + (if n.pid == target { cyan_bold_text(n.name) } else { n.name })
        + " ("@ + dec(n.pid as int) + ") ["@ + dec((n.rss_kb / 1024) as int) + " MB]"@
}

/// The prefix of a node's children.
pub open spec fn child_prefix(prefix: Seq<char>, is_last: bool) -> Seq<char> {
    prefix + if is_last { "    "@ } else { "│   "@ }
}

/// The lines of a tree: its node's line, then its children's trees.
pub open spec fn tree_lines(n: NodeView, prefix: Seq<char>, is_last: bool, target: i32) -> Seq<Seq<char>>
    decreases n, 0nat,
{
    seq![node_line(n, prefix, is_last, target)] + children_lines(
        n.children,
        n.children.len(),
        child_prefix(prefix, is_last),
        target,
    )
}

/// The lines of the first `k` trees of `cs`; the last of `cs` is drawn as
/// the last child.
pub open spec fn children_lines(cs: Seq<NodeView>, k: nat, prefix: Seq<char>, target: i32) -> Seq<Seq<char>>
    decreases cs, k,
{
    if k == 0 || k > cs.len() {
        Seq::empty()
    } else {
        children_lines(cs, (k - 1) as nat, prefix, target) + tree_lines(
            cs[k - 1],
            prefix,
            k == cs.len(),
            target,
        )
    }
}

fn push_lines(n: &ProcessNode, prefix: &Vec<char>, is_last: bool, target: i32, out: &mut Vec<String>)
    ensures
        final(out)@.map_values(|s: String| s@) == old(out)@.map_values(|s: String| s@) + tree_lines(
            node_view(*n),
            prefix@,
            is_last,
            target,
        ),
    decreases n,
{
    let mut line = String::new();
    push_str(&mut line, "  ");
    push_all(&mut line, prefix.as_slice());
    push_str(&mut line, if is_last { "└── " } else { "├── " });
    if n.pid == target {
        let hl = paint_cyan_bold(n.name.as_str());
        push_str(&mut line, hl.as_str());
    } else {
        push_str(&mut line, n.name.as_str());
    }
    push_str(&mut line, " (");
    push_all(&mut line, fmt_dec(n.pid as i64).as_slice());
    push_str(&mut line, ") [");
    push_all(&mut line, fmt_udec(n.rss_kb / 1024).as_slice());
    push_str(&mut line, " MB]");
    let ghost v = node_view(*n);
    assert(line@ =~= node_line(v, prefix@, is_last, target));
    let ghost start = old(out)@.map_values(|s: String| s@);
    out.push(line);
    assert(out@.map_values(|s: String| s@) =~= start + seq![node_line(v, prefix@, is_last, target)]);
    let mut child_pfx: Vec<char> = prefix.clone();
    let mut ext = chars_of(if is_last { "    " } else { "│   " });
    child_pfx.append(&mut ext);
    assert(child_pfx@ =~= child_prefix(prefix@, is_last));
    let ghost head = start + seq![node_line(v, prefix@, is_last, target)];
    let count = n.children.len();
    let mut i: usize = 0;
    assert(v.children == nodes_view(n.children@));
    proof {
        lemma_nodes_view_len(n.children@);
    }
    while i < count
        invariant
            count == n.children@.len(),
            v.children == nodes_view(n.children@),
            v.children.len() == count,
            i <= count,
            child_pfx@ == child_prefix(prefix@, is_last),
            out@.map_values(|s: String| s@) == head + children_lines(v.children, i as nat, child_pfx@, target),
        decreases count - i,
    {
        proof {
            lemma_nodes_view_index(n.children@, i as int);
        }
        let ghost before = out@.map_values(|s: String| s@);
        push_lines(&n.children[i], &child_pfx, i + 1 == count, target, out);
        assert(children_lines(v.children, (i + 1) as nat, child_pfx@, target) == children_lines(
            v.children,
            i as nat,
            child_pfx@,
            target,
        ) + tree_lines(v.children[i as int], child_pfx@, i + 1 == count, target));
        i = i + 1;
    }
}

proof fn lemma_nodes_view_len(ns: Seq<ProcessNode>)
    ensures
        nodes_view(ns).len() == ns.len(),
    decreases ns.len(),
{
    if ns.len() > 0 {
        lemma_nodes_view_len(ns.drop_last());
    }
}

proof fn lemma_nodes_view_index(ns: Seq<ProcessNode>, i: int)
    requires
        0 <= i < ns.len(),
    ensures
        nodes_view(ns)[i] == node_view(ns[i]),
    decreases ns.len(),
{
    lemma_nodes_view_len(ns.drop_last());
    if i < ns.len() - 1 {
        lemma_nodes_view_index(ns.drop_last(), i);
    }
}

/// The lines that draw the tree `root` below its heading, highlighting the
/// inspected process `target` (see [`tree_lines`]).
pub fn draw_tree(root: &ProcessNode, target: i32) -> (r: Vec<String>)
    ensures
        r@.map_values(|s: String| s@) == tree_lines(node_view(*root), Seq::empty(), true, target),
{
    let mut out: Vec<String> = Vec::new();
    let empty: Vec<char> = Vec::new();
    assert(out@.map_values(|s: String| s@) =~= Seq::<Seq<char>>::empty());
    push_lines(root, &empty, true, target, &mut out);
    assert(Seq::<Seq<char>>::empty() + tree_lines(node_view(*root), empty@, true, target) =~= tree_lines(node_view(*root), Seq::empty(), true, target));
    out
}

} // verus!
