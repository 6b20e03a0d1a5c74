//! Stable sorting of keyed items, with keys compared lexicographically as
//! integer sequences (character codes, port numbers, PIDs, ...).
use vstd::prelude::*;
use crate::env::codes;
use crate::text::chars_of;

verus! {

/// Three-way lexicographic comparison of integer sequences: -1, 0 or 1.
pub open spec fn key_order(a: Seq<i64>, b: Seq<i64>) -> int
    decreases a.len(),
{
    if a.len() == 0 && b.len() == 0 {
        0
    } else if a.len() == 0 {
        -1
    } else if b.len() == 0 {
        1
    } else if a[0] < b[0] {
        -1
    } else if a[0] > b[0] {
        1
    } else {
        key_order(a.drop_first(), b.drop_first())
    }
}

/// The comparison is antisymmetric and zero exactly on equal keys.
pub proof fn lemma_key_order_antisym(a: Seq<i64>, b: Seq<i64>)
    ensures
        key_order(a, b) == -key_order(b, a),
        (key_order(a, b) == 0) == (a == b),
        -1 <= key_order(a, b) <= 1,
    decreases a.len(),
{
    if a.len() > 0 && b.len() > 0 && a[0] == b[0] {
        lemma_key_order_antisym(a.drop_first(), b.drop_first());
        if a.drop_first() == b.drop_first() {
            assert(a =~= seq![a[0]] + a.drop_first());
            assert(b =~= seq![b[0]] + b.drop_first());
        }
    }
    if a.len() == 0 && b.len() == 0 {
        assert(a =~= b);
    }
}

/// The comparison is transitive.
pub proof fn lemma_key_order_trans(a: Seq<i64>, b: Seq<i64>, c: Seq<i64>)
    requires
        key_order(a, b) <= 0,
        key_order(b, c) <= 0,
    ensures
        key_order(a, c) <= 0,
    decreases a.len(),
{
    if a.len() > 0 && b.len() > 0 && c.len() > 0 && a[0] == b[0] && b[0] == c[0] {
        lemma_key_order_trans(a.drop_first(), b.drop_first(), c.drop_first());
    }
}

/// Lexicographic comparison of `a` and `b`.
pub fn compare_keys(a: &[i64], b: &[i64]) -> (r: i8)
    ensures
        r as int == key_order(a@, b@),
{
    let mut i: usize = 0;
    assert(a@.skip(0) =~= a@);
    assert(b@.skip(0) =~= b@);
    while i < a.len() && i < b.len()
        invariant
            i <= a@.len(),
            i <= b@.len(),
            key_order(a@, b@) == key_order(a@.skip(i as int), b@.skip(i as int)),
        decreases a@.len() - i,
    {
        assert(a@.skip(i as int)[0] == a@[i as int]);
        assert(b@.skip(i as int)[0] == b@[i as int]);
        if a[i] < b[i] {
            return -1;
        }
        if a[i] > b[i] {
            return 1;
        }
        assert(a@.skip(i as int).drop_first() =~= a@.skip(i + 1));
        assert(b@.skip(i as int).drop_first() =~= b@.skip(i + 1));
        i = i + 1;
    }
    if i == a.len() && i == b.len() {
        0
    } else if i == a.len() {
        -1
    } else {
        1
    }
}

/// The keys of `s` never decrease.
pub open spec fn keys_sorted<V>(s: Seq<(Vec<i64>, V)>) -> bool {
    forall|i: int, j: int| 0 <= i < j < s.len() ==> key_order(#[trigger] s[i].0@, #[trigger] s[j].0@) <= 0
}

/// Whether an item has key `k`.
pub open spec fn key_is<V>(k: Seq<i64>) -> spec_fn((Vec<i64>, V)) -> bool {
    |e: (Vec<i64>, V)| e.0@ == k
}

/// The items of `s` with key `k`, in order.
pub open spec fn with_key<V>(s: Seq<(Vec<i64>, V)>, k: Seq<i64>) -> Seq<(Vec<i64>, V)> {
    s.filter(key_is(k))
}

/// `a` holds the same items as `b` and, for each key, in the same order.
pub open spec fn same_per_key<V>(a: Seq<(Vec<i64>, V)>, b: Seq<(Vec<i64>, V)>) -> bool {
    forall|k: Seq<i64>| #[trigger] with_key(a, k) == with_key(b, k)
}

proof fn lemma_insert_keeps<V>(
    r: Seq<(Vec<i64>, V)>,
    done: Seq<(Vec<i64>, V)>,
    x: (Vec<i64>, V),
    p: int,
)
    requires
        0 <= p <= r.len(),
        keys_sorted(r),
        same_per_key(r, done),
        forall|j: int| p <= j < r.len() ==> key_order(#[trigger] r[j].0@, x.0@) > 0,
        p > 0 ==> key_order(r[p - 1].0@, x.0@) <= 0,
    ensures
        keys_sorted(r.insert(p, x)),
        same_per_key(r.insert(p, x), done.push(x)),
{
    broadcast use Seq::filter_distributes_over_add, Seq::lemma_filter_push;

    let n = r.insert(p, x);
    let front = r.take(p);
    let back = r.skip(p);
    assert(n =~= front.push(x) + back);
    assert(r =~= front + back);
    assert forall|i: int, j: int| 0 <= i < j < n.len() implies key_order(
        #[trigger] n[i].0@,
        #[trigger] n[j].0@,
    ) <= 0 by {
        if j < p {
            assert(n[i] == r[i] && n[j] == r[j]);
        } else if j == p {
            assert(n[j] == x);
            assert(n[i] == r[i]);
            if i < p - 1 {
                lemma_key_order_trans(r[i].0@, r[p - 1].0@, x.0@);
            }
        } else if i == p {
            assert(n[i] == x && n[j] == r[j - 1]);
            lemma_key_order_antisym(r[j - 1].0@, x.0@);
        } else if i < p {
            assert(n[i] == r[i] && n[j] == r[j - 1]);
        } else {
            assert(n[i] == r[i - 1] && n[j] == r[j - 1]);
        }
    }
    assert forall|k: Seq<i64>| #[trigger] with_key(n, k) == with_key(done.push(x), k) by {
        let pred = key_is::<V>(k);
        assert(with_key(r, k) == with_key(done, k));
        assert(with_key(r, k) == front.filter(pred) + back.filter(pred));
        assert(with_key(n, k) == front.push(x).filter(pred) + back.filter(pred));
        if x.0@ == k {
            assert forall|j: int| 0 <= j < back.len() implies !pred(#[trigger] back[j]) by {
                assert(back[j] == r[p + j]);
                lemma_key_order_antisym(r[p + j].0@, x.0@);
            }
            lemma_filter_none(back, pred);
        }
    }
}

proof fn lemma_filter_none<A>(s: Seq<A>, pred: spec_fn(A) -> bool)
    requires
        forall|j: int| 0 <= j < s.len() ==> !pred(#[trigger] s[j]),
    ensures
        s.filter(pred) == Seq::<A>::empty(),
    decreases s.len(),
{
    reveal(Seq::filter);
    if s.len() > 0 {
        let t = s.drop_last();
        assert forall|j: int| 0 <= j < t.len() implies !pred(#[trigger] t[j]) by {
            assert(t[j] == s[j]);
        }
        lemma_filter_none(t, pred);
    }
}

/// `v` stably sorted by key: keys in order, and for each key its items in
/// their original order.
pub fn sort_by_keys<V>(v: Vec<(Vec<i64>, V)>) -> (r: Vec<(Vec<i64>, V)>)
    ensures
        keys_sorted(r@),
        same_per_key(r@, v@),
        r@.len() == v@.len(),
{
    let ghost orig = v@;
    let n0 = v.len();
    let mut src = v;
    let mut r: Vec<(Vec<i64>, V)> = Vec::new();
    let mut done_n: usize = 0;
    assert(r@ =~= orig.take(0));
    assert(src@ =~= orig.skip(0));
    while src.len() > 0
        invariant
            orig.len() == n0,
            orig.len() == done_n + src@.len(),
            src@ == orig.skip(done_n as int),
            keys_sorted(r@),
            same_per_key(r@, orig.take(done_n as int)),
            r@.len() == done_n,
        decreases src@.len(),
    {
        let x = src.remove(0);
        let ghost done = orig.take(done_n as int);
        assert(x == orig[done_n as int]);
        assert(orig.take(done_n + 1) =~= done.push(x));
        let mut p = r.len();
        while p > 0 && compare_keys(r[p - 1].0.as_slice(), x.0.as_slice()) > 0
            invariant
                p <= r@.len(),
                forall|j: int| p <= j < r@.len() ==> key_order(#[trigger] r@[j].0@, x.0@) > 0,
            decreases p,
        {
            p = p - 1;
        }
        proof {
            lemma_insert_keeps(r@, done, x, p as int);
        }
        r.insert(p, x);
        done_n = done_n + 1;
        assert(src@ =~= orig.skip(done_n as int));
    }
    assert(orig.take(done_n as int) =~= orig);
    r
}

/// `s` is in order of the keys `kf` gives its items.
pub open spec fn sorted_by<P>(s: Seq<P>, kf: spec_fn(P) -> Seq<i64>) -> bool {
    forall|i: int, j: int| 0 <= i < j < s.len() ==> key_order(kf(#[trigger] s[i]), kf(#[trigger] s[j])) <= 0
}

/// The items of `s` whose key under `kf` is `k`, in order.
pub open spec fn items_with_key<P>(s: Seq<P>, kf: spec_fn(P) -> Seq<i64>, k: Seq<i64>) -> Seq<P> {
    s.filter(|p: P| kf(p) == k)
}

/// `a` is `b` stably sorted by the keys `kf` gives: in key order, and for
/// each key the same items in the same order.
pub open spec fn stably_sorted_by<P>(a: Seq<P>, b: Seq<P>, kf: spec_fn(P) -> Seq<i64>) -> bool {
    &&& sorted_by(a, kf)
    &&& forall|k: Seq<i64>| #[trigger] items_with_key(a, kf, k) == items_with_key(b, kf, k)
}

/// The payloads of keyed items.
pub open spec fn payload_seq<P>(s: Seq<(Vec<i64>, P)>) -> Seq<P> {
    s.map_values(|e: (Vec<i64>, P)| e.1)
}

/// Each item's key is the one `kf` gives its payload.
pub open spec fn keyed_by<P>(s: Seq<(Vec<i64>, P)>, kf: spec_fn(P) -> Seq<i64>) -> bool {
    forall|i: int| 0 <= i < s.len() ==> (#[trigger] s[i]).0@ == kf(s[i].1)
}

proof fn lemma_with_key_payloads<P>(s: Seq<(Vec<i64>, P)>, kf: spec_fn(P) -> Seq<i64>, k: Seq<i64>)
    requires
        keyed_by(s, kf),
    ensures
        payload_seq(with_key(s, k)) == items_with_key(payload_seq(s), kf, k),
    decreases s.len(),
{
    reveal(Seq::filter);
    if s.len() == 0 {
        assert(payload_seq(with_key(s, k)) =~= Seq::<P>::empty());
        assert(payload_seq(s) =~= Seq::<P>::empty());
    } else {
        let t = s.drop_last();
        assert forall|i: int| 0 <= i < t.len() implies (#[trigger] t[i]).0@ == kf(t[i].1) by {
            assert(t[i] == s[i]);
        }
        lemma_with_key_payloads(t, kf, k);
        assert(payload_seq(s).drop_last() =~= payload_seq(t));
        let last = s.last();
        assert(last == s[s.len() - 1]);
        assert(payload_seq(s).last() == last.1);
        if last.0@ == k {
            assert(with_key(s, k) == with_key(t, k).push(last));
            assert(payload_seq(with_key(s, k)) =~= payload_seq(with_key(t, k)).push(last.1));
        } else {
            assert(with_key(s, k) == with_key(t, k));
        }
    }
}

fn strip_keys<P>(items: Vec<(Vec<i64>, P)>) -> (r: Vec<P>)
    ensures
        r@ == payload_seq(items@),
{
    let ghost orig = items@;
    let mut src = items;
    let mut out: Vec<P> = Vec::new();
    let n0 = src.len();
    let mut i: usize = 0;
    assert(src@ =~= orig.skip(0));
    while src.len() > 0
        invariant
            orig.len() == n0,
            i + src@.len() == n0,
            src@ == orig.skip(i as int),
            out@ == payload_seq(orig.take(i as int)),
        decreases src@.len(),
    {
        let (_, p) = src.remove(0);
        out.push(p);
        i = i + 1;
        assert(src@ =~= orig.skip(i as int));
        assert(out@ =~= payload_seq(orig.take(i as int)));
    }
    assert(orig.take(i as int) =~= orig);
    out
}

/// The payloads of `v`, stably sorted by the keys that come with them,
/// each being the key `kf` gives its payload.
pub fn sort_keyed<P>(v: Vec<(Vec<i64>, P)>, Ghost(kf): Ghost<spec_fn(P) -> Seq<i64>>) -> (r: Vec<P>)
    requires
        keyed_by(v@, kf),
    ensures
        stably_sorted_by(r@, payload_seq(v@), kf),
        r@.len() == v@.len(),
{
    broadcast use Seq::lemma_filter_contains, Seq::lemma_filter_contains_rev;

    let ghost orig = v@;
    let sorted = sort_by_keys(v);
    let ghost s = sorted@;
    assert forall|i: int| 0 <= i < s.len() implies (#[trigger] s[i]).0@ == kf(s[i].1) by {
        let x = s[i];
        let pred = key_is::<P>(x.0@);
        assert(pred(s[i]));
        assert(with_key(s, x.0@).contains(x));
        assert(with_key(orig, x.0@).contains(x));
        assert(orig.contains(x));
        let j = choose|j: int| 0 <= j < orig.len() && orig[j] == x;
        assert(orig[j].0@ == kf(orig[j].1));
    }
    let r = strip_keys(sorted);
    assert(sorted_by(r@, kf)) by {
        assert forall|i: int, j: int| 0 <= i < j < r@.len() implies key_order(kf(#[trigger] r@[i]), kf(#[trigger] r@[j])) <= 0 by {
            assert(r@[i] == s[i].1 && r@[j] == s[j].1);
            assert(key_order(s[i].0@, s[j].0@) <= 0);
        }
    }
    assert forall|k: Seq<i64>| #[trigger] items_with_key(r@, kf, k) == items_with_key(payload_seq(orig), kf, k) by {
        lemma_with_key_payloads(s, kf, k);
        lemma_with_key_payloads(orig, kf, k);
        assert(with_key(s, k) == with_key(orig, k));
    }
    r
}

/// The sort key of a text: its character codes, each plus one, then 0, so
/// that a text sorts before its extensions.
pub open spec fn str_key(s: Seq<char>) -> Seq<i64> {
    s.map_values(|c: char| ((c as u32) + 1) as i64) + seq![0i64]
}

/// Text keys order texts by character code (as `str` ordering does), and a
/// key that follows equal texts decides between them.
pub proof fn lemma_str_key_then(a: Seq<char>, b: Seq<char>, x: Seq<i64>, y: Seq<i64>)
    ensures
        key_order(str_key(a) + x, str_key(b) + y) == if a == b {
            key_order(x, y)
        } else {
            key_order(codes(a), codes(b))
        },
    decreases a.len(),
{
    let ka = str_key(a) + x;
    let kb = str_key(b) + y;
    if a.len() == 0 && b.len() == 0 {
        assert(a =~= b);
        assert(ka.drop_first() =~= x);
        assert(kb.drop_first() =~= y);
    } else if a.len() == 0 {
        assert(ka[0] == 0);
        assert(kb[0] == ((b[0] as u32) + 1) as i64);
        assert(codes(a).len() == 0);
        assert(codes(b).len() > 0);
    } else if b.len() == 0 {
        assert(kb[0] == 0);
        assert(ka[0] == ((a[0] as u32) + 1) as i64);
        assert(codes(b).len() == 0);
        assert(codes(a).len() > 0);
    } else {
        assert(ka[0] == ((a[0] as u32) + 1) as i64);
        assert(kb[0] == ((b[0] as u32) + 1) as i64);
        assert(codes(a)[0] == (a[0] as u32) as i64);
        assert(codes(b)[0] == (b[0] as u32) as i64);
        if (a[0] as u32) == (b[0] as u32) {
            vstd::utf8::char_u32_cast(a[0], a[0] as u32);
            vstd::utf8::char_u32_cast(b[0], b[0] as u32);
            assert(a[0] == b[0]);
            let a1 = a.drop_first();
            let b1 = b.drop_first();
            lemma_str_key_then(a1, b1, x, y);
            assert(ka.drop_first() =~= str_key(a1) + x);
            assert(kb.drop_first() =~= str_key(b1) + y);
            assert(codes(a).drop_first() =~= codes(a1));
            assert(codes(b).drop_first() =~= codes(b1));
            if a1 == b1 {
                assert(a =~= seq![a[0]] + a1);
                assert(b =~= seq![b[0]] + b1);
                assert(a =~= b);
            } else {
                assert(a != b) by {
                    if a == b {
                        assert(a1 =~= b1);
                    }
                }
            }
        } else {
            assert(a != b);
        }
    }
}

/// The sort key of `s`.
pub fn str_key_of(s: &str) -> (v: Vec<i64>)
    ensures
        v@ == str_key(s@),
{
    let cs = chars_of(s);
    let mut v: Vec<i64> = Vec::new();
    let mut i: usize = 0;
    while i < cs.len()
        invariant
            i <= cs@.len(),
            cs@ == s@,
            v@ == cs@.take(i as int).map_values(|c: char| ((c as u32) + 1) as i64),
        decreases cs@.len() - i,
    {
        v.push((cs[i] as u32 as i64) + 1);
        i = i + 1;
        assert(v@ =~= cs@.take(i as int).map_values(|c: char| ((c as u32) + 1) as i64));
    }
    v.push(0);
    assert(cs@.take(i as int) =~= cs@);
    assert(v@ =~= str_key(s@));
    v
}

proof fn lemma_filter_last<P>(s: Seq<P>, kf: spec_fn(P) -> Seq<i64>, k: Seq<i64>)
    requires
        s.len() > 0,
    ensures
        kf(s.last()) == k ==> items_with_key(s, kf, k) == items_with_key(s.drop_last(), kf, k).push(s.last()),
        kf(s.last()) != k ==> items_with_key(s, kf, k) == items_with_key(s.drop_last(), kf, k),
{
    reveal(Seq::filter);
}

proof fn lemma_key_present<P>(s: Seq<P>, kf: spec_fn(P) -> Seq<i64>, k: Seq<i64>) -> (i: int)
    requires
        items_with_key(s, kf, k).len() > 0,
    ensures
        0 <= i < s.len(),
        kf(s[i]) == k,
{
    broadcast use Seq::lemma_filter_pred, Seq::lemma_filter_contains_rev;

    let f = items_with_key(s, kf, k);
    let e = f[0];
    assert((|p: P| kf(p) == k)(e));
    assert(f.contains(e));
    assert(s.contains(e));
    choose|i: int| 0 <= i < s.len() && s[i] == e
}

/// Stable sorting has one result: two sequences in key order that hold,
/// for each key, the same items in the same order are equal. So sorting
/// rows that are already stably sorted changes nothing.
pub proof fn lemma_stable_sort_unique<P>(a: Seq<P>, b: Seq<P>, kf: spec_fn(P) -> Seq<i64>)
    requires
        sorted_by(a, kf),
        sorted_by(b, kf),
        forall|k: Seq<i64>| #[trigger] items_with_key(a, kf, k) == items_with_key(b, kf, k),
    ensures
        a == b,
    decreases a.len(),
{
    if a.len() == 0 {
        if b.len() > 0 {
            lemma_filter_last(b, kf, kf(b.last()));
            assert(items_with_key(a, kf, kf(b.last())) =~= Seq::<P>::empty()) by {
                reveal(Seq::filter);
            }
        }
        assert(a =~= b);
    } else {
        let x = a.last();
        let k = kf(x);
        lemma_filter_last(a, kf, k);
        assert(items_with_key(b, kf, k).len() > 0);
        let j = lemma_key_present(b, kf, k);
        let y = b.last();
        let k2 = kf(y);
        lemma_filter_last(b, kf, k2);
        assert(items_with_key(a, kf, k2).len() > 0);
        let i = lemma_key_present(a, kf, k2);
        if i < a.len() - 1 {
            assert(key_order(kf(a[i]), kf(a[a.len() - 1])) <= 0);
        } else {
            lemma_key_order_antisym(k2, k);
        }
        if j < b.len() - 1 {
            assert(key_order(kf(b[j]), kf(b[b.len() - 1])) <= 0);
        } else {
            lemma_key_order_antisym(k, k2);
        }
        lemma_key_order_antisym(k, k2);
        assert(k == k2);
        assert(items_with_key(a, kf, k).last() == x);
        assert(items_with_key(b, kf, k).last() == y);
        assert(x == y);
        let a1 = a.drop_last();
        let b1 = b.drop_last();
        assert forall|k3: Seq<i64>| #[trigger] items_with_key(a1, kf, k3) == items_with_key(b1, kf, k3) by {
            lemma_filter_last(a, kf, k3);
            lemma_filter_last(b, kf, k3);
            assert(items_with_key(a, kf, k3) == items_with_key(b, kf, k3));
            if k3 == k {
                assert(items_with_key(a1, kf, k3) =~= items_with_key(a, kf, k3).drop_last());
                assert(items_with_key(b1, kf, k3) =~= items_with_key(b, kf, k3).drop_last());
            }
        }
        assert(sorted_by(a1, kf)) by {
            assert forall|p: int, q: int| 0 <= p < q < a1.len() implies key_order(kf(#[trigger] a1[p]), kf(#[trigger] a1[q])) <= 0 by {
                assert(a1[p] == a[p] && a1[q] == a[q]);
            }
        }
        assert(sorted_by(b1, kf)) by {
            assert forall|p: int, q: int| 0 <= p < q < b1.len() implies key_order(kf(#[trigger] b1[p]), kf(#[trigger] b1[q])) <= 0 by {
                assert(b1[p] == b[p] && b1[q] == b[q]);
            }
        }
        lemma_stable_sort_unique(a1, b1, kf);
        assert(a =~= a1.push(x));
        assert(b =~= b1.push(y));
    }
}

} // verus!
