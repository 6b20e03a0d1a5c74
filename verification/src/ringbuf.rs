//! A fixed-capacity ring buffer of samples and FD-leak detection over it.
use vstd::prelude::*;

verus! {

/// A buffer that keeps the most recent `capacity` pushed items, oldest first.
pub struct RingBuf<T> {
    buf: Vec<T>,
    head: usize,
    cap: usize,
}

/// Contents after pushing `x` onto a ring of capacity `cap` holding `v`.
pub open spec fn ring_push<T>(v: Seq<T>, cap: nat, x: T) -> Seq<T> {
    if cap == 0 {
        v
    } else if v.len() < cap {
        v.push(x)
    } else {
        v.drop_first().push(x)
    }
}

/// Contents after pushing every item of `xs`, in order, onto a ring of
/// capacity `cap` holding `v`.
pub open spec fn ring_push_all<T>(v: Seq<T>, cap: nat, xs: Seq<T>) -> Seq<T>
    decreases xs.len(),
{
    if xs.len() == 0 {
        v
    } else {
        ring_push(ring_push_all(v, cap, xs.drop_last()), cap, xs.last())
    }
}

/// The last `n` items of `xs` (all of them when there are fewer).
pub open spec fn last_n<T>(xs: Seq<T>, n: nat) -> Seq<T> {
    if xs.len() <= n {
        xs
    } else {
        xs.skip(xs.len() - n)
    }
}

impl<T> RingBuf<T> {
    #[verifier::type_invariant]
    spec fn inv(self) -> bool {
        &&& self.buf@.len() <= self.cap
        &&& self.buf@.len() < self.cap ==> self.head == 0
        &&& self.cap > 0 ==> self.head < self.cap
        &&& self.head <= self.buf@.len()
    }

    /// The items held, oldest first.
    pub closed spec fn view(&self) -> Seq<T> {
        if self.buf@.len() < self.cap {
            self.buf@
        } else {
            self.buf@.skip(self.head as int) + self.buf@.take(self.head as int)
        }
    }

    /// The most items the buffer keeps.
    pub closed spec fn capacity_spec(&self) -> nat {
        self.cap as nat
    }

    /// An empty buffer that keeps at most `capacity` items.
    pub fn new(capacity: usize) -> (r: Self)
        ensures
            r.view() == Seq::<T>::empty(),
            r.capacity_spec() == capacity,
    {
        RingBuf { buf: Vec::new(), head: 0, cap: capacity }
    }

    /// The most items the buffer keeps.
    pub fn capacity(&self) -> (c: usize)
        ensures
            c == self.capacity_spec(),
    {
        self.cap
    }

    /// Number of items held.
    pub fn len(&self) -> (n: usize)
        ensures
            n == self.view().len(),
            n <= self.capacity_spec(),
    {
        proof {
            use_type_invariant(self);
        }
        self.buf.len()
    }

    /// Whether no item is held.
    pub fn is_empty(&self) -> (b: bool)
        ensures
            b == (self.view().len() == 0),
    {
        proof {
            use_type_invariant(self);
        }
        self.buf.len() == 0
    }

    /// Appends `x`; when the buffer is full the oldest item is dropped.
    pub fn push(&mut self, x: T)
        ensures
            final(self).view() == ring_push(old(self).view(), old(self).capacity_spec(), x),
            final(self).capacity_spec() == old(self).capacity_spec(),
    {
        proof {
            use_type_invariant(&*self);
        }
        if self.cap == 0 {
            return;
        }
        let mut tmp = RingBuf { buf: Vec::new(), head: 0, cap: 0 };
        std::mem::swap(self, &mut tmp);
        let RingBuf { buf: mut b, head, cap } = tmp;
        if b.len() < cap {
            b.push(x);
            *self = RingBuf { buf: b, head: 0, cap };
        } else {
            let ghost b0 = b@;
            let ghost h = head as int;
            let ghost c = cap as int;
            let h2: usize = if head + 1 == cap {
                0
            } else {
                head + 1
            };
            b.set(head, x);
            proof {
                let old_v = b0.skip(h) + b0.take(h);
                if h + 1 == c {
                    assert(b@.skip(0) + b@.take(0) =~= old_v.drop_first().push(x));
                } else {
                    assert(b@.skip(h + 1) + b@.take(h + 1) =~= old_v.drop_first().push(x));
                }
            }
            *self = RingBuf { buf: b, head: h2, cap };
        }
    }

    /// The item `i` positions after the oldest.
    pub fn get(&self, i: usize) -> (r: &T)
        requires
            i < self.view().len(),
        ensures
            *r == self.view()[i as int],
    {
        proof {
            use_type_invariant(self);
        }
        if self.buf.len() < self.cap {
            &self.buf[i]
        } else {
            let n = self.buf.len();
            let k = if i < n - self.head {
                self.head + i
            } else {
                i - (n - self.head)
            };
            &self.buf[k]
        }
    }
}

impl<T: Copy> RingBuf<T> {
    /// The items held, oldest first.
    pub fn to_vec(&self) -> (v: Vec<T>)
        ensures
            v@ == self.view(),
    {
        let n = self.len();
        let mut v: Vec<T> = Vec::new();
        let mut i: usize = 0;
        while i < n
            invariant
                n == self.view().len(),
                i <= n,
                v@ == self.view().take(i as int),
            decreases n - i,
        {
            v.push(*self.get(i));
            i = i + 1;
            assert(v@ =~= self.view().take(i as int));
        }
        assert(self.view().take(i as int) =~= self.view());
        v
    }
}

/// Pushing a sequence of items onto an empty ring of capacity `cap`
/// leaves exactly the last `cap` of them, oldest first.
pub proof fn lemma_ring_keeps_last<T>(cap: nat, xs: Seq<T>)
    requires
        cap > 0,
    ensures
        ring_push_all(Seq::<T>::empty(), cap, xs) == last_n(xs, cap),
    decreases xs.len(),
{
    if xs.len() > 0 {
        let p = xs.drop_last();
        lemma_ring_keeps_last(cap, p);
        if p.len() < cap {
            assert(last_n(p, cap).push(xs.last()) =~= last_n(xs, cap));
        } else {
            assert(last_n(p, cap).drop_first().push(xs.last()) =~= last_n(xs, cap));
        }
    }
}

/// A ring never holds more than its capacity, whatever is pushed.
pub proof fn lemma_ring_bounded<T>(cap: nat, xs: Seq<T>)
    ensures
        ring_push_all(Seq::<T>::empty(), cap, xs).len() <= cap,
    decreases xs.len(),
{
    if xs.len() > 0 {
        lemma_ring_bounded(cap, xs.drop_last());
    }
}

} // verus!

verus! {

/// One resource sample of a watched process.
#[derive(Debug, Clone, Copy, Default)]
pub struct ResourceSample {
    /// Resident set size in KB.
    pub rss_kb: u64,
    /// Virtual memory size in KB.
    pub vm_size_kb: u64,
    /// Thread count.
    pub threads: i32,
    /// Open file descriptor count.
    pub fd_count: u64,
}

/// Evidence of a file-descriptor leak: a run of consecutive increases.
#[derive(Debug, Clone)]
pub struct FdLeakWarning {
    /// FD count at the start of the observation window.
    pub start_count: usize,
    /// FD count at the end.
    pub end_count: usize,
    /// How many consecutive samples showed an increase.
    pub consecutive_increases: usize,
}

/// The FD counts of `v`, in order.
pub open spec fn fd_counts(v: Seq<ResourceSample>) -> Seq<u64> {
    v.map_values(|s: ResourceSample| s.fd_count)
}

/// How many of the last samples of `s` each exceed the one before them.
pub open spec fn trailing_increases(s: Seq<u64>) -> nat
    decreases s.len(),
{
    if s.len() < 2 {
        0
    } else if s.last() > s[s.len() - 2] {
        1 + trailing_increases(s.drop_last())
    } else {
        0
    }
}

/// The warning for samples `v`: present when there is a sample and the
/// trailing run of increases is at least `min_increases` long.
pub open spec fn fd_leak_spec(v: Seq<ResourceSample>, min_increases: nat) -> Option<FdLeakWarning> {
    let f = fd_counts(v);
    let k = trailing_increases(f);
    if f.len() > 0 && k >= min_increases {
        Some(
            FdLeakWarning {
                start_count: f[f.len() - 1 - k] as usize,
                end_count: f[f.len() - 1] as usize,
                consecutive_increases: k as usize,
            },
        )
    } else {
        None
    }
}

proof fn lemma_trailing_at(s: Seq<u64>, j: int)
    requires
        0 <= j < s.len(),
        forall|m: int| j < m < s.len() ==> #[trigger] s[m] > s[m - 1],
        j == 0 || s[j] <= s[j - 1],
    ensures
        trailing_increases(s) == s.len() - 1 - j,
        trailing_increases(s) < s.len(),
    decreases s.len(),
{
    if j < s.len() - 1 {
        let t = s.drop_last();
        assert forall|m: int| j < m < t.len() implies #[trigger] t[m] > t[m - 1] by {
            assert(t[m] == s[m] && t[m - 1] == s[m - 1]);
        }
        assert(s[s.len() - 1] > s[s.len() - 2]);
        lemma_trailing_at(t, j);
    }
}

/// Detects a file-descriptor leak: the FD count rose in each of the last
/// `min_increases` consecutive samples.
pub fn detect_fd_leak(rb: &RingBuf<ResourceSample>, min_increases: usize) -> (r: Option<FdLeakWarning>)
    ensures
        r == fd_leak_spec(rb.view(), min_increases as nat),
{
    let v = rb.to_vec();
    let n = v.len();
    let ghost f = fd_counts(v@);
    if n == 0 {
        return None;
    }
    let mut j: usize = n - 1;
    while j > 0 && v[j].fd_count > v[j - 1].fd_count
        invariant
            n == v@.len(),
            f == fd_counts(v@),
            j < n,
            forall|m: int| j < m < n ==> #[trigger] f[m] > f[m - 1],
        decreases j,
    {
        j = j - 1;
    }
    proof {
        lemma_trailing_at(f, j as int);
    }
    let k = n - 1 - j;
    if k >= min_increases {
        Some(
            FdLeakWarning {
                start_count: v[j].fd_count as usize,
                end_count: v[n - 1].fd_count as usize,
                consecutive_increases: k,
            },
        )
    } else {
        None
    }
}

/// A sample whose FD count is not above the previous one ends every leak run:
/// after it, no warning is raised for any positive threshold.
pub proof fn lemma_no_leak_after_drop(v: Seq<ResourceSample>, s: ResourceSample, min_increases: nat)
    requires
        v.len() > 0,
        s.fd_count <= v.last().fd_count,
        min_increases > 0,
    ensures
        fd_leak_spec(v.push(s), min_increases) is None,
{
    let f = fd_counts(v.push(s));
    assert(f.last() == s.fd_count);
    assert(f[f.len() - 2] == v.last().fd_count);
}

} // verus!
