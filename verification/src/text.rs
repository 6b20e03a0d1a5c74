//! Character-sequence utilities shared by the parsers: whitespace
//! splitting, line splitting, trimming, prefix tests, number parsing and
//! number formatting, each specified over `Seq<char>`.
use vstd::prelude::*;

verus! {

broadcast use vstd::string::group_string_axioms;

// ─── Conversions ─────────────────────────────────────────────────────────────

/// Appends one character to a `String` (`String::push`).
#[verifier::external_body]
pub(crate) fn push_char(s: &mut String, c: char)
    ensures
        final(s)@ == old(s)@.push(c),
{
    s.push(c);
}

/// The characters of `s`, in order.
pub fn chars_of(s: &str) -> (v: Vec<char>)
    ensures
        v@ == s@,
{
    let mut v: Vec<char> = Vec::new();
    for c in it: s.chars()
        invariant
            v@ == it.seq().take(it.index() as int),
    {
        v.push(c);
    }
    v
}

/// A `String` holding exactly the characters of `cs`.
pub fn string_of(cs: &[char]) -> (s: String)
    ensures
        s@ == cs@,
{
    let mut s = String::new();
    let mut i: usize = 0;
    while i < cs.len()
        invariant
            i <= cs@.len(),
            s@ == cs@.take(i as int),
        decreases cs@.len() - i,
    {
        push_char(&mut s, cs[i]);
        i = i + 1;
        assert(s@ =~= cs@.take(i as int));
    }
    assert(cs@.take(i as int) =~= cs@);
    s
}

/// Appends the characters of `cs` to `s`.
pub fn push_all(s: &mut String, cs: &[char])
    ensures
        final(s)@ == old(s)@ + cs@,
{
    let mut i: usize = 0;
    while i < cs.len()
        invariant
            i <= cs@.len(),
            s@ == old(s)@ + cs@.take(i as int),
        decreases cs@.len() - i,
    {
        push_char(s, cs[i]);
        i = i + 1;
        assert(s@ =~= old(s)@ + cs@.take(i as int));
    }
    assert(cs@.take(i as int) =~= cs@);
}

/// Appends the characters of `t` to `s`.
pub fn push_str(s: &mut String, t: &str)
    ensures
        final(s)@ == old(s)@ + t@,
{
    let cs = chars_of(t);
    push_all(s, cs.as_slice());
}

/// The character sequences held by a vector of character vectors.
pub open spec fn views(v: Seq<Vec<char>>) -> Seq<Seq<char>> {
    v.map_values(|x: Vec<char>| x@)
}

// ─── Whitespace ──────────────────────────────────────────────────────────────

/// The Unicode `White_Space` property, as `char::is_whitespace` documents it.
pub open spec fn is_ws(c: char) -> bool {
    let u = c as u32;
    (0x09 <= u && u <= 0x0d) || u == 0x20 || u == 0x85 || u == 0xa0 || u == 0x1680
        || (0x2000 <= u && u <= 0x200a) || u == 0x2028 || u == 0x2029 || u == 0x202f
        || u == 0x205f || u == 0x3000
}

/// Whether `c` is whitespace.
pub fn is_whitespace(c: char) -> (b: bool)
    ensures
        b == is_ws(c),
{
    let u = c as u32;
    (0x09 <= u && u <= 0x0d) || u == 0x20 || u == 0x85 || u == 0xa0 || u == 0x1680
        || (0x2000 <= u && u <= 0x200a) || u == 0x2028 || u == 0x2029 || u == 0x202f
        || u == 0x205f || u == 0x3000
}

/// Scanning state of whitespace splitting after reading all of `s`:
/// the finished tokens and the token being read.
pub open spec fn ws_fold(s: Seq<char>) -> (Seq<Seq<char>>, Seq<char>)
    decreases s.len(),
{
    if s.len() == 0 {
        (Seq::empty(), Seq::empty())
    } else {
        let (done, cur) = ws_fold(s.drop_last());
        let c = s.last();
        if is_ws(c) {
            if cur.len() > 0 {
                (done.push(cur), Seq::empty())
            } else {
                (done, cur)
            }
        } else {
            (done, cur.push(c))
        }
    }
}

/// The maximal runs of non-whitespace characters of `s` (`split_whitespace`).
pub open spec fn split_ws(s: Seq<char>) -> Seq<Seq<char>> {
    let (done, cur) = ws_fold(s);
    if cur.len() > 0 {
        done.push(cur)
    } else {
        done
    }
}

/// Splits `s` into its whitespace-separated tokens.
pub fn split_whitespace(s: &[char]) -> (toks: Vec<Vec<char>>)
    ensures
        views(toks@) == split_ws(s@),
{
    let mut done: Vec<Vec<char>> = Vec::new();
    let mut cur: Vec<char> = Vec::new();
    let mut i: usize = 0;
    while i < s.len()
        invariant
            i <= s@.len(),
            (views(done@), cur@) == ws_fold(s@.take(i as int)),
        decreases s@.len() - i,
    {
        let c = s[i];
        assert(s@.take(i + 1).drop_last() =~= s@.take(i as int));
        if is_whitespace(c) {
            if cur.len() > 0 {
                let ghost d0 = views(done@);
                let ghost c0 = cur@;
                let t = cur;
                done.push(t);
                cur = Vec::new();
                assert(views(done@) =~= d0.push(c0));
            }
        } else {
            cur.push(c);
        }
        i = i + 1;
    }
    assert(s@.take(i as int) =~= s@);
    if cur.len() > 0 {
        let ghost d0 = views(done@);
        let ghost c0 = cur@;
        done.push(cur);
        assert(views(done@) =~= d0.push(c0));
    }
    done
}

// ─── Lines ───────────────────────────────────────────────────────────────────

/// `line` without one trailing carriage return.
pub open spec fn strip_cr(line: Seq<char>) -> Seq<char> {
    if line.len() > 0 && line.last() == '\r' {
        line.drop_last()
    } else {
        line
    }
}

/// Scanning state of line splitting after reading all of `s`.
pub open spec fn lines_fold(s: Seq<char>) -> (Seq<Seq<char>>, Seq<char>)
    decreases s.len(),
{
    if s.len() == 0 {
        (Seq::empty(), Seq::empty())
    } else {
        let (done, cur) = lines_fold(s.drop_last());
        let c = s.last();
        if c == '\n' {
            (done.push(strip_cr(cur)), Seq::empty())
        } else {
            (done, cur.push(c))
        }
    }
}

/// The lines of `s` as `str::lines` yields them: split at `\n`, a `\r`
/// before the `\n` removed, no empty line after a final `\n`.
pub open spec fn lines(s: Seq<char>) -> Seq<Seq<char>> {
    let (done, cur) = lines_fold(s);
    if cur.len() > 0 {
        done.push(cur)
    } else {
        done
    }
}

/// Splits `s` into lines.
pub fn split_lines(s: &[char]) -> (ls: Vec<Vec<char>>)
    ensures
        views(ls@) == lines(s@),
{
    let mut done: Vec<Vec<char>> = Vec::new();
    let mut cur: Vec<char> = Vec::new();
    let mut i: usize = 0;
    while i < s.len()
        invariant
            i <= s@.len(),
            (views(done@), cur@) == lines_fold(s@.take(i as int)),
        decreases s@.len() - i,
    {
        let c = s[i];
        assert(s@.take(i + 1).drop_last() =~= s@.take(i as int));
        if c == '\n' {
            let ghost d0 = views(done@);
            let ghost c0 = cur@;
            if cur.len() > 0 && cur[cur.len() - 1] == '\r' {
                cur.pop();
            }
            assert(cur@ =~= strip_cr(c0));
            let t = cur;
            done.push(t);
            cur = Vec::new();
            assert(views(done@) =~= d0.push(strip_cr(c0)));
        } else {
            cur.push(c);
        }
        i = i + 1;
    }
    assert(s@.take(i as int) =~= s@);
    if cur.len() > 0 {
        let ghost d0 = views(done@);
        let ghost c0 = cur@;
        done.push(cur);
        assert(views(done@) =~= d0.push(c0));
    }
    done
}

} // verus!

verus! {

// ─── Subranges ───────────────────────────────────────────────────────────────

/// A copy of `s[a..b]`.
pub fn sub_vec<T: Copy>(s: &[T], a: usize, b: usize) -> (v: Vec<T>)
    requires
        a <= b <= s@.len(),
    ensures
        v@ == s@.subrange(a as int, b as int),
{
    let mut v: Vec<T> = Vec::new();
    let mut i = a;
    while i < b
        invariant
            a <= i <= b,
            b <= s@.len(),
            v@ == s@.subrange(a as int, i as int),
        decreases b - i,
    {
        v.push(s[i]);
        i = i + 1;
        assert(v@ =~= s@.subrange(a as int, i as int));
    }
    v
}

// ─── Trimming ────────────────────────────────────────────────────────────────

/// `s` without leading whitespace (`str::trim_start`).
pub open spec fn trim_start(s: Seq<char>) -> Seq<char>
    decreases s.len(),
{
    if s.len() > 0 && is_ws(s[0]) {
        trim_start(s.drop_first())
    } else {
        s
    }
}

/// `s` without trailing whitespace (`str::trim_end`).
pub open spec fn trim_end(s: Seq<char>) -> Seq<char>
    decreases s.len(),
{
    if s.len() > 0 && is_ws(s.last()) {
        trim_end(s.drop_last())
    } else {
        s
    }
}

/// `s` without leading and trailing whitespace (`str::trim`).
pub open spec fn trim(s: Seq<char>) -> Seq<char> {
    trim_end(trim_start(s))
}

proof fn lemma_trim_start_at(s: Seq<char>, i: int)
    requires
        0 <= i <= s.len(),
        forall|j: int| 0 <= j < i ==> is_ws(#[trigger] s[j]),
        i == s.len() || !is_ws(s[i]),
    ensures
        trim_start(s) == s.skip(i),
    decreases i,
{
    if i == 0 {
        assert(s.skip(0) =~= s);
    } else {
        let t = s.drop_first();
        assert forall|j: int| 0 <= j < i - 1 implies is_ws(#[trigger] t[j]) by {
            assert(t[j] == s[j + 1]);
        }
        if i < s.len() {
            assert(t[i - 1] == s[i]);
        }
        lemma_trim_start_at(t, i - 1);
        assert(t.skip(i - 1) =~= s.skip(i));
    }
}

proof fn lemma_trim_end_at(s: Seq<char>, k: int)
    requires
        0 <= k <= s.len(),
        forall|j: int| k <= j < s.len() ==> is_ws(#[trigger] s[j]),
        k == 0 || !is_ws(s[k - 1]),
    ensures
        trim_end(s) == s.take(k),
    decreases s.len() - k,
{
    if k == s.len() {
        assert(s.take(k) =~= s);
    } else {
        let t = s.drop_last();
        assert forall|j: int| k <= j < t.len() implies is_ws(#[trigger] t[j]) by {
            assert(t[j] == s[j]);
        }
        if k > 0 {
            assert(t[k - 1] == s[k - 1]);
        }
        lemma_trim_end_at(t, k);
        assert(t.take(k) =~= s.take(k));
    }
}

/// `s` without leading whitespace.
pub fn trim_start_chars(s: &[char]) -> (r: Vec<char>)
    ensures
        r@ == trim_start(s@),
{
    let mut i: usize = 0;
    while i < s.len() && is_whitespace(s[i])
        invariant
            i <= s@.len(),
            forall|j: int| 0 <= j < i ==> is_ws(#[trigger] s@[j]),
        decreases s@.len() - i,
    {
        i = i + 1;
    }
    proof {
        lemma_trim_start_at(s@, i as int);
    }
    assert(s@.subrange(i as int, s@.len() as int) =~= s@.skip(i as int));
    sub_vec(s, i, s.len())
}

/// `s` without leading and trailing whitespace.
pub fn trim_chars(s: &[char]) -> (r: Vec<char>)
    ensures
        r@ == trim(s@),
{
    let t = trim_start_chars(s);
    let mut k: usize = t.len();
    while k > 0 && is_whitespace(t[k - 1])
        invariant
            k <= t@.len(),
            forall|j: int| k <= j < t@.len() ==> is_ws(#[trigger] t@[j]),
        decreases k,
    {
        k = k - 1;
    }
    proof {
        lemma_trim_end_at(t@, k as int);
    }
    assert(t@.subrange(0, k as int) =~= t@.take(k as int));
    sub_vec(t.as_slice(), 0, k)
}

// ─── Prefixes, suffixes, search ──────────────────────────────────────────────

/// Whether `a` and `b` hold the same characters.
pub fn eq_chars(a: &[char], b: &[char]) -> (r: bool)
    ensures
        r == (a@ == b@),
{
    if a.len() != b.len() {
        return false;
    }
    let mut i: usize = 0;
    while i < a.len()
        invariant
            i <= a@.len(),
            a@.len() == b@.len(),
            forall|j: int| 0 <= j < i ==> a@[j] == b@[j],
        decreases a@.len() - i,
    {
        if a[i] != b[i] {
            return false;
        }
        i = i + 1;
    }
    assert(a@ =~= b@);
    true
}

/// Whether `p` is a prefix of `s` (`str::starts_with`).
pub fn starts_with(s: &[char], p: &[char]) -> (r: bool)
    ensures
        r == p@.is_prefix_of(s@),
{
    if p.len() > s.len() {
        return false;
    }
    let mut i: usize = 0;
    while i < p.len()
        invariant
            i <= p@.len() <= s@.len(),
            forall|j: int| 0 <= j < i ==> p@[j] == s@[j],
        decreases p@.len() - i,
    {
        if p[i] != s[i] {
            assert(p@[i as int] != s@.subrange(0, p@.len() as int)[i as int]);
            return false;
        }
        i = i + 1;
    }
    assert(p@ =~= s@.subrange(0, p@.len() as int));
    true
}

/// Whether `p` is a suffix of `s` (`str::ends_with`).
pub fn ends_with(s: &[char], p: &[char]) -> (r: bool)
    ensures
        r == p@.is_suffix_of(s@),
{
    if p.len() > s.len() {
        return false;
    }
    let off = s.len() - p.len();
    let mut i: usize = 0;
    while i < p.len()
        invariant
            i <= p@.len() <= s@.len(),
            off == s@.len() - p@.len(),
            s@.len() <= usize::MAX,
            forall|j: int| 0 <= j < i ==> p@[j] == s@[off + j],
        decreases p@.len() - i,
    {
        if p[i] != s[off + i] {
            assert(p@[i as int] != s@.subrange(off as int, s@.len() as int)[i as int]);
            return false;
        }
        i = i + 1;
    }
    assert(p@ =~= s@.subrange(off as int, s@.len() as int));
    true
}

/// `s` with the prefix `p` removed, when `s` starts with `p` (`str::strip_prefix`).
pub fn strip_prefix(s: &[char], p: &[char]) -> (r: Option<Vec<char>>)
    ensures
        r is Some <==> p@.is_prefix_of(s@),
        r matches Some(t) ==> t@ == s@.skip(p@.len() as int),
{
    if starts_with(s, p) {
        let t = sub_vec(s, p.len(), s.len());
        assert(t@ =~= s@.skip(p@.len() as int));
        Some(t)
    } else {
        None
    }
}

/// Index of the first occurrence of `c` in `s` (`str::find` with a char).
pub open spec fn find_first(s: Seq<char>, c: char) -> Option<int>
    decreases s.len(),
{
    if s.len() == 0 {
        None
    } else if s[0] == c {
        Some(0)
    } else {
        match find_first(s.drop_first(), c) {
            Some(k) => Some(k + 1),
            None => None,
        }
    }
}

/// Index of the last occurrence of `c` in `s` (`str::rfind` with a char).
pub open spec fn find_last(s: Seq<char>, c: char) -> Option<int>
    decreases s.len(),
{
    if s.len() == 0 {
        None
    } else if s.last() == c {
        Some(s.len() - 1)
    } else {
        find_last(s.drop_last(), c)
    }
}

/// What [`find_first`] finds: the position of the first `c`, or none when
/// `s` holds no `c`.
pub proof fn lemma_find_first_found(s: Seq<char>, c: char)
    ensures
        match find_first(s, c) {
            Some(k) => 0 <= k < s.len() && s[k] == c && forall|j: int| 0 <= j < k ==> s[j] != c,
            None => !s.contains(c),
        },
    decreases s.len(),
{
    if s.len() > 0 && s[0] != c {
        let t = s.drop_first();
        lemma_find_first_found(t, c);
        match find_first(t, c) {
            Some(k) => {
                assert forall|j: int| 0 <= j < k + 1 implies s[j] != c by {
                    if j > 0 {
                        assert(s[j] == t[j - 1]);
                    }
                }
            },
            None => {
                if s.contains(c) {
                    let j = choose|j: int| 0 <= j < s.len() && s[j] == c;
                    assert(t[j - 1] == c);
                }
            },
        }
    }
}

proof fn lemma_find_first(s: Seq<char>, c: char, k: int)
    requires
        0 <= k <= s.len(),
        forall|j: int| 0 <= j < k ==> #[trigger] s[j] != c,
        k < s.len() ==> s[k] == c,
    ensures
        find_first(s, c) == (if k < s.len() { Some(k) } else { None::<int> }),
    decreases k,
{
    if k > 0 {
        let t = s.drop_first();
        assert forall|j: int| 0 <= j < k - 1 implies #[trigger] t[j] != c by {
            assert(t[j] == s[j + 1]);
        }
        if k < s.len() {
            assert(t[k - 1] == s[k]);
        }
        assert(s[0] != c);
        lemma_find_first(t, c, k - 1);
    }
}

proof fn lemma_find_last(s: Seq<char>, c: char, k: int)
    requires
        -1 <= k < s.len(),
        forall|j: int| k < j < s.len() ==> #[trigger] s[j] != c,
        k >= 0 ==> s[k] == c,
    ensures
        find_last(s, c) == (if k >= 0 { Some(k) } else { None::<int> }),
    decreases s.len(),
{
    if s.len() > 0 && k != s.len() - 1 {
        let t = s.drop_last();
        assert forall|j: int| k < j < t.len() implies #[trigger] t[j] != c by {
            assert(t[j] == s[j]);
        }
        if k >= 0 {
            assert(t[k] == s[k]);
        }
        assert(s.last() != c);
        lemma_find_last(t, c, k);
    }
}

/// The first index of `c` in `s`.
pub fn find_char(s: &[char], c: char) -> (r: Option<usize>)
    ensures
        r matches Some(k) ==> find_first(s@, c) == Some(k as int) && k < s@.len() && s@[k as int] == c,
        r is None ==> find_first(s@, c) is None,
{
    let mut i: usize = 0;
    while i < s.len()
        invariant
            i <= s@.len(),
            forall|j: int| 0 <= j < i ==> #[trigger] s@[j] != c,
        decreases s@.len() - i,
    {
        if s[i] == c {
            proof {
                lemma_find_first(s@, c, i as int);
            }
            return Some(i);
        }
        i = i + 1;
    }
    proof {
        lemma_find_first(s@, c, i as int);
    }
    None
}

/// The last index of `c` in `s`.
pub fn rfind_char(s: &[char], c: char) -> (r: Option<usize>)
    ensures
        r matches Some(k) ==> find_last(s@, c) == Some(k as int) && k < s@.len() && s@[k as int] == c,
        r is None ==> find_last(s@, c) is None,
{
    let mut i: usize = s.len();
    while i > 0
        invariant
            i <= s@.len(),
            forall|j: int| i <= j < s@.len() ==> #[trigger] s@[j] != c,
        decreases i,
    {
        if s[i - 1] == c {
            proof {
                lemma_find_last(s@, c, i - 1);
            }
            return Some(i - 1);
        }
        i = i - 1;
    }
    proof {
        lemma_find_last(s@, c, -1);
    }
    None
}

/// Whether `n` occurs in `h` as a contiguous run (`str::contains`).
pub open spec fn contains_seq(h: Seq<char>, n: Seq<char>) -> bool {
    exists|i: int| 0 <= i && i + n.len() <= h.len() && #[trigger] h.subrange(i, i + n.len()) == n
}

/// Whether `n` occurs in `h`.
pub fn contains_chars(h: &[char], n: &[char]) -> (r: bool)
    ensures
        r == contains_seq(h@, n@),
{
    if n.len() > h.len() {
        return false;
    }
    if n.len() == 0 {
        assert(h@.subrange(0int, 0int + n@.len()) =~= n@);
        return true;
    }
    let last = h.len() - n.len();
    let mut i: usize = 0;
    while i <= last
        invariant
            last == h@.len() - n@.len(),
            h@.len() <= usize::MAX,
            n@.len() > 0,
            i <= last + 1,
            forall|k: int| 0 <= k < i ==> #[trigger] h@.subrange(k, k + n@.len()) != n@,
        decreases last + 1 - i,
    {
        let mut j: usize = 0;
        let mut same = true;
        while j < n.len()
            invariant
                i <= last,
                last == h@.len() - n@.len(),
                h@.len() <= usize::MAX,
                j <= n@.len(),
                same ==> forall|m: int| 0 <= m < j ==> h@[i + m] == n@[m],
                !same ==> h@.subrange(i as int, i + n@.len()) != n@,
            decreases n@.len() - j,
        {
            if h[i + j] != n[j] {
                assert(h@.subrange(i as int, i + n@.len())[j as int] != n@[j as int]);
                same = false;
            }
            j = j + 1;
        }
        if same {
            assert(h@.subrange(i as int, i + n@.len()) =~= n@);
            return true;
        }
        i = i + 1;
    }
    false
}

} // verus!

verus! {

// ─── Number parsing ──────────────────────────────────────────────────────────

/// The value of digit `c` in base `radix` (`char::to_digit`).
pub open spec fn digit_val(c: char, radix: nat) -> Option<nat> {
    let u = c as u32;
    let d: nat = if 48 <= u && u <= 57 {
        (u - 48) as nat
    } else if 97 <= u && u <= 122 {
        (u - 87) as nat
    } else if 65 <= u && u <= 90 {
        (u - 55) as nat
    } else {
        99
    };
    if d < radix {
        Some(d)
    } else {
        None
    }
}

/// Every character of `s` is a digit in base `radix`.
pub open spec fn all_digits(s: Seq<char>, radix: nat) -> bool {
    forall|i: int| 0 <= i < s.len() ==> (#[trigger] digit_val(s[i], radix)) is Some
}

/// The value of the digit string `s` in base `radix`.
pub open spec fn digits_value(s: Seq<char>, radix: nat) -> nat
    decreases s.len(),
{
    if s.len() == 0 {
        0
    } else {
        digits_value(s.drop_last(), radix) * radix + digit_val(s.last(), radix).unwrap()
    }
}

/// What `from_str_radix` of an unsigned type with maximum `max` returns:
/// an optional `+`, then one or more digits whose value is at most `max`.
pub open spec fn parse_unsigned(s: Seq<char>, radix: nat, max: nat) -> Option<nat> {
    let body = if s.len() > 0 && s[0] == '+' {
        s.drop_first()
    } else {
        s
    };
    if body.len() > 0 && all_digits(body, radix) && digits_value(body, radix) <= max {
        Some(digits_value(body, radix))
    } else {
        None
    }
}

/// What `from_str_radix` of a signed type returns: a leading `-` takes a
/// magnitude of at most `neg_max`, otherwise as [`parse_unsigned`] with `pos_max`.
pub open spec fn parse_signed(s: Seq<char>, radix: nat, neg_max: nat, pos_max: nat) -> Option<int> {
    if s.len() > 0 && s[0] == '-' {
        let body = s.drop_first();
        if body.len() > 0 && all_digits(body, radix) && digits_value(body, radix) <= neg_max {
            Some(-(digits_value(body, radix) as int))
        } else {
            None
        }
    } else {
        match parse_unsigned(s, radix, pos_max) {
            Some(v) => Some(v as int),
            None => None,
        }
    }
}

/// `u64` in decimal (`str::parse::<u64>`).
pub open spec fn parse_u64(s: Seq<char>) -> Option<nat> {
    parse_unsigned(s, 10, u64::MAX as nat)
}

/// `u32` in decimal (`str::parse::<u32>`).
pub open spec fn parse_u32(s: Seq<char>) -> Option<nat> {
    parse_unsigned(s, 10, u32::MAX as nat)
}

/// `i32` in decimal (`str::parse::<i32>`).
pub open spec fn parse_i32(s: Seq<char>) -> Option<int> {
    parse_signed(s, 10, 0x8000_0000, 0x7fff_ffff)
}

/// `u64` in hexadecimal (`u64::from_str_radix(_, 16)`).
pub open spec fn parse_hex_u64(s: Seq<char>) -> Option<nat> {
    parse_unsigned(s, 16, u64::MAX as nat)
}

/// `u8` in hexadecimal (`u8::from_str_radix(_, 16)`).
pub open spec fn parse_hex_u8(s: Seq<char>) -> Option<nat> {
    parse_unsigned(s, 16, u8::MAX as nat)
}

fn digit_of(c: char, radix: u32) -> (r: Option<u32>)
    requires
        2 <= radix <= 36,
    ensures
        r matches Some(d) ==> digit_val(c, radix as nat) == Some(d as nat),
        r is None ==> digit_val(c, radix as nat) is None,
{
    let u = c as u32;
    let d: u32 = if 48 <= u && u <= 57 {
        u - 48
    } else if 97 <= u && u <= 122 {
        u - 87
    } else if 65 <= u && u <= 90 {
        u - 55
    } else {
        99
    };
    if d < radix {
        Some(d)
    } else {
        None
    }
}

proof fn lemma_step_ge(x: nat, radix: nat, d: nat)
    requires
        radix >= 1,
    ensures
        x * radix + d >= x,
{
    assert(x * radix >= x) by (nonlinear_arith)
        requires
            radix >= 1,
    ;
}

/// The digits of `s` from `start`, parsed in base `radix` with a bound of `max`:
/// `None` unless `s[start..]` is non-empty, all digits, and of value at most `max`.
fn parse_digits(s: &[char], start: usize, radix: u32, max: u64) -> (r: Option<u64>)
    requires
        2 <= radix <= 36,
        start <= s@.len(),
    ensures
        ({
            let body = s@.skip(start as int);
            match r {
                Some(v) => body.len() > 0 && all_digits(body, radix as nat) && v == digits_value(
                    body,
                    radix as nat,
                ) && v <= max,
                None => !(body.len() > 0 && all_digits(body, radix as nat) && digits_value(
                    body,
                    radix as nat,
                ) <= max),
            }
        }),
{
    if start == s.len() {
        return None;
    }
    let ghost rd = radix as nat;
    let mut v: u64 = 0;
    let mut ok = true;
    let mut i = start;
    assert(s@.subrange(start as int, start as int).len() == 0);
    while i < s.len()
        invariant
            2 <= radix <= 36,
            rd == radix as nat,
            start <= i <= s@.len(),
            all_digits(s@.subrange(start as int, i as int), rd),
            ok ==> v == digits_value(s@.subrange(start as int, i as int), rd),
            ok ==> v <= max,
            !ok ==> digits_value(s@.subrange(start as int, i as int), rd) > max,
        decreases s@.len() - i,
    {
        let ghost prev = s@.subrange(start as int, i as int);
        let ghost next = s@.subrange(start as int, i + 1);
        assert(next.drop_last() =~= prev);
        assert(next.last() == s@[i as int]);
        let d = match digit_of(s[i], radix) {
            Some(d) => d,
            None => {
                let ghost body = s@.skip(start as int);
                assert(body[i - start] == s@[i as int]);
                return None;
            },
        };
        assert forall|j: int| 0 <= j < next.len() implies (#[trigger] digit_val(next[j], rd)) is Some by {
            if j < prev.len() {
                assert(next[j] == prev[j]);
            }
        }
        proof {
            lemma_step_ge(digits_value(prev, rd), rd, d as nat);
        }
        if ok {
            assert((v as u128) * (radix as u128) <= 0xffff_ffff_ffff_ffffu128 * 36) by (nonlinear_arith)
                requires
                    v <= 0xffff_ffff_ffff_ffffu64,
                    radix <= 36,
            ;
            assert(d < 36) by {
                assert(digit_val(s@[i as int], rd) == Some(d as nat));
            }
            let w: u128 = (v as u128) * (radix as u128) + (d as u128);
            if w <= max as u128 {
                v = w as u64;
            } else {
                ok = false;
            }
        }
        i = i + 1;
    }
    assert(s@.subrange(start as int, i as int) =~= s@.skip(start as int));
    if ok {
        Some(v)
    } else {
        None
    }
}

/// Parses `s` as an unsigned number in base `radix` of at most `max`.
pub fn parse_uint(s: &[char], radix: u32, max: u64) -> (r: Option<u64>)
    requires
        2 <= radix <= 36,
    ensures
        match r {
            Some(v) => parse_unsigned(s@, radix as nat, max as nat) == Some(v as nat),
            None => parse_unsigned(s@, radix as nat, max as nat) is None,
        },
{
    let start: usize = if s.len() > 0 && s[0] == '+' {
        1
    } else {
        0
    };
    assert(s@.skip(start as int) =~= (if s@.len() > 0 && s@[0] == '+' {
        s@.drop_first()
    } else {
        s@
    }));
    parse_digits(s, start, radix, max)
}

/// Parses `s` as a signed number in base `radix`, negative magnitudes up to
/// `neg_max`, positive values up to `pos_max`.
pub fn parse_int(s: &[char], radix: u32, neg_max: u64, pos_max: u64) -> (r: Option<i128>)
    requires
        2 <= radix <= 36,
    ensures
        match r {
            Some(v) => parse_signed(s@, radix as nat, neg_max as nat, pos_max as nat) == Some(
                v as int,
            ),
            None => parse_signed(s@, radix as nat, neg_max as nat, pos_max as nat) is None,
        },
{
    if s.len() > 0 && s[0] == '-' {
        assert(s@.skip(1) =~= s@.drop_first());
        match parse_digits(s, 1, radix, neg_max) {
            Some(m) => Some(0i128 - m as i128),
            None => None,
        }
    } else {
        match parse_uint(s, radix, pos_max) {
            Some(v) => Some(v as i128),
            None => None,
        }
    }
}

/// `str::parse::<u64>`.
pub fn parse_u64_chars(s: &[char]) -> (r: Option<u64>)
    ensures
        match r {
            Some(v) => parse_u64(s@) == Some(v as nat),
            None => parse_u64(s@) is None,
        },
{
    parse_uint(s, 10, u64::MAX)
}

/// `str::parse::<u32>`.
pub fn parse_u32_chars(s: &[char]) -> (r: Option<u32>)
    ensures
        match r {
            Some(v) => parse_u32(s@) == Some(v as nat),
            None => parse_u32(s@) is None,
        },
{
    match parse_uint(s, 10, u32::MAX as u64) {
        Some(v) => Some(v as u32),
        None => None,
    }
}

/// `str::parse::<i32>`.
pub fn parse_i32_chars(s: &[char]) -> (r: Option<i32>)
    ensures
        match r {
            Some(v) => parse_i32(s@) == Some(v as int),
            None => parse_i32(s@) is None,
        },
{
    match parse_int(s, 10, 0x8000_0000, 0x7fff_ffff) {
        Some(v) => Some(v as i32),
        None => None,
    }
}

/// `u64::from_str_radix(_, 16)`.
pub fn parse_hex_u64_chars(s: &[char]) -> (r: Option<u64>)
    ensures
        match r {
            Some(v) => parse_hex_u64(s@) == Some(v as nat),
            None => parse_hex_u64(s@) is None,
        },
{
    parse_uint(s, 16, u64::MAX)
}

/// `u8::from_str_radix(_, 16)`.
pub fn parse_hex_u8_chars(s: &[char]) -> (r: Option<u8>)
    ensures
        match r {
            Some(v) => parse_hex_u8(s@) == Some(v as nat),
            None => parse_hex_u8(s@) is None,
        },
{
    match parse_uint(s, 16, u8::MAX as u64) {
        Some(v) => Some(v as u8),
        None => None,
    }
}

// ─── Number formatting ───────────────────────────────────────────────────────

/// The digit character of `d` (`0`–`9`, then `a`–`z`).
pub open spec fn digit_char(d: nat) -> char {
    if d < 10 {
        (48 + d) as char
    } else {
        (87 + d) as char
    }
}

pub proof fn lemma_div_smaller(n: nat, radix: nat)
    requires
        n >= radix >= 2,
    ensures
        n / radix < n,
{
    assert(n / radix < n) by (nonlinear_arith)
        requires
            n >= radix >= 2,
    ;
}

/// `n` written in base `radix` without leading zeros.
pub open spec fn digits_of(n: nat, radix: nat) -> Seq<char>
    decreases n,
{
    if n < radix || radix < 2 {
        seq![digit_char(n)]
    } else {
        proof {
            lemma_div_smaller(n, radix);
        }
        digits_of(n / radix, radix).push(digit_char(n % radix))
    }
}

/// `n` as `format!("{}", n)` writes it.
pub open spec fn dec(n: int) -> Seq<char> {
    if n < 0 {
        seq!['-'] + digits_of((-n) as nat, 10)
    } else {
        digits_of(n as nat, 10)
    }
}

/// `n` as `format!("{:#x}", n)` writes it.
pub open spec fn hex_alt(n: nat) -> Seq<char> {
    seq!['0', 'x'] + digits_of(n, 16)
}

fn digit_char_exec(d: u64) -> (c: char)
    requires
        d < 36,
    ensures
        c == digit_char(d as nat),
{
    if d < 10 {
        ((48 + d) as u8) as char
    } else {
        ((87 + d) as u8) as char
    }
}

/// Digits of `n` in base `radix`.
pub fn fmt_radix(n: u64, radix: u64) -> (v: Vec<char>)
    requires
        2 <= radix <= 16,
    ensures
        v@ == digits_of(n as nat, radix as nat),
    decreases n,
{
    if n < radix {
        let mut v = Vec::new();
        v.push(digit_char_exec(n));
        assert(v@ =~= seq![digit_char(n as nat)]);
        v
    } else {
        proof {
            lemma_div_smaller(n as nat, radix as nat);
        }
        let mut v = fmt_radix(n / radix, radix);
        v.push(digit_char_exec(n % radix));
        v
    }
}

/// `n` in decimal.
pub fn fmt_dec(n: i64) -> (v: Vec<char>)
    ensures
        v@ == dec(n as int),
{
    if n < 0 {
        let m: u64 = (0i128 - n as i128) as u64;
        let d = fmt_radix(m, 10);
        let mut v = Vec::new();
        v.push('-');
        let mut i: usize = 0;
        while i < d.len()
            invariant
                i <= d@.len(),
                v@ == seq!['-'] + d@.take(i as int),
            decreases d@.len() - i,
        {
            v.push(d[i]);
            i = i + 1;
            assert(v@ =~= seq!['-'] + d@.take(i as int));
        }
        assert(d@.take(i as int) =~= d@);
        v
    } else {
        fmt_radix(n as u64, 10)
    }
}

/// `n` in decimal.
pub fn fmt_udec(n: u64) -> (v: Vec<char>)
    ensures
        v@ == dec(n as int),
{
    fmt_radix(n, 10)
}

} // verus!

verus! {

// ─── Joining and literals ────────────────────────────────────────────────────

/// `parts` joined with `sep` between consecutive elements (`[T]::join`).
pub open spec fn join(parts: Seq<Seq<char>>, sep: Seq<char>) -> Seq<char>
    decreases parts.len(),
{
    if parts.len() == 0 {
        Seq::empty()
    } else if parts.len() == 1 {
        parts[0]
    } else {
        join(parts.drop_last(), sep) + sep + parts.last()
    }
}

/// Whether `s` holds exactly the characters of `lit`.
pub fn is_lit(s: &[char], lit: &str) -> (r: bool)
    ensures
        r == (s@ == lit@),
{
    let l = chars_of(lit);
    eq_chars(s, l.as_slice())
}

/// Appends `x` to `out`.
pub fn append_chars(out: &mut Vec<char>, x: &[char])
    ensures
        final(out)@ == old(out)@ + x@,
{
    let mut i: usize = 0;
    while i < x.len()
        invariant
            i <= x@.len(),
            out@ == old(out)@ + x@.take(i as int),
        decreases x@.len() - i,
    {
        out.push(x[i]);
        i = i + 1;
        assert(out@ =~= old(out)@ + x@.take(i as int));
    }
    assert(x@.take(i as int) =~= x@);
}

/// Appends the characters of `lit` to `out`.
pub fn append_str(out: &mut Vec<char>, lit: &str)
    ensures
        final(out)@ == old(out)@ + lit@,
{
    let l = chars_of(lit);
    append_chars(out, l.as_slice());
}

/// `parts` joined with `sep`.
pub fn join_chars(parts: &[Vec<char>], sep: &[char]) -> (r: Vec<char>)
    ensures
        r@ == join(views(parts@), sep@),
{
    let mut out: Vec<char> = Vec::new();
    let mut i: usize = 0;
    while i < parts.len()
        invariant
            i <= parts@.len(),
            out@ == join(views(parts@.take(i as int)), sep@),
        decreases parts@.len() - i,
    {
        let ghost before = views(parts@.take(i as int));
        let ghost after = views(parts@.take(i + 1));
        assert(after.drop_last() =~= before);
        assert(after.last() == parts@[i as int]@);
        if i > 0 {
            append_chars(&mut out, sep);
        }
        append_chars(&mut out, parts[i].as_slice());
        i = i + 1;
    }
    assert(parts@.take(i as int) =~= parts@);
    out
}

} // verus!

verus! {

/// The value of `o`, or 0 (`unwrap_or(0)`).
pub open spec fn or_zero(o: Option<nat>) -> nat {
    match o {
        Some(v) => v,
        None => 0,
    }
}

/// The value of `o`, or 0 (`unwrap_or(0)`).
pub open spec fn or_zero_int(o: Option<int>) -> int {
    match o {
        Some(v) => v,
        None => 0,
    }
}

/// `ls` without its first element, if it has one (`iter().skip(1)`).
pub open spec fn skip_first<T>(ls: Seq<T>) -> Seq<T> {
    if ls.len() == 0 {
        ls
    } else {
        ls.drop_first()
    }
}

} // verus!
