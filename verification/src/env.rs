//! `/proc/<pid>/environ` parsing: NUL-separated `KEY=value` entries, sorted
//! by key, with secret-looking values redacted.
use vstd::prelude::*;
use crate::text::{chars_of, contains_chars, contains_seq, find_char, find_first, string_of, sub_vec};
use crate::sorting::{key_is, key_order, keys_sorted, same_per_key, sort_by_keys, with_key};

verus! {

broadcast use vstd::string::group_string_axioms;

/// Raw environment entry as parsed from `/proc/<pid>/environ`.
#[derive(Debug, Clone)]
pub struct EnvironEntry {
    pub key: String,
    pub value: String,
}

/// An environment variable with its redaction flag.
#[derive(Debug, Clone)]
pub struct EnvVar {
    pub key: String,
    pub value: String,
    pub redacted: bool,
}

// ─── Splitting ───────────────────────────────────────────────────────────────

/// Scanning state of splitting `b` at NUL bytes.
pub open spec fn nul_fold(b: Seq<u8>) -> (Seq<Seq<u8>>, Seq<u8>)
    decreases b.len(),
{
    if b.len() == 0 {
        (Seq::empty(), Seq::empty())
    } else {
        let (done, cur) = nul_fold(b.drop_last());
        if b.last() == 0 {
            (done.push(cur), Seq::empty())
        } else {
            (done, cur.push(b.last()))
        }
    }
}

/// The pieces of `b` between NUL bytes, empty ones included (`split(|&b| b == 0)`).
pub open spec fn nul_pieces(b: Seq<u8>) -> Seq<Seq<u8>> {
    let (done, cur) = nul_fold(b);
    done.push(cur)
}

/// The byte vectors' contents.
pub open spec fn byte_views(v: Seq<Vec<u8>>) -> Seq<Seq<u8>> {
    v.map_values(|x: Vec<u8>| x@)
}

fn split_nul(b: &[u8]) -> (r: Vec<Vec<u8>>)
    ensures
        byte_views(r@) == nul_pieces(b@),
{
    let mut done: Vec<Vec<u8>> = Vec::new();
    let mut cur: Vec<u8> = Vec::new();
    let mut i: usize = 0;
    while i < b.len()
        invariant
            i <= b@.len(),
            (byte_views(done@), cur@) == nul_fold(b@.take(i as int)),
        decreases b@.len() - i,
    {
        assert(b@.take(i + 1).drop_last() =~= b@.take(i as int));
        if b[i] == 0 {
            let ghost d0 = byte_views(done@);
            let ghost c0 = cur@;
            let t = cur;
            done.push(t);
            cur = Vec::new();
            assert(byte_views(done@) =~= d0.push(c0));
        } else {
            cur.push(b[i]);
        }
        i = i + 1;
    }
    assert(b@.take(i as int) =~= b@);
    let ghost d0 = byte_views(done@);
    let ghost c0 = cur@;
    done.push(cur);
    assert(byte_views(done@) =~= d0.push(c0));
    done
}

// ─── Decoding ────────────────────────────────────────────────────────────────

/// What `String::from_utf8_lossy` returns for bytes `b`.
pub uninterp spec fn lossy(b: Seq<u8>) -> Seq<char>;

/// `String::from_utf8_lossy`: `b` decoded as UTF-8, invalid sequences
/// replaced by U+FFFD; valid UTF-8 is decoded unchanged.
#[verifier::external_body]
fn utf8_lossy(b: &[u8]) -> (s: String)
    ensures
        s@ == lossy(b@),
        vstd::utf8::valid_utf8(b@) ==> s@ == vstd::utf8::decode_utf8(b@),
{
    String::from_utf8_lossy(b).into_owned()
}

/// The `KEY=value` entry of one piece: split at the first `=`.
pub open spec fn entry_of(piece: Seq<u8>) -> Option<(Seq<char>, Seq<char>)> {
    let s = lossy(piece);
    if piece.len() == 0 {
        None
    } else {
        match find_first(s, '=') {
            Some(eq) => Some((s.take(eq), s.skip(eq + 1))),
            None => None,
        }
    }
}

/// The entries of the pieces, in order; pieces that are empty or lack `=`
/// give none.
pub open spec fn entries_of(pieces: Seq<Seq<u8>>) -> Seq<(Seq<char>, Seq<char>)>
    decreases pieces.len(),
{
    if pieces.len() == 0 {
        Seq::empty()
    } else {
        let prev = entries_of(pieces.drop_last());
        match entry_of(pieces.last()) {
            Some(e) => prev.push(e),
            None => prev,
        }
    }
}

/// The entries of an `environ` buffer, in file order.
pub open spec fn environ_entries(raw: Seq<u8>) -> Seq<(Seq<char>, Seq<char>)> {
    entries_of(nul_pieces(raw))
}

/// The character codes of `s`, the key by which entries are ordered.
pub open spec fn codes(s: Seq<char>) -> Seq<i64> {
    s.map_values(|c: char| (c as u32) as i64)
}

fn codes_of(s: &[char]) -> (v: Vec<i64>)
    ensures
        v@ == codes(s@),
{
    let mut v: Vec<i64> = Vec::new();
    let mut i: usize = 0;
    while i < s.len()
        invariant
            i <= s@.len(),
            v@ == codes(s@.take(i as int)),
        decreases s@.len() - i,
    {
        v.push((s[i] as u32) as i64);
        i = i + 1;
        assert(v@ =~= codes(s@.take(i as int)));
    }
    assert(s@.take(i as int) =~= s@);
    v
}

proof fn lemma_codes_injective(a: Seq<char>, b: Seq<char>)
    requires
        codes(a) == codes(b),
    ensures
        a == b,
{
    assert(codes(a).len() == a.len());
    assert(codes(b).len() == b.len());
    assert(a.len() == b.len());
    assert forall|i: int| 0 <= i < a.len() implies a[i] == b[i] by {
        assert(codes(a)[i] == codes(b)[i]);
        assert(codes(a)[i] == (a[i] as u32) as i64);
        assert(codes(b)[i] == (b[i] as u32) as i64);
        assert((a[i] as u32) == (b[i] as u32));
        vstd::utf8::char_u32_cast(a[i], a[i] as u32);
        vstd::utf8::char_u32_cast(b[i], b[i] as u32);
    }
    assert(a =~= b);
}

/// Entries are in key order (keys compared by character code, as `str`
/// ordering does).
pub open spec fn entries_sorted<W>(s: Seq<(Seq<char>, W)>) -> bool {
    forall|i: int, j: int|
        0 <= i < j < s.len() ==> key_order(codes(#[trigger] s[i].0), codes(#[trigger] s[j].0)) <= 0
}

/// The entries of `s` with key `k`, in order.
pub open spec fn entries_with_key<W>(s: Seq<(Seq<char>, W)>, k: Seq<char>) -> Seq<(Seq<char>, W)> {
    s.filter(|e: (Seq<char>, W)| e.0 == k)
}

/// `a` is `b` stably sorted by key: sorted, and for each key the same
/// entries in the same order.
pub open spec fn stably_sorted_from<W>(a: Seq<(Seq<char>, W)>, b: Seq<(Seq<char>, W)>) -> bool {
    &&& entries_sorted(a)
    &&& forall|k: Seq<char>| #[trigger] entries_with_key(a, k) == entries_with_key(b, k)
}

/// The views of the payloads of keyed items.
pub open spec fn payloads<P, W>(s: Seq<(Vec<i64>, P)>, f: spec_fn(P) -> (Seq<char>, W)) -> Seq<(Seq<char>, W)> {
    s.map_values(|e: (Vec<i64>, P)| f(e.1))
}

proof fn lemma_with_key_map<P, W>(
    s: Seq<(Vec<i64>, P)>,
    f: spec_fn(P) -> (Seq<char>, W),
    k: Seq<char>,
)
    requires
        forall|i: int| 0 <= i < s.len() ==> (#[trigger] s[i]).0@ == codes(f(s[i].1).0),
    ensures
        with_key(s, codes(k)).map_values(|e: (Vec<i64>, P)| f(e.1)) == entries_with_key(
            payloads(s, f),
            k,
        ),
    decreases s.len(),
{
    reveal(Seq::filter);
    let g = |e: (Vec<i64>, P)| f(e.1);
    if s.len() == 0 {
        assert(with_key(s, codes(k)).map_values(g) =~= Seq::<(Seq<char>, W)>::empty());
        assert(s.map_values(g) =~= Seq::<(Seq<char>, W)>::empty());
    } else {
        let t = s.drop_last();
        assert forall|i: int| 0 <= i < t.len() implies (#[trigger] t[i]).0@ == codes(f(t[i].1).0) by {
            assert(t[i] == s[i]);
        }
        lemma_with_key_map(t, f, k);
        assert(s.map_values(g).drop_last() =~= t.map_values(g));
        let last = s.last();
        assert(last == s[s.len() - 1]);
        assert(s.map_values(g).last() == f(last.1));
        if last.0@ == codes(k) {
            lemma_codes_injective(f(last.1).0, k);
            assert(with_key(s, codes(k)) == with_key(t, codes(k)).push(last));
            assert(with_key(s, codes(k)).map_values(g) =~= with_key(t, codes(k)).map_values(g).push(f(last.1)));
        } else {
            assert(f(last.1).0 != k);
            assert(with_key(s, codes(k)) == with_key(t, codes(k)));
        }
    }
}

proof fn lemma_sorted_map<P, W>(s: Seq<(Vec<i64>, P)>, f: spec_fn(P) -> (Seq<char>, W))
    requires
        keys_sorted(s),
        forall|i: int| 0 <= i < s.len() ==> (#[trigger] s[i]).0@ == codes(f(s[i].1).0),
    ensures
        entries_sorted(payloads(s, f)),
{
    let m = payloads(s, f);
    assert forall|i: int, j: int| 0 <= i < j < m.len() implies key_order(
        codes(#[trigger] m[i].0),
        codes(#[trigger] m[j].0),
    ) <= 0 by {
        assert(s[i].0@ == codes(f(s[i].1).0));
        assert(s[j].0@ == codes(f(s[j].1).0));
    }
}

/// Sorting keyed items by key code carries over to their views: the views
/// come out stably sorted by key.
proof fn lemma_sort_views<P, W>(
    sorted: Seq<(Vec<i64>, P)>,
    items: Seq<(Vec<i64>, P)>,
    f: spec_fn(P) -> (Seq<char>, W),
)
    requires
        keys_sorted(sorted),
        same_per_key(sorted, items),
        forall|i: int| 0 <= i < sorted.len() ==> (#[trigger] sorted[i]).0@ == codes(f(sorted[i].1).0),
        forall|i: int| 0 <= i < items.len() ==> (#[trigger] items[i]).0@ == codes(f(items[i].1).0),
    ensures
        stably_sorted_from(
            payloads(sorted, f),
            payloads(items, f),
        ),
{
    lemma_sorted_map(sorted, f);
    assert forall|k: Seq<char>| #[trigger] entries_with_key(
        payloads(sorted, f),
        k,
    ) == entries_with_key(payloads(items, f), k) by {
        lemma_with_key_map(sorted, f, k);
        lemma_with_key_map(items, f, k);
        assert(with_key(sorted, codes(k)) == with_key(items, codes(k)));
    }
}

fn entry_parts(piece: &[u8]) -> (r: Option<(Vec<char>, Vec<char>)>)
    ensures
        match r {
            Some(kv) => entry_of(piece@) == Some((kv.0@, kv.1@)),
            None => entry_of(piece@) is None,
        },
{
    if piece.len() == 0 {
        return None;
    }
    let s = utf8_lossy(piece);
    let cs = chars_of(s.as_str());
    let n = cs.len();
    match find_char(cs.as_slice(), '=') {
        Some(eq) => {
            let k = sub_vec(cs.as_slice(), 0, eq);
            let v = sub_vec(cs.as_slice(), eq + 1, n);
            assert(k@ =~= cs@.take(eq as int));
            assert(v@ =~= cs@.skip(eq + 1));
            Some((k, v))
        },
        None => None,
    }
}

/// The view of an environment entry: key and value.
pub open spec fn environ_view(e: EnvironEntry) -> (Seq<char>, Seq<char>) {
    (e.key@, e.value@)
}

/// [`environ_view`] as a function value.
pub open spec fn environ_fn() -> spec_fn(EnvironEntry) -> (Seq<char>, Seq<char>) {
    |e: EnvironEntry| environ_view(e)
}

fn unkey<P>(items: Vec<(Vec<i64>, P)>) -> (r: Vec<P>)
    ensures
        r@ == items@.map_values(|e: (Vec<i64>, P)| e.1),
{
    let ghost orig = items@;
    let mut src = items;
    let mut out: Vec<P> = Vec::new();
    let n0 = src.len();
    let mut i: usize = 0;
    assert(src@ =~= orig.skip(0));
    while src.len() > 0
        invariant
            orig.len() == n0,
            i + src@.len() == n0,
            src@ == orig.skip(i as int),
            out@ == orig.take(i as int).map_values(|e: (Vec<i64>, P)| e.1),
        decreases src@.len(),
    {
        let (_, p) = src.remove(0);
        out.push(p);
        i = i + 1;
        assert(src@ =~= orig.skip(i as int));
        assert(out@ =~= orig.take(i as int).map_values(|e: (Vec<i64>, P)| e.1));
    }
    assert(orig.take(i as int) =~= orig);
    out
}

/// Parses the contents of `/proc/<pid>/environ` into key/value pairs,
/// stably sorted by key.
pub fn read_environ(raw: &[u8]) -> (r: Vec<EnvironEntry>)
    ensures
        stably_sorted_from(r@.map_values(|e: EnvironEntry| environ_view(e)), environ_entries(raw@)),
{
    let pieces = split_nul(raw);
    let ghost ps = byte_views(pieces@);
    let ghost f = environ_fn();
    let mut items: Vec<(Vec<i64>, EnvironEntry)> = Vec::new();
    let mut i: usize = 0;
    while i < pieces.len()
        invariant
            f == environ_fn(),
            ps == byte_views(pieces@),
            i <= pieces@.len(),
            payloads(items@, f) == entries_of(ps.take(i as int)),
            forall|j: int| 0 <= j < items@.len() ==> (#[trigger] items@[j]).0@ == codes(f(items@[j].1).0),
        decreases pieces@.len() - i,
    {
        assert(ps.take(i + 1).drop_last() =~= ps.take(i as int));
        assert(ps.take(i + 1).last() == pieces@[i as int]@);
        match entry_parts(pieces[i].as_slice()) {
            Some((k, v)) => {
                let code = codes_of(k.as_slice());
                let e = EnvironEntry { key: string_of(k.as_slice()), value: string_of(v.as_slice()) };
                let ghost before = items@;
                assert(e.key@ == k@);
                assert(e.value@ == v@);
                assert(environ_view(e) == (k@, v@));
                assert(f(e) == environ_view(e));
                items.push((code, e));
                assert(payloads(items@, f) =~= payloads(before, f).push(f(e)));
            },
            None => {},
        }
        i = i + 1;
    }
    assert(ps.take(i as int) =~= ps);
    let ghost before = items@;
    let sorted = sort_by_keys(items);
    proof {
        assert forall|j: int| 0 <= j < sorted@.len() implies (#[trigger] sorted@[j]).0@ == codes(
            f(sorted@[j].1).0,
        ) by {
            let k = sorted@[j].0@;
            let pred = key_is::<EnvironEntry>(k);
            let x = sorted@[j];
            sorted@.lemma_filter_contains(pred, j);
            assert(with_key(sorted@, k) == with_key(before, k));
            assert(before.filter(pred).contains(x));
            before.lemma_filter_contains_rev(pred, x);
            let idx = choose|idx: int| 0 <= idx < before.len() && before[idx] == x;
            assert(before[idx].0@ == codes(f(before[idx].1).0));
        }
        lemma_sort_views(sorted@, before, f);
    }
    let r = unkey(sorted);
    assert(r@.map_values(|e: EnvironEntry| environ_view(e)) =~= payloads(sorted@, f));
    r
}

// ─── Redaction ───────────────────────────────────────────────────────────────

/// Number of secret-name patterns.
pub const SECRET_PATTERN_COUNT: usize = 16;

/// Secret-name pattern `i`.
pub open spec fn secret_pattern(i: int) -> Seq<char> {
    if i == 0 { "PASSWORD"@ }
    else if i == 1 { "PASSWD"@ }
    else if i == 2 { "SECRET"@ }
    else if i == 3 { "TOKEN"@ }
    else if i == 4 { "API_KEY"@ }
    else if i == 5 { "APIKEY"@ }
    else if i == 6 { "AUTH"@ }
    else if i == 7 { "CREDENTIAL"@ }
    else if i == 8 { "PRIVATE_KEY"@ }
    else if i == 9 { "ACCESS_KEY"@ }
    else if i == 10 { "AWS_SECRET"@ }
    else if i == 11 { "DATABASE_URL"@ }
    else if i == 12 { "DB_URL"@ }
    else if i == 13 { "REDIS_URL"@ }
    else if i == 14 { "MONGO_URL"@ }
    else { "DSN"@ }
}

fn secret_pattern_str(i: usize) -> (r: &'static str)
    requires
        i < SECRET_PATTERN_COUNT,
    ensures
        r@ == secret_pattern(i as int),
{
    if i == 0 { "PASSWORD" }
    else if i == 1 { "PASSWD" }
    else if i == 2 { "SECRET" }
    else if i == 3 { "TOKEN" }
    else if i == 4 { "API_KEY" }
    else if i == 5 { "APIKEY" }
    else if i == 6 { "AUTH" }
    else if i == 7 { "CREDENTIAL" }
    else if i == 8 { "PRIVATE_KEY" }
    else if i == 9 { "ACCESS_KEY" }
    else if i == 10 { "AWS_SECRET" }
    else if i == 11 { "DATABASE_URL" }
    else if i == 12 { "DB_URL" }
    else if i == 13 { "REDIS_URL" }
    else if i == 14 { "MONGO_URL" }
    else { "DSN" }
}

/// What `str::to_uppercase` returns for a string with characters `s`.
pub uninterp spec fn uppercase(s: Seq<char>) -> Seq<char>;

/// `str::to_uppercase`: the Unicode uppercase mapping of `s`.
#[verifier::external_body]
fn to_uppercase(s: &str) -> (r: String)
    ensures
        r@ == uppercase(s@),
{
    s.to_uppercase()
}

/// Whether an uppercased key contains one of the secret patterns.
pub open spec fn upper_is_secret(upper: Seq<char>) -> bool {
    exists|i: int| 0 <= i < SECRET_PATTERN_COUNT && contains_seq(upper, #[trigger] secret_pattern(i))
}

/// Whether a variable named `key` holds a secret: its uppercase form
/// contains one of the secret patterns.
pub open spec fn key_is_secret(key: Seq<char>) -> bool {
    upper_is_secret(uppercase(key))
}

/// Whether the uppercased key `upper` contains a secret pattern.
pub fn is_secret_upper(upper: &str) -> (r: bool)
    ensures
        r == upper_is_secret(upper@),
{
    let u = chars_of(upper);
    let mut i: usize = 0;
    while i < SECRET_PATTERN_COUNT
        invariant
            u@ == upper@,
            i <= SECRET_PATTERN_COUNT,
            forall|j: int| 0 <= j < i ==> !contains_seq(upper@, #[trigger] secret_pattern(j)),
        decreases SECRET_PATTERN_COUNT - i,
    {
        let p = chars_of(secret_pattern_str(i));
        if contains_chars(u.as_slice(), p.as_slice()) {
            return true;
        }
        i = i + 1;
    }
    false
}

/// Whether an environment variable named `key` holds a secret.
pub fn is_secret(key: &str) -> (r: bool)
    ensures
        r == key_is_secret(key@),
{
    let upper = to_uppercase(key);
    is_secret_upper(upper.as_str())
}

/// The redacted form of an entry: secrets have their value replaced by `***`.
pub open spec fn redact(e: (Seq<char>, Seq<char>)) -> (Seq<char>, (Seq<char>, bool)) {
    if key_is_secret(e.0) {
        (e.0, ("***"@, true))
    } else {
        (e.0, (e.1, false))
    }
}

/// The view of an environment variable: key, and value with redaction flag.
pub open spec fn env_var_view(v: EnvVar) -> (Seq<char>, (Seq<char>, bool)) {
    (v.key@, (v.value@, v.redacted))
}

/// The redacted entries of an `environ` buffer, in file order.
pub open spec fn redacted_entries(raw: Seq<u8>) -> Seq<(Seq<char>, (Seq<char>, bool))> {
    environ_entries(raw).map_values(|e: (Seq<char>, Seq<char>)| redact(e))
}

proof fn lemma_redact_with_key(s: Seq<(Seq<char>, Seq<char>)>, k: Seq<char>)
    ensures
        entries_with_key(s.map_values(|e: (Seq<char>, Seq<char>)| redact(e)), k)
            == entries_with_key(s, k).map_values(|e: (Seq<char>, Seq<char>)| redact(e)),
    decreases s.len(),
{
    reveal(Seq::filter);
    let g = |e: (Seq<char>, Seq<char>)| redact(e);
    if s.len() == 0 {
        assert(s.map_values(g) =~= Seq::<(Seq<char>, (Seq<char>, bool))>::empty());
        assert(entries_with_key(s, k).map_values(g) =~= Seq::<(Seq<char>, (Seq<char>, bool))>::empty());
    } else {
        let t = s.drop_last();
        lemma_redact_with_key(t, k);
        assert(s.map_values(g).drop_last() =~= t.map_values(g));
        assert(s.map_values(g).last() == redact(s.last()));
        if s.last().0 == k {
            assert(entries_with_key(s, k) == entries_with_key(t, k).push(s.last()));
            assert(entries_with_key(s, k).map_values(g) =~= entries_with_key(t, k).map_values(g).push(
                redact(s.last()),
            ));
        } else {
            assert(entries_with_key(s, k) == entries_with_key(t, k));
        }
    }
}

/// Parses the contents of `/proc/<pid>/environ` into variables stably
/// sorted by key, values of secret-looking keys replaced by `***`.
pub fn collect_env(raw: &[u8]) -> (r: Vec<EnvVar>)
    ensures
        stably_sorted_from(r@.map_values(|v: EnvVar| env_var_view(v)), redacted_entries(raw@)),
{
    let entries = read_environ(raw);
    let ghost ev = entries@.map_values(|e: EnvironEntry| environ_view(e));
    let ghost g = |e: (Seq<char>, Seq<char>)| redact(e);
    let mut out: Vec<EnvVar> = Vec::new();
    let mut i: usize = 0;
    while i < entries.len()
        invariant
            ev == entries@.map_values(|e: EnvironEntry| environ_view(e)),
            g == (|e: (Seq<char>, Seq<char>)| redact(e)),
            i <= entries@.len(),
            out@.map_values(|v: EnvVar| env_var_view(v)) == ev.take(i as int).map_values(g),
        decreases entries@.len() - i,
    {
        let e = &entries[i];
        let redacted = is_secret(e.key.as_str());
        let value = if redacted {
            "***".to_string()
        } else {
            e.value.clone()
        };
        let var = EnvVar { key: e.key.clone(), value, redacted };
        assert(env_var_view(var) == redact(ev[i as int]));
        let ghost prev = out@;
        let ghost vv = env_var_view(var);
        out.push(var);
        assert(ev.take(i + 1) =~= ev.take(i as int).push(ev[i as int]));
        assert(g(ev[i as int]) == vv);
        assert(out@.map_values(|v: EnvVar| env_var_view(v)) =~= prev.map_values(|v: EnvVar| env_var_view(v)).push(vv));
        assert(ev.take(i + 1).map_values(g) =~= ev.take(i as int).map_values(g).push(g(ev[i as int])));
        i = i + 1;
    }
    assert(ev.take(i as int) =~= ev);
    let ghost ov = out@.map_values(|v: EnvVar| env_var_view(v));
    assert forall|a: int, b: int| 0 <= a < b < ov.len() implies key_order(
        codes(#[trigger] ov[a].0),
        codes(#[trigger] ov[b].0),
    ) <= 0 by {
        assert(ov[a].0 == ev[a].0 && ov[b].0 == ev[b].0);
    }
    assert forall|k: Seq<char>| #[trigger] entries_with_key(ov, k) == entries_with_key(
        redacted_entries(raw@),
        k,
    ) by {
        lemma_redact_with_key(ev, k);
        lemma_redact_with_key(environ_entries(raw@), k);
    }
    out
}

/// An entry splits at its first `=`: the key holds no `=`, and key, `=`
/// and value give back the entry's text. A piece gives no entry only when
/// it is empty or holds no `=`.
pub proof fn lemma_entry_split_at_first_eq(piece: Seq<u8>)
    ensures
        match entry_of(piece) {
            Some(kv) => !kv.0.contains('=') && kv.0 + seq!['='] + kv.1 == lossy(piece),
            None => piece.len() == 0 || !lossy(piece).contains('='),
        },
{
    let s = lossy(piece);
    crate::text::lemma_find_first_found(s, '=');
    if piece.len() > 0 {
        match find_first(s, '=') {
            Some(eq) => {
                let k = s.take(eq);
                if k.contains('=') {
                    let j = choose|j: int| 0 <= j < k.len() && k[j] == '=';
                    assert(s[j] == '=');
                }
                assert(k + seq!['='] + s.skip(eq + 1) =~= s);
            },
            None => {},
        }
    }
}

} // verus!
