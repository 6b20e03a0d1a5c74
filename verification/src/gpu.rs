//! The text side of GPU sampling: the CSV rows `nvidia-smi` prints and the
//! AMD devices of `/sys/class/drm`. Measurements themselves are decimal
//! numbers and are read by the caller.
use vstd::prelude::*;
use crate::text::{
    chars_of, dec, fmt_dec, lines, parse_unsigned, parse_uint, push_str, split_lines,
    string_of, trim, trim_chars, views,
};

verus! {

broadcast use vstd::string::group_string_axioms;

/// The pieces of `s` between occurrences of `c` (`str::split` with a
/// character): one more piece than there are occurrences, empty ones included.
pub open spec fn split_char(s: Seq<char>, c: char) -> Seq<Seq<char>>
    decreases s.len(),
{
    if s.len() == 0 {
        seq![Seq::<char>::empty()]
    } else {
        let prev = split_char(s.drop_last(), c);
        if s.last() == c {
            prev.push(Seq::empty())
        } else {
            prev.update(prev.len() - 1, prev.last().push(s.last()))
        }
    }
}

proof fn lemma_split_char_nonempty(s: Seq<char>, c: char)
    ensures
        split_char(s, c).len() >= 1,
    decreases s.len(),
{
    if s.len() > 0 {
        lemma_split_char_nonempty(s.drop_last(), c);
    }
}

/// The comma-separated fields of a CSV line, each trimmed.
pub open spec fn csv_fields(line: Seq<char>) -> Seq<Seq<char>> {
    split_char(line, ',').map_values(|f: Seq<char>| trim(f))
}

fn split_on(s: &[char], c: char) -> (r: Vec<Vec<char>>)
    ensures
        views(r@) == split_char(s@, c),
{
    let mut out: Vec<Vec<char>> = Vec::new();
    let mut cur: Vec<char> = Vec::new();
    let mut i: usize = 0;
    assert(s@.take(0) =~= Seq::<char>::empty());
    while i < s.len()
        invariant
            i <= s@.len(),
            views(out@).push(cur@) == split_char(s@.take(i as int), c),
        decreases s@.len() - i,
    {
        let ghost t = s@.take(i + 1);
        assert(t.drop_last() =~= s@.take(i as int));
        assert(t.last() == s@[i as int]);
        proof {
            lemma_split_char_nonempty(s@.take(i as int), c);
        }
        if s[i] == c {
            let ghost before = views(out@);
            let done = cur;
            out.push(done);
            cur = Vec::new();
            assert(views(out@) =~= before.push(done@));
            assert(views(out@).push(cur@) =~= before.push(done@).push(Seq::empty()));
        } else {
            let ghost prev = views(out@).push(cur@);
            cur.push(s[i]);
            assert(views(out@).push(cur@) =~= prev.update(prev.len() - 1, prev.last().push(s@[i as int])));
        }
        i = i + 1;
    }
    assert(s@.take(i as int) =~= s@);
    let ghost before = views(out@);
    out.push(cur);
    assert(views(out@) =~= before.push(cur@));
    out
}

fn csv_split(line: &str) -> (r: Vec<Vec<char>>)
    ensures
        views(r@) == csv_fields(line@),
{
    let cs = chars_of(line);
    let pieces = split_on(cs.as_slice(), ',');
    let mut out: Vec<Vec<char>> = Vec::new();
    let mut i: usize = 0;
    while i < pieces.len()
        invariant
            i <= pieces@.len(),
            views(pieces@) == split_char(line@, ','),
            views(out@) == split_char(line@, ',').take(i as int).map_values(|f: Seq<char>| trim(f)),
        decreases pieces@.len() - i,
    {
        let ghost before = views(out@);
        let t = trim_chars(pieces[i].as_slice());
        out.push(t);
        let ghost sp = split_char(line@, ',');
        assert(views(pieces@)[i as int] == pieces@[i as int]@);
        assert(pieces@[i as int]@ == sp[i as int]);
        assert(views(out@) =~= before.push(trim(sp[i as int])));
        assert(sp.take(i + 1).map_values(|f: Seq<char>| trim(f)) =~= sp.take(i as int).map_values(|f: Seq<char>| trim(f)).push(trim(sp[i as int])));
        i = i + 1;
    }
    assert(split_char(line@, ',').take(i as int) =~= split_char(line@, ','));
    out
}

/// A GPU row of `nvidia-smi --query-gpu=index,uuid,name,utilization.gpu,
/// memory.used,memory.total --format=csv,noheader,nounits`; the three
/// measurements are left as text.
#[derive(Debug)]
pub struct NvidiaRow {
    pub index: usize,
    pub uuid: String,
    pub name: String,
    pub utilization: String,
    pub memory_used: String,
    pub memory_total: String,
}

/// The row a line gives: `None` with fewer than six fields; an index that
/// is not a number counts as 0.
pub open spec fn nvidia_row_spec(line: Seq<char>) -> Option<(nat, Seq<Seq<char>>)> {
    let f = csv_fields(line);
    if f.len() < 6 {
        None
    } else {
        Some(
            (
                match parse_unsigned(f[0], 10, usize::MAX as nat) {
                    Some(v) => v,
                    None => 0,
                },
                f.subrange(1, 6),
            ),
        )
    }
}

/// Reads one line of the GPU query (see [`nvidia_row_spec`]).
pub fn nvidia_row(line: &str) -> (r: Option<NvidiaRow>)
    ensures
        match r {
            None => nvidia_row_spec(line@) is None,
            Some(row) => nvidia_row_spec(line@) == Some(
                (
                    row.index as nat,
                    seq![row.uuid@, row.name@, row.utilization@, row.memory_used@, row.memory_total@],
                ),
            ),
        },
{
    let f = csv_split(line);
    if f.len() < 6 {
        return None;
    }
    let index: usize = match parse_uint(f[0].as_slice(), 10, usize::MAX as u64) {
        Some(v) => v as usize,
        None => 0,
    };
    let row = NvidiaRow {
        index,
        uuid: string_of(f[1].as_slice()),
        name: string_of(f[2].as_slice()),
        utilization: string_of(f[3].as_slice()),
        memory_used: string_of(f[4].as_slice()),
        memory_total: string_of(f[5].as_slice()),
    };
    assert(views(f@).subrange(1, 6) =~= seq![row.uuid@, row.name@, row.utilization@, row.memory_used@, row.memory_total@]);
    Some(row)
}

/// The GPU and memory text of a line of `nvidia-smi
/// --query-compute-apps=pid,gpu_uuid,used_memory`, when it has at least
/// three fields and its first is the decimal `pid`.
pub open spec fn compute_app_spec(line: Seq<char>, pid: i32) -> Option<(Seq<char>, Seq<char>)> {
    let f = csv_fields(line);
    if f.len() < 3 || f[0] != dec(pid as int) {
        None
    } else {
        Some((f[1], f[2]))
    }
}

/// Reads one line of the compute-apps query for process `pid` (see
/// [`compute_app_spec`]).
pub fn compute_app_row(line: &str, pid: i32) -> (r: Option<(String, String)>)
    ensures
        match r {
            None => compute_app_spec(line@, pid) is None,
            Some((uuid, used)) => compute_app_spec(line@, pid) == Some((uuid@, used@)),
        },
{
    let f = csv_split(line);
    if f.len() < 3 {
        return None;
    }
    let p = fmt_dec(pid as i64);
    if !crate::text::eq_chars(f[0].as_slice(), p.as_slice()) {
        return None;
    }
    Some((string_of(f[1].as_slice()), string_of(f[2].as_slice())))
}

/// Whether a `/sys/class/drm` entry is a card itself (`card<N>`), not one
/// of its connectors (which contain a `-`).
pub open spec fn is_card_spec(name: Seq<char>) -> bool {
    "card"@.is_prefix_of(name) && !name.contains('-')
}

/// Whether a `/sys/class/drm` entry is a card (see [`is_card_spec`]).
pub fn is_card_entry(name: &str) -> (r: bool)
    ensures
        r == is_card_spec(name@),
{
    let cs = chars_of(name);
    let card = chars_of("card");
    if !crate::text::starts_with(cs.as_slice(), card.as_slice()) {
        return false;
    }
    let mut i: usize = 0;
    while i < cs.len()
        invariant
            i <= cs@.len(),
            cs@ == name@,
            "card"@.is_prefix_of(name@),
            forall|j: int| 0 <= j < i ==> cs@[j] != '-',
        decreases cs@.len() - i,
    {
        if cs[i] == '-' {
            assert(cs@[i as int] == '-');
            assert(cs@.contains('-'));
            return false;
        }
        i = i + 1;
    }
    true
}

/// The first line of `ls` that starts with `DRIVER=`.
pub open spec fn driver_line(ls: Seq<Seq<char>>) -> Option<Seq<char>>
    decreases ls.len(),
{
    if ls.len() == 0 {
        None
    } else if "DRIVER="@.is_prefix_of(ls[0]) {
        Some(ls[0])
    } else {
        driver_line(ls.drop_first())
    }
}

/// The name shown for an AMD card: the `DRIVER=` line of its `uevent`
/// file, else `AMD GPU (<entry>)`.
pub open spec fn amd_name_spec(uevent: Option<Seq<char>>, entry: Seq<char>) -> Seq<char> {
    match uevent {
        Some(u) => match driver_line(lines(u)) {
            Some(l) => l,
            None => "AMD GPU ("@ + entry + ")"@,
        },
        None => "AMD GPU ("@ + entry + ")"@,
    }
}

/// The name shown for an AMD card (see [`amd_name_spec`]).
pub fn amd_gpu_name(uevent: Option<&str>, entry: &str) -> (r: String)
    ensures
        r@ == amd_name_spec(
            match uevent {
                Some(u) => Some(u@),
                None => None,
            },
            entry@,
        ),
{
    if let Some(u) = uevent {
        let cs = chars_of(u);
        let ls = split_lines(cs.as_slice());
        let ghost all = views(ls@);
        let prefix = chars_of("DRIVER=");
        let mut i: usize = 0;
        assert(all.skip(0) =~= all);
        while i < ls.len()
            invariant
                uevent == Some(u),
                all == views(ls@),
                all == lines(u@),
                prefix@ == "DRIVER="@,
                i <= all.len(),
                driver_line(all) == driver_line(all.skip(i as int)),
            decreases all.len() - i,
        {
            assert(all.skip(i as int)[0] == ls@[i as int]@);
            if crate::text::starts_with(ls[i].as_slice(), prefix.as_slice()) {
                assert(all.skip(i as int).len() > 0);
                assert(driver_line(all.skip(i as int)) == Some(ls@[i as int]@));
                return string_of(ls[i].as_slice());
            }
            assert(all.skip(i as int).drop_first() =~= all.skip(i + 1));
            i = i + 1;
        }
        assert(all.skip(i as int) =~= Seq::<Seq<char>>::empty());
    }
    let mut out = String::new();
    push_str(&mut out, "AMD GPU (");
    push_str(&mut out, entry);
    push_str(&mut out, ")");
    out
}

} // verus!
