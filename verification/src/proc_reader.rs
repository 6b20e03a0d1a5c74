//! Low-level `/proc/<pid>/*` readers: memory maps, Unix sockets, and the
//! per-file presence checks.
use vstd::prelude::*;
use crate::text::{
    chars_of, join, join_chars, lines, or_zero, parse_hex_u64, parse_hex_u64_chars, parse_u64,
    parse_u64_chars, skip_first, split_lines, split_whitespace, split_ws, string_of, trim,
    trim_chars, views,
};

verus! {

broadcast use vstd::string::group_string_axioms;

/// Whether `/proc/<pid>/stat` is available: always on Linux.
pub fn read_stat(_pid: i32) -> (r: Option<()>)
    ensures
        r == Some(()),
{
    Some(())
}

/// Whether `/proc/<pid>/status` is available: always on Linux.
pub fn read_status(_pid: i32) -> (r: Option<()>)
    ensures
        r == Some(()),
{
    Some(())
}

/// Whether `/proc/<pid>/net` is available: always on Linux.
pub fn read_net(_pid: i32) -> (r: Option<()>)
    ensures
        r == Some(()),
{
    Some(())
}

// ─── Memory maps ─────────────────────────────────────────────────────────────

/// One mapped region of `/proc/<pid>/maps`.
#[derive(Debug, Clone)]
pub struct MapRegion {
    pub address: String,
    pub perms: String,
    pub offset: u64,
    pub dev: String,
    pub inode: u64,
    pub pathname: Option<String>,
}

/// The fields of a region: address, permissions, offset, device, inode, path.
pub type RegionView = (Seq<char>, Seq<char>, nat, Seq<char>, nat, Option<Seq<char>>);

/// The view of a map region.
pub open spec fn region_view(r: MapRegion) -> RegionView {
    (
        r.address@,
        r.perms@,
        r.offset as nat,
        r.dev@,
        r.inode as nat,
        match r.pathname {
            Some(p) => Some(p@),
            None => None,
        },
    )
}

/// Token `i` of `toks`, or the empty text when there is none.
pub open spec fn tok_or_empty(toks: Seq<Seq<char>>, i: int) -> Seq<char> {
    if i < toks.len() {
        toks[i]
    } else {
        Seq::empty()
    }
}

/// The region a maps line describes: its whitespace-separated fields, with
/// missing ones empty or 0, unparsable numbers 0, and the path made of the
/// remaining fields joined by single spaces. A blank line describes none.
pub open spec fn region_of(line: Seq<char>) -> Option<RegionView> {
    let t = split_ws(line);
    if t.len() == 0 {
        None
    } else {
        Some(
            (
                t[0],
                tok_or_empty(t, 1),
                if t.len() > 2 { or_zero(parse_hex_u64(t[2])) } else { 0 },
                tok_or_empty(t, 3),
                if t.len() > 4 { or_zero(parse_u64(t[4])) } else { 0 },
                if t.len() > 5 { Some(join(t.skip(5), " "@)) } else { None },
            ),
        )
    }
}

/// The regions of maps lines, in order.
pub open spec fn regions_of(ls: Seq<Seq<char>>) -> Seq<RegionView>
    decreases ls.len(),
{
    if ls.len() == 0 {
        Seq::empty()
    } else {
        let prev = regions_of(ls.drop_last());
        match region_of(ls.last()) {
            Some(r) => prev.push(r),
            None => prev,
        }
    }
}

fn tok_string(toks: &Vec<Vec<char>>, i: usize) -> (s: String)
    ensures
        s@ == tok_or_empty(views(toks@), i as int),
{
    if i < toks.len() {
        string_of(toks[i].as_slice())
    } else {
        String::new()
    }
}

fn region_from_line(line: &[char]) -> (r: Option<MapRegion>)
    ensures
        match r {
            Some(m) => region_of(line@) == Some(region_view(m)),
            None => region_of(line@) is None,
        },
{
    let mut t = split_whitespace(line);
    let ghost tv = views(t@);
    let n = t.len();
    if n == 0 {
        return None;
    }
    let address = string_of(t[0].as_slice());
    let perms = tok_string(&t, 1);
    let offset = if n > 2 {
        match parse_hex_u64_chars(t[2].as_slice()) {
            Some(v) => v,
            None => 0,
        }
    } else {
        0
    };
    let dev = tok_string(&t, 3);
    let inode = if n > 4 {
        match parse_u64_chars(t[4].as_slice()) {
            Some(v) => v,
            None => 0,
        }
    } else {
        0
    };
    let pathname = if n > 5 {
        let mut k: usize = 0;
        assert(tv.skip(0) =~= tv);
        while k < 5
            invariant
                k <= 5,
                n == tv.len(),
                n > 5,
                t@.len() == n - k,
                views(t@) == tv.skip(k as int),
            decreases 5 - k,
        {
            let ghost before = t@;
            t.remove(0);
            assert(t@ =~= before.drop_first());
            assert(views(t@) =~= views(before).drop_first());
            assert(views(t@) =~= tv.skip(k + 1));
            k = k + 1;
        }
        let sp = chars_of(" ");
        let p = join_chars(t.as_slice(), sp.as_slice());
        Some(string_of(p.as_slice()))
    } else {
        None
    };
    Some(MapRegion { address, perms, offset, dev, inode, pathname })
}

/// The regions listed in the contents of `/proc/<pid>/maps`, in order.
pub fn read_maps(raw: &str) -> (r: Vec<MapRegion>)
    ensures
        r@.map_values(|m: MapRegion| region_view(m)) == regions_of(lines(raw@)),
{
    let cs = chars_of(raw);
    let ls = split_lines(cs.as_slice());
    let ghost all = views(ls@);
    let mut out: Vec<MapRegion> = Vec::new();
    let mut i: usize = 0;
    while i < ls.len()
        invariant
            all == views(ls@),
            i <= ls@.len(),
            out@.map_values(|m: MapRegion| region_view(m)) == regions_of(all.take(i as int)),
        decreases ls@.len() - i,
    {
        assert(all.take(i + 1).drop_last() =~= all.take(i as int));
        assert(all.take(i + 1).last() == ls@[i as int]@);
        let ghost prev = out@;
        match region_from_line(ls[i].as_slice()) {
            Some(m) => {
                let ghost mv = region_view(m);
                out.push(m);
                assert(out@.map_values(|m: MapRegion| region_view(m)) =~= prev.map_values(
                    |m: MapRegion| region_view(m),
                ).push(mv));
            },
            None => {},
        }
        i = i + 1;
    }
    assert(all.take(i as int) =~= all);
    out
}

// ─── Unix sockets ────────────────────────────────────────────────────────────

/// A Unix domain socket of a process; the path is empty for anonymous sockets.
#[derive(Debug, Clone)]
pub struct UnixSocketEntry {
    pub path: String,
}

/// The socket path a `/proc/net/unix` line gives when its inode (7th field)
/// is one of `inodes`: the trimmed remaining fields joined by spaces.
pub open spec fn unix_line_path(line: Seq<char>, inodes: Seq<u64>) -> Option<Seq<char>> {
    let p = split_ws(line);
    if p.len() < 7 {
        None
    } else {
        match parse_u64(p[6]) {
            None => None,
            Some(ino) => if inodes.contains(ino as u64) {
                Some(if p.len() > 7 { trim(join(p.skip(7), " "@)) } else { Seq::empty() })
            } else {
                None
            },
        }
    }
}

/// The socket paths of lines `ls` belonging to `inodes`, in order.
pub open spec fn unix_paths(ls: Seq<Seq<char>>, inodes: Seq<u64>) -> Seq<Seq<char>>
    decreases ls.len(),
{
    if ls.len() == 0 {
        Seq::empty()
    } else {
        let prev = unix_paths(ls.drop_last(), inodes);
        match unix_line_path(ls.last(), inodes) {
            Some(p) => prev.push(p),
            None => prev,
        }
    }
}

fn contains_inode(v: &[u64], x: u64) -> (r: bool)
    ensures
        r == v@.contains(x),
{
    let mut i: usize = 0;
    while i < v.len()
        invariant
            i <= v@.len(),
            forall|j: int| 0 <= j < i ==> v@[j] != x,
        decreases v@.len() - i,
    {
        if v[i] == x {
            assert(v@[i as int] == x);
            return true;
        }
        i = i + 1;
    }
    false
}

fn unix_path_of(line: &[char], inodes: &[u64]) -> (r: Option<Vec<char>>)
    ensures
        match r {
            Some(p) => unix_line_path(line@, inodes@) == Some(p@),
            None => unix_line_path(line@, inodes@) is None,
        },
{
    let mut p = split_whitespace(line);
    let ghost pv = views(p@);
    let n = p.len();
    if n < 7 {
        return None;
    }
    let ino = match parse_u64_chars(p[6].as_slice()) {
        Some(v) => v,
        None => return None,
    };
    if !contains_inode(inodes, ino) {
        return None;
    }
    if n > 7 {
        let mut k: usize = 0;
        assert(pv.skip(0) =~= pv);
        while k < 7
            invariant
                k <= 7,
                n == pv.len(),
                n > 7,
                p@.len() == n - k,
                views(p@) == pv.skip(k as int),
            decreases 7 - k,
        {
            let ghost before = p@;
            p.remove(0);
            assert(p@ =~= before.drop_first());
            assert(views(p@) =~= views(before).drop_first());
            assert(views(p@) =~= pv.skip(k + 1));
            k = k + 1;
        }
        let sp = chars_of(" ");
        let j = join_chars(p.as_slice(), sp.as_slice());
        Some(trim_chars(j.as_slice()))
    } else {
        Some(Vec::new())
    }
}

/// The view of a list of Unix socket entries: their paths.
pub open spec fn unix_view(v: Seq<UnixSocketEntry>) -> Seq<Seq<char>> {
    v.map_values(|e: UnixSocketEntry| e.path@)
}

/// The sockets of `/proc/net/unix` text (header line skipped) whose inode is
/// one of the process's socket inodes `inodes`, in order.
pub fn list_unix_sockets(raw: &str, inodes: &[u64]) -> (r: Vec<UnixSocketEntry>)
    ensures
        unix_view(r@) == unix_paths(skip_first(lines(raw@)), inodes@),
{
    let cs = chars_of(raw);
    let ls = split_lines(cs.as_slice());
    let ghost all = views(ls@);
    let ghost body = skip_first(all);
    let mut out: Vec<UnixSocketEntry> = Vec::new();
    if ls.len() == 0 {
        assert(unix_view(out@) =~= Seq::<Seq<char>>::empty());
        return out;
    }
    let mut i: usize = 1;
    while i < ls.len()
        invariant
            all == views(ls@),
            ls@.len() > 0,
            body == all.drop_first(),
            1 <= i <= ls@.len(),
            unix_view(out@) == unix_paths(body.take(i - 1), inodes@),
        decreases ls@.len() - i,
    {
        assert(body.take(i as int).drop_last() =~= body.take(i - 1));
        assert(body.take(i as int).last() == ls@[i as int]@);
        let ghost prev = out@;
        match unix_path_of(ls[i].as_slice(), inodes) {
            Some(p) => {
                let e = UnixSocketEntry { path: string_of(p.as_slice()) };
                out.push(e);
                assert(unix_view(out@) =~= unix_view(prev).push(p@));
            },
            None => {},
        }
        i = i + 1;
    }
    assert(body.take(i - 1) =~= body);
    out
}

} // verus!
