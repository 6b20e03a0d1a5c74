//! Shapes shared by several `/proc` files: the part of a `stat` line after
//! the command name, and colon-separated `cgroup` lines.
use vstd::prelude::*;
use crate::text::{find_first, find_last, rfind_char, find_char, sub_vec};

verus! {

/// Whether slicing `stat` two bytes past its last `)` stays inside the text
/// and on a character boundary: there is no `)`, or the character after the
/// last `)` exists and is one byte long.
pub open spec fn stat_tail_ok(stat: Seq<char>) -> bool {
    match find_last(stat, ')') {
        None => true,
        Some(k) => k + 1 < stat.len() && (stat[k + 1] as u32) < 0x80,
    }
}

/// The fields after the command name of a `stat` line: the text two
/// characters past the last `)`, when there is one.
pub open spec fn stat_tail(stat: Seq<char>) -> Option<Seq<char>> {
    match find_last(stat, ')') {
        None => None,
        Some(k) => Some(stat.skip(k + 2)),
    }
}

/// The text after the command name of a `stat` line, if it has one.
pub fn stat_tail_chars(stat: &[char]) -> (r: Option<Vec<char>>)
    requires
        stat_tail_ok(stat@),
    ensures
        match r {
            Some(t) => stat_tail(stat@) == Some(t@),
            None => stat_tail(stat@) is None,
        },
{
    let n = stat.len();
    match rfind_char(stat, ')') {
        None => None,
        Some(k) => {
            let t = sub_vec(stat, k + 2, n);
            assert(t@ =~= stat@.skip(k + 2));
            Some(t)
        },
    }
}

/// The third `:`-separated field of `line`, running to its end
/// (`line.splitn(3, ':').nth(2)`).
pub open spec fn third_field(line: Seq<char>) -> Option<Seq<char>> {
    match find_first(line, ':') {
        None => None,
        Some(a) => {
            let rest = line.skip(a + 1);
            match find_first(rest, ':') {
                None => None,
                Some(b) => Some(rest.skip(b + 1)),
            }
        },
    }
}

/// The text after the last `sep` of `s`, or all of `s` when it has none
/// (`s.split(sep).next_back()`).
pub open spec fn last_segment(s: Seq<char>, sep: char) -> Seq<char> {
    match find_last(s, sep) {
        None => s,
        Some(k) => s.skip(k + 1),
    }
}

/// The third `:`-separated field of `line`.
pub fn third_field_chars(line: &[char]) -> (r: Option<Vec<char>>)
    ensures
        match r {
            Some(t) => third_field(line@) == Some(t@),
            None => third_field(line@) is None,
        },
{
    let n = line.len();
    match find_char(line, ':') {
        None => None,
        Some(a) => {
            let rest = sub_vec(line, a + 1, n);
            assert(rest@ =~= line@.skip(a + 1));
            let m = rest.len();
            match find_char(rest.as_slice(), ':') {
                None => None,
                Some(b) => {
                    let t = sub_vec(rest.as_slice(), b + 1, m);
                    assert(t@ =~= rest@.skip(b + 1));
                    Some(t)
                },
            }
        },
    }
}

/// The text after the last `sep` of `s`.
pub fn last_segment_chars(s: &[char], sep: char) -> (r: Vec<char>)
    ensures
        r@ == last_segment(s@, sep),
{
    let n = s.len();
    match rfind_char(s, sep) {
        None => {
            let v = sub_vec(s, 0, n);
            assert(v@ =~= s@);
            v
        },
        Some(k) => sub_vec(s, k + 1, n),
    }
}

} // verus!
