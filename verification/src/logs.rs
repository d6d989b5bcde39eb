//! Reading log files: the last lines of a log, following one that grows or
//! is rotated, and the requests php-fpm flags as slow.
//!
//! Reading the file and sleeping between polls are the caller's part; the
//! functions here decide what to show and where to read next.

use vstd::prelude::*;

use crate::text::{contains_chars, from_chars, lines, lines_of, str_views, to_chars};

verus! {

/// The last `n` lines of a log's text (all of them when it has fewer), in
/// order.
pub open spec fn last_lines(text: Seq<char>, n: nat) -> Seq<Seq<char>> {
    let ls = lines(text);
    if ls.len() <= n {
        ls
    } else {
        ls.skip(ls.len() - n)
    }
}

/// The last `n` lines of a log's text (see [`last_lines`]).
pub fn tail_lines(text: &str, n: usize) -> (r: Vec<String>)
    ensures
        str_views(r@) == last_lines(text@, n as nat),
{
    let ls = lines_of(&to_chars(text));
    let ghost lv = lines(text@);
    let start: usize = if ls.len() <= n {
        0
    } else {
        ls.len() - n
    };
    let mut out: Vec<String> = Vec::new();
    let mut i: usize = start;
    while i < ls.len()
        invariant
            start <= i <= ls.len(),
            lv == lines(text@),
            ls@.len() == lv.len(),
            forall|q: int| 0 <= q < ls@.len() ==> (#[trigger] ls@[q])@ == lv[q],
            str_views(out@) == lv.subrange(start as int, i as int),
        decreases ls.len() - i,
    {
        let ghost before = str_views(out@);
        out.push(from_chars(&ls[i]));
        assert(str_views(out@) =~= before.push(lv[i as int]));
        assert(str_views(out@) =~= lv.subrange(start as int, i + 1));
        i = i + 1;
    }
    assert(lv.subrange(start as int, ls.len() as int) =~= last_lines(text@, n as nat));
    out
}

/// Where a followed log is read next, given the offset reached so far and
/// the file's length now: a file shorter than the offset was rotated or
/// truncated, so reading resumes from the top; what lies between the
/// offset and the length is shown; the new offset is the length.
pub open spec fn follow_next(pos: u64, len: u64) -> (Option<u64>, u64) {
    let from: u64 = if len < pos {
        0
    } else {
        pos
    };
    (if len > from {
        Some(from)
    } else {
        None
    }, if len > from {
        len
    } else {
        from
    })
}

/// One poll of a followed log (see [`follow_next`]): where to read from, if
/// anything is new, and the offset to poll from next.
pub fn follow_step(pos: u64, len: u64) -> (r: (Option<u64>, u64))
    ensures
        r == follow_next(pos, len),
{
    let from = if len < pos {
        0
    } else {
        pos
    };
    if len > from {
        (Some(from), len)
    } else {
        (None, from)
    }
}

/// Whether a php-fpm log line reports a request that ran too slow.
pub open spec fn flagged_slow(line: Seq<char>) -> bool {
    crate::text::contains_seq(line, "executing too slow"@)
}

/// The lines of `ls` that report slow requests, in order.
pub open spec fn slow_among(ls: Seq<Seq<char>>) -> Seq<Seq<char>>
    decreases ls.len(),
{
    if ls.len() == 0 {
        Seq::empty()
    } else if flagged_slow(ls.last()) {
        slow_among(ls.drop_last()).push(ls.last())
    } else {
        slow_among(ls.drop_last())
    }
}

/// The last `n` slow-request lines of a php-fpm pool log, oldest first.
pub open spec fn recent_slow(text: Seq<char>, n: nat) -> Seq<Seq<char>> {
    let s = slow_among(lines(text));
    if s.len() <= n {
        s
    } else {
        s.skip(s.len() - n)
    }
}

/// The last `n` requests php-fpm flagged as too slow in a pool's log
/// (see [`recent_slow`]). The detection line names the script and URI and
/// survives where the backtrace can't be collected.
pub fn slow_lines(text: &str, n: usize) -> (r: Vec<String>)
    ensures
        str_views(r@) == recent_slow(text@, n as nat),
{
    let ls = lines_of(&to_chars(text));
    let ghost lv = lines(text@);
    let marker = to_chars("executing too slow");
    let mut all: Vec<String> = Vec::new();
    let mut i: usize = 0;
    while i < ls.len()
        invariant
            i <= ls.len(),
            lv == lines(text@),
            ls@.len() == lv.len(),
            forall|q: int| 0 <= q < ls@.len() ==> (#[trigger] ls@[q])@ == lv[q],
            marker@ == "executing too slow"@,
            str_views(all@) == slow_among(lv.take(i as int)),
        decreases ls.len() - i,
    {
        assert(lv.take(i + 1).drop_last() =~= lv.take(i as int));
        assert(lv.take(i + 1).last() == ls@[i as int]@);
        if contains_chars(&ls[i], &marker) {
            let ghost before = str_views(all@);
            all.push(from_chars(&ls[i]));
            assert(str_views(all@) =~= before.push(ls@[i as int]@));
        }
        i = i + 1;
    }
    assert(lv.take(ls.len() as int) =~= lv);
    let ghost sv = str_views(all@);
    let start: usize = if all.len() <= n {
        0
    } else {
        all.len() - n
    };
    let mut out: Vec<String> = Vec::new();
    let mut k: usize = start;
    while k < all.len()
        invariant
            start <= k <= all.len(),
            sv == str_views(all@),
            str_views(out@) == sv.subrange(start as int, k as int),
        decreases all.len() - k,
    {
        let ghost before = str_views(out@);
        out.push(from_chars(&to_chars(all[k].as_str())));
        assert(str_views(out@) =~= before.push(sv[k as int]));
        assert(str_views(out@) =~= sv.subrange(start as int, k + 1));
        k = k + 1;
    }
    assert(sv.subrange(start as int, all.len() as int) =~= recent_slow(text@, n as nat));
    out
}

} // verus!
