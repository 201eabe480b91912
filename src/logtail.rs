//! The recent part of the diagnostic log: its text split into lines, the
//! last lines of it, and lines joined back into text.

use vstd::prelude::*;
use crate::telemetry::lines_view;
use crate::text::{chars_of, index_from, index_of_char, lemma_index_from_shift, string_of};

verus! {

/// `t` without one trailing carriage return.
pub open spec fn strip_cr(t: Seq<char>) -> Seq<char> {
    if t.len() > 0 && t.last() == '\r' {
        t.drop_last()
    } else {
        t
    }
}

/// The lines of `s`: split at each line feed, each without a trailing
/// carriage return; a line feed at the very end starts no further line.
pub open spec fn lines_of(s: Seq<char>) -> Seq<Seq<char>>
    decreases s.len(),
{
    if s.len() == 0 {
        Seq::empty()
    } else {
        let e = index_from(s, '\n', 0);
        if 0 <= e < s.len() {
            seq![strip_cr(s.subrange(0, e))] + lines_of(s.subrange(e + 1, s.len() as int))
        } else {
            seq![strip_cr(s)]
        }
    }
}

/// The last `n` of `ls`, or all of them where there are fewer.
pub open spec fn last_lines(ls: Seq<Seq<char>>, n: nat) -> Seq<Seq<char>> {
    if ls.len() <= n {
        ls
    } else {
        ls.subrange(ls.len() - n, ls.len() as int)
    }
}

/// `ls` joined with a line feed between each two.
pub open spec fn joined(ls: Seq<Seq<char>>) -> Seq<char>
    decreases ls.len(),
{
    if ls.len() == 0 {
        Seq::empty()
    } else if ls.len() == 1 {
        ls[0]
    } else {
        joined(ls.drop_last()) + "\n"@ + ls.last()
    }
}

/// The lines of `content`.
pub fn split_lines(content: &str) -> (r: Vec<String>)
    ensures
        lines_view(r@) == lines_of(content@),
{
    let cs = chars_of(content);
    let n = cs.len();
    let mut out: Vec<String> = Vec::new();
    let mut i: usize = 0;
    assert(cs@.subrange(0, n as int) =~= cs@);
    assert(lines_view(out@) =~= Seq::<Seq<char>>::empty());
    while i < n
        invariant
            n == cs@.len(),
            cs@ == content@,
            i <= n,
            lines_of(cs@) == lines_view(out@) + lines_of(cs@.subrange(i as int, n as int)),
        decreases n - i,
    {
        let ghost rest = cs@.subrange(i as int, n as int);
        let e = index_of_char(&cs, '\n', i);
        proof {
            lemma_index_from_shift(cs@, '\n', i as int, i as int);
        }
        let mut b = e;
        if b > i && cs[b - 1] == '\r' {
            b = b - 1;
        }
        assert(strip_cr(rest.subrange(0, e - i)) =~= cs@.subrange(i as int, b as int));
        let line = string_of(content, i, b);
        let ghost before = lines_view(out@);
        out.push(line);
        assert(lines_view(out@) =~= before.push(line@));
        if e < n {
            assert(rest.subrange(e - i + 1, rest.len() as int) =~= cs@.subrange(e + 1, n as int));
            assert(before + lines_of(rest) =~= lines_view(out@) + lines_of(
                cs@.subrange(e + 1, n as int),
            ));
            i = e + 1;
        } else {
            assert(rest.subrange(0, e - i) =~= rest);
            assert(lines_of(cs@.subrange(n as int, n as int)) =~= Seq::<Seq<char>>::empty());
            assert(before + lines_of(rest) =~= lines_view(out@) + lines_of(
                cs@.subrange(n as int, n as int),
            ));
            i = n;
        }
    }
    assert(lines_of(cs@.subrange(n as int, n as int)) =~= Seq::<Seq<char>>::empty());
    assert(lines_view(out@) + Seq::<Seq<char>>::empty() =~= lines_view(out@));
    out
}

/// Passes over up to `k` lines of `cs`: where they start, the rest holds
/// the lines of `cs` from the `j`-th on.
fn skip_lines(cs: &Vec<char>, k: usize) -> (r: (usize, usize))
    ensures
        r.0 <= cs@.len(),
        r.1 <= k,
        r.1 <= r.0,
        r.0 == cs@.len() || r.1 == k,
        r.1 <= lines_of(cs@).len(),
        lines_of(cs@.subrange(r.0 as int, cs@.len() as int)) == lines_of(cs@).subrange(
            r.1 as int,
            lines_of(cs@).len() as int,
        ),
{
    let n = cs.len();
    let ghost all = lines_of(cs@);
    let mut p: usize = 0;
    let mut j: usize = 0;
    assert(cs@.subrange(0, n as int) =~= cs@);
    assert(all.subrange(0, all.len() as int) =~= all);
    while p < n && j < k
        invariant
            n == cs@.len(),
            all == lines_of(cs@),
            p <= n,
            j <= k,
            j <= p,
            j <= all.len(),
            lines_of(cs@.subrange(p as int, n as int)) == all.subrange(j as int, all.len() as int),
        decreases n - p,
    {
        let ghost rest = cs@.subrange(p as int, n as int);
        let e = index_of_char(cs, '\n', p);
        proof {
            lemma_index_from_shift(cs@, '\n', p as int, p as int);
        }
        if e < n {
            assert(rest.subrange(e - p + 1, rest.len() as int) =~= cs@.subrange(e + 1, n as int));
            assert(lines_of(cs@.subrange(e + 1, n as int)) == lines_of(rest).drop_first());
            assert(all.subrange(j as int, all.len() as int).drop_first() =~= all.subrange(
                j + 1,
                all.len() as int,
            ));
            p = e + 1;
        } else {
            assert(lines_of(cs@.subrange(n as int, n as int)) =~= Seq::<Seq<char>>::empty());
            assert(lines_of(rest).len() == 1);
            assert(all.subrange(j + 1, all.len() as int) =~= Seq::<Seq<char>>::empty());
            p = n;
        }
        j = j + 1;
    }
    if p == n {
        assert(lines_of(cs@.subrange(n as int, n as int)) =~= Seq::<Seq<char>>::empty());
    }
    (p, j)
}

/// The last `max_lines` lines of `content`, oldest first. Only the part of
/// the text that holds them is split.
pub fn tail_lines(content: &str, max_lines: usize) -> (r: Vec<String>)
    ensures
        lines_view(r@) == last_lines(lines_of(content@), max_lines as nat),
{
    let cs = chars_of(content);
    let n = cs.len();
    let ghost all = lines_of(cs@);
    let (_, total) = skip_lines(&cs, n);
    assert(total == all.len()) by {
        assert(lines_of(cs@.subrange(n as int, n as int)) =~= Seq::<Seq<char>>::empty());
    }
    let skip: usize = if total <= max_lines {
        0
    } else {
        total - max_lines
    };
    let (p, j) = skip_lines(&cs, skip);
    assert(j == skip) by {
        if p == n {
            assert(lines_of(cs@.subrange(n as int, n as int)) =~= Seq::<Seq<char>>::empty());
        }
    }
    assert(all.subrange(0, all.len() as int) =~= all);
    let region = content.substring_char(p, n);
    split_lines(region)
}

/// `lines` joined with a line feed between each two.
pub fn join_lines(lines: &Vec<String>) -> (r: String)
    ensures
        r@ == joined(lines_view(lines@)),
{
    let n = lines.len();
    let mut out = String::new();
    let mut j: usize = 0;
    while j < n
        invariant
            n == lines@.len(),
            j <= n,
            out@ == joined(lines_view(lines@).subrange(0, j as int)),
        decreases n - j,
    {
        let ghost ls = lines_view(lines@).subrange(0, j + 1);
        assert(ls.drop_last() =~= lines_view(lines@).subrange(0, j as int));
        if j > 0 {
            out.append("\n");
        }
        out.append(lines[j].as_str());
        if j == 0 {
            assert(out@ =~= ls[0]);
        }
        j = j + 1;
    }
    assert(lines_view(lines@).subrange(0, n as int) =~= lines_view(lines@));
    out
}

/// The last `max_lines` lines of the log text `content`, as text.
pub fn recent_log(content: &str, max_lines: usize) -> (r: String)
    ensures
        r@ == joined(last_lines(lines_of(content@), max_lines as nat)),
{
    join_lines(&tail_lines(content, max_lines))
}

} // verus!
