//! Splitting a text at a separator, its lines, and joining pieces again.

use vstd::prelude::*;
use crate::text::{append_chars, rows};

verus! {

/// The index of the first `c` in `s`, or `s.len()` where `s` holds no `c`.
pub open spec fn index_of(s: Seq<char>, c: char) -> int
    decreases s.len(),
{
    if s.len() == 0 || s[0] == c {
        0
    } else {
        1 + index_of(s.drop_first(), c)
    }
}

/// The pieces of `s` between the occurrences of `sep`, in order. There is
/// always at least one piece; a piece may be empty.
pub open spec fn split(s: Seq<char>, sep: char) -> Seq<Seq<char>>
    decreases s.len(),
{
    let k = index_of(s, sep);
    if 0 <= k < s.len() {
        seq![s.take(k)] + split(s.skip(k + 1), sep)
    } else {
        seq![s]
    }
}

/// `line` without one carriage return at its end, if it has one there.
pub open spec fn strip_cr(line: Seq<char>) -> Seq<char> {
    if line.len() > 0 && line.last() == '\r' {
        line.drop_last()
    } else {
        line
    }
}

/// Every piece without the carriage return at its end.
pub open spec fn strip_each(parts: Seq<Seq<char>>) -> Seq<Seq<char>> {
    parts.map_values(|p: Seq<char>| strip_cr(p))
}

/// The lines of `s`. A line ends at a line feed; a carriage return directly
/// before that line feed belongs to the line ending. What follows the last
/// line feed is a line of its own unless it is empty.
pub open spec fn lines(s: Seq<char>) -> Seq<Seq<char>> {
    let parts = split(s, '\n');
    let ended = strip_each(parts.drop_last());
    if parts.last().len() == 0 {
        ended
    } else {
        ended.push(parts.last())
    }
}

/// The pieces put together again, with one `sep` between each two.
pub open spec fn join(parts: Seq<Seq<char>>, sep: char) -> Seq<char>
    decreases parts.len(),
{
    if parts.len() == 0 {
        Seq::empty()
    } else if parts.len() == 1 {
        parts[0]
    } else {
        join(parts.drop_last(), sep).push(sep) + parts.last()
    }
}

/// `s` holds neither a carriage return nor a line feed.
pub open spec fn is_line(s: Seq<char>) -> bool {
    forall|i: int| 0 <= i < s.len() ==> s[i] != '\r' && s[i] != '\n'
}

/// A carriage return and a line feed.
pub open spec fn crlf() -> Seq<char> {
    seq!['\r', '\n']
}

/// Splits `s` at every `sep`.
pub fn split_chars(s: &[char], sep: char) -> (parts: Vec<Vec<char>>)
    ensures
        rows(parts@) == split(s@, sep),
{
    let mut parts: Vec<Vec<char>> = Vec::new();
    let mut cur: Vec<char> = Vec::new();
    let ghost mut start: int = 0;
    let mut i: usize = 0;
    proof {
        assert(s@.skip(0) == s@);
    }
    while i < s.len()
        invariant
            0 <= start <= i <= s.len(),
            cur@ == s@.subrange(start, i as int),
            forall|j: int| start <= j < i ==> s@[j] != sep,
            split(s@, sep) == rows(parts@) + split(s@.skip(start), sep),
        decreases s.len() - i,
    {
        let c = s[i];
        if c == sep {
            proof {
                let rest = s@.skip(start);
                lemma_index_of_unique(rest, sep, i - start);
                assert(rest.take(i - start) == cur@);
                assert(rest.skip(i - start + 1) == s@.skip(i + 1));
            }
            parts.push(cur);
            cur = Vec::new();
            proof {
                start = i + 1;
            }
        } else {
            cur.push(c);
        }
        i += 1;
    }
    proof {
        let rest = s@.skip(start);
        lemma_index_of_unique(rest, sep, rest.len() as int);
    }
    parts.push(cur);
    parts
}

/// Splits `s` into its lines.
pub fn split_lines(s: &[char]) -> (out: Vec<Vec<char>>)
    ensures
        rows(out@) == lines(s@),
{
    let mut out: Vec<Vec<char>> = Vec::new();
    let mut cur: Vec<char> = Vec::new();
    let ghost mut start: int = 0;
    let mut i: usize = 0;
    let ghost mut done: Seq<Seq<char>> = Seq::empty();
    proof {
        assert(s@.skip(0) == s@);
    }
    while i < s.len()
        invariant
            0 <= start <= i <= s.len(),
            cur@ == s@.subrange(start, i as int),
            forall|j: int| start <= j < i ==> s@[j] != '\n',
            split(s@, '\n') == done + split(s@.skip(start), '\n'),
            rows(out@) == strip_each(done),
        decreases s.len() - i,
    {
        let c = s[i];
        if c == '\n' {
            let ghost piece = cur@;
            proof {
                let rest = s@.skip(start);
                lemma_index_of_unique(rest, '\n', i - start);
                assert(rest.take(i - start) == piece);
                assert(rest.skip(i - start + 1) == s@.skip(i + 1));
            }
            if cur.len() > 0 && cur[cur.len() - 1] == '\r' {
                cur.pop();
            }
            proof {
                assert(rows(out@.push(cur)) == rows(out@).push(cur@));
                done = done.push(piece);
            }
            out.push(cur);
            cur = Vec::new();
            proof {
                start = i + 1;
            }
        } else {
            cur.push(c);
        }
        i += 1;
    }
    proof {
        let rest = s@.skip(start);
        lemma_index_of_unique(rest, '\n', rest.len() as int);
        let parts = split(s@, '\n');
        assert(parts.drop_last() == done);
    }
    if cur.len() > 0 {
        out.push(cur);
    }
    out
}

/// Joins `parts` with `sep`.
pub fn join_chars(parts: &Vec<Vec<char>>, sep: char) -> (out: Vec<char>)
    ensures
        out@ == join(rows(parts@), sep),
{
    let mut out: Vec<char> = Vec::new();
    let mut i: usize = 0;
    while i < parts.len()
        invariant
            i <= parts.len(),
            out@ == join(rows(parts@).take(i as int), sep),
        decreases parts.len() - i,
    {
        proof {
            let next = rows(parts@).take(i + 1);
            assert(next.drop_last() == rows(parts@).take(i as int));
        }
        if i > 0 {
            out.push(sep);
        }
        append_chars(&mut out, parts[i].as_slice());
        i += 1;
    }
    proof {
        assert(rows(parts@).take(parts.len() as int) == rows(parts@));
    }
    out
}

/// `index_of` is in range, points at a `c` unless it is `s.len()`, and
/// nothing before it is a `c`.
pub proof fn lemma_index_of(s: Seq<char>, c: char)
    ensures
        0 <= index_of(s, c) <= s.len(),
        index_of(s, c) < s.len() ==> s[index_of(s, c)] == c,
        forall|j: int| 0 <= j < index_of(s, c) ==> s[j] != c,
    decreases s.len(),
{
    if s.len() > 0 && s[0] != c {
        let t = s.drop_first();
        lemma_index_of(t, c);
        assert forall|j: int| 0 <= j < index_of(s, c) implies s[j] != c by {
            if j > 0 {
                assert(s[j] == t[j - 1]);
            }
        }
    }
}

/// An index that points at a `c`, or past the end, with no `c` before it is
/// `index_of`.
pub proof fn lemma_index_of_unique(s: Seq<char>, c: char, k: int)
    requires
        0 <= k <= s.len(),
        k < s.len() ==> s[k] == c,
        forall|j: int| 0 <= j < k ==> s[j] != c,
    ensures
        index_of(s, c) == k,
{
    lemma_index_of(s, c);
}

/// A text that begins with a piece free of `sep`, then `sep`, splits into
/// that piece and the pieces of the rest.
pub proof fn lemma_split_first(a: Seq<char>, rest: Seq<char>, sep: char)
    requires
        !a.contains(sep),
    ensures
        split(a.push(sep) + rest, sep) == seq![a] + split(rest, sep),
{
    let s = a.push(sep) + rest;
    lemma_index_of_unique(s, sep, a.len() as int);
    assert(s.take(a.len() as int) == a);
    assert(s.skip(a.len() as int + 1) == rest);
}

/// A text free of `sep` is its own single piece.
pub proof fn lemma_split_none(a: Seq<char>, sep: char)
    requires
        !a.contains(sep),
    ensures
        split(a, sep) == seq![a],
{
    lemma_index_of_unique(a, sep, a.len() as int);
}

/// The pieces of two texts with `sep` between them are the pieces of the
/// first and the pieces of the second.
pub proof fn lemma_split_concat(a: Seq<char>, b: Seq<char>, sep: char)
    ensures
        split(a.push(sep) + b, sep) == split(a, sep) + split(b, sep),
    decreases a.len(),
{
    lemma_index_of(a, sep);
    let k = index_of(a, sep);
    if k == a.len() {
        lemma_split_first(a, b, sep);
    } else {
        let s = a.push(sep) + b;
        lemma_index_of_unique(s, sep, k);
        assert(s.take(k) == a.take(k));
        assert(s.skip(k + 1) == a.skip(k + 1).push(sep) + b);
        lemma_split_concat(a.skip(k + 1), b, sep);
    }
}

/// Joining and splitting again gives the pieces back, where there is at
/// least one piece and none holds `sep`.
pub proof fn lemma_split_join(parts: Seq<Seq<char>>, sep: char)
    requires
        parts.len() > 0,
        forall|i: int| 0 <= i < parts.len() ==> !(#[trigger] parts[i]).contains(sep),
    ensures
        split(join(parts, sep), sep) == parts,
    decreases parts.len(),
{
    if parts.len() == 1 {
        lemma_split_none(parts[0], sep);
    } else {
        let front = parts.drop_last();
        lemma_split_join(front, sep);
        lemma_split_concat(join(front, sep), parts.last(), sep);
        lemma_split_none(parts.last(), sep);
    }
}

/// The lines of lines joined by line feeds are those lines, where none is
/// empty and none holds a carriage return or a line feed.
pub proof fn lemma_lines_of_join(all: Seq<Seq<char>>)
    requires
        forall|i: int| 0 <= i < all.len() ==> is_line(#[trigger] all[i]) && all[i].len() > 0,
    ensures
        lines(join(all, '\n')) == all,
{
    if all.len() > 0 {
        lemma_split_join(all, '\n');
        let front = all.drop_last();
        assert(strip_each(front) == front);
    }
}

} // verus!
