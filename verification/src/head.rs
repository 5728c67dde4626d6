//! The head of a request as text: its request line and its header block.
//!
//! The first line of the head is the request line. The lines after it that
//! are not empty are the headers; the header block holds them with one line
//! feed between each two and none at its end.

use vstd::prelude::*;
use crate::text::{append_chars, rows};
use crate::text::pieces::{join, join_chars, lines, split_lines};

verus! {

/// The request line of a head: its first line, or nothing where the head has
/// no line at all.
pub open spec fn request_line_of(head: Seq<char>) -> Seq<char> {
    let all = lines(head);
    if all.len() == 0 {
        Seq::empty()
    } else {
        all[0]
    }
}

/// Those of `all` that are not empty, in order.
pub open spec fn non_empty(all: Seq<Seq<char>>) -> Seq<Seq<char>>
    decreases all.len(),
{
    if all.len() == 0 {
        Seq::empty()
    } else if all.last().len() == 0 {
        non_empty(all.drop_last())
    } else {
        non_empty(all.drop_last()).push(all.last())
    }
}

/// The header lines of a head: its lines after the first that are not empty.
pub open spec fn header_lines_of(head: Seq<char>) -> Seq<Seq<char>> {
    let all = lines(head);
    if all.len() == 0 {
        Seq::empty()
    } else {
        non_empty(all.skip(1))
    }
}

/// The header block of a head: its header lines, joined by line feeds.
pub open spec fn header_block_of(head: Seq<char>) -> Seq<char> {
    join(header_lines_of(head), '\n')
}

/// Splits a head into its request line and its header block.
pub fn split_head(head: &[char]) -> (r: (Vec<char>, Vec<char>))
    ensures
        r.0@ == request_line_of(head@),
        r.1@ == header_block_of(head@),
{
    let all = split_lines(head);
    let mut request_line: Vec<char> = Vec::new();
    let mut kept: Vec<Vec<char>> = Vec::new();
    if all.len() == 0 {
        return (request_line, join_chars(&kept, '\n'));
    }
    append_chars(&mut request_line, all[0].as_slice());
    let ghost rest = rows(all@).skip(1);
    let mut i: usize = 1;
    while i < all.len()
        invariant
            1 <= i <= all.len(),
            rest == rows(all@).skip(1),
            rows(kept@) == non_empty(rest.take(i - 1)),
        decreases all.len() - i,
    {
        proof {
            assert(rest.take(i as int).drop_last() == rest.take(i - 1));
        }
        if all[i].len() > 0 {
            let mut line: Vec<char> = Vec::new();
            append_chars(&mut line, all[i].as_slice());
            proof {
                assert(rows(kept@.push(line)) == rows(kept@).push(line@));
            }
            kept.push(line);
        }
        i += 1;
    }
    proof {
        assert(rest.take(all.len() - 1) == rest);
    }
    (request_line, join_chars(&kept, '\n'))
}

} // verus!
