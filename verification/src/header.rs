//! Looking a header up in a header block, and the body length that a block
//! announces.
//!
//! A header block is text with one header per line. A name matches a line
//! that holds it anywhere, with upper and lower case as written: looking up
//! `Content-Length` also matches a line `X-Content-Length-Custom: 7`. Of
//! several matching lines the last one counts.

use vstd::prelude::*;
use crate::text::{rows, to_chars, to_text};
use crate::text::number::{decimal_usize, parse_decimal};
use crate::text::pieces::{lines, split_lines};
use crate::text::search::{after_first, contains_text, has_text, text_after};

verus! {

/// What stands between a header's name and its value: a colon and a space.
pub open spec fn name_end() -> Seq<char> {
    seq![':', ' ']
}

/// The last of `lines` that holds `name`.
pub open spec fn last_holding(lines: Seq<Seq<char>>, name: Seq<char>) -> Option<Seq<char>>
    decreases lines.len(),
{
    if lines.len() == 0 {
        None
    } else if contains_text(lines.last(), name) {
        Some(lines.last())
    } else {
        last_holding(lines.drop_last(), name)
    }
}

/// The value of the header `name` in `block`: of the last line that holds
/// `name`, what follows the first colon and space. `None` where no line
/// holds `name`, and where that last line has no colon and space.
pub open spec fn header_value(block: Seq<char>, name: Seq<char>) -> Option<Seq<char>> {
    match last_holding(lines(block), name) {
        Some(line) => after_first(line, name_end()),
        None => None,
    }
}

/// The name of the header that announces the length of the body.
pub open spec fn length_header() -> Seq<char> {
    "Content-Length"@
}

/// The body length that `block` announces: the value of its `Content-Length`
/// header, read as a decimal number that fits in a `usize`.
pub open spec fn content_length(block: Seq<char>) -> Option<usize> {
    match header_value(block, length_header()) {
        Some(v) => decimal_usize(v),
        None => None,
    }
}

/// The value of the header `name` in `block`.
pub fn find_value(block: &[char], name: &[char]) -> (r: Option<Vec<char>>)
    ensures
        match r {
            Some(v) => header_value(block@, name@) == Some(v@),
            None => header_value(block@, name@) is None,
        },
{
    let all = split_lines(block);
    let mut found: Option<usize> = None;
    let mut i: usize = 0;
    while i < all.len()
        invariant
            i <= all.len(),
            match found {
                Some(k) => k < i && last_holding(rows(all@).take(i as int), name@) == Some(
                    all@[k as int]@,
                ),
                None => last_holding(rows(all@).take(i as int), name@) is None,
            },
        decreases all.len() - i,
    {
        proof {
            let next = rows(all@).take(i + 1);
            assert(next.drop_last() == rows(all@).take(i as int));
        }
        if has_text(all[i].as_slice(), name) {
            found = Some(i);
        }
        i += 1;
    }
    proof {
        assert(rows(all@).take(all.len() as int) == rows(all@));
    }
    match found {
        Some(k) => {
            let sep: Vec<char> = vec![':', ' '];
            text_after(all[k].as_slice(), sep.as_slice())
        },
        None => None,
    }
}

/// The body length that `block` announces.
pub fn announced_length(block: &[char]) -> (r: Option<usize>)
    ensures
        r == content_length(block@),
{
    let name = to_chars("Content-Length");
    match find_value(block, name.as_slice()) {
        Some(v) => parse_decimal(v.as_slice()),
        None => None,
    }
}

/// Header lookup in a header block.
pub struct HeaderLookup;

impl HeaderLookup {
    /// The value of the header `name` in `header_block`.
    pub fn find(header_block: &str, name: &str) -> (r: Option<String>)
        ensures
            match r {
                Some(v) => header_value(header_block@, name@) == Some(v@),
                None => header_value(header_block@, name@) is None,
            },
    {
        let block = to_chars(header_block);
        let wanted = to_chars(name);
        match find_value(block.as_slice(), wanted.as_slice()) {
            Some(v) => Some(to_text(v.as_slice())),
            None => None,
        }
    }
}

} // verus!
