//! A request as it stands on the wire, and the proof that reading it gives
//! back what was written.
//!
//! On the wire the request line and every header line end with `\r\n`, an
//! empty line ends the head, and the body follows without an ending of its
//! own. The text is encoded in UTF-8.

use vstd::prelude::*;
use vstd::string::*;
use vstd::utf8::{
    decode_utf8, decode_utf8_encode_utf8, encode_utf8, encode_utf8_decode_utf8,
    encode_utf8_valid_utf8, valid_utf8,
};
use crate::encoding::{lemma_encode_concat, lemma_encode_crlf, lemma_encode_line};
use crate::error::ErrorKind;
use crate::frame::{
    concat, initial, lemma_chunks_make_no_difference, outcome, run_chunks, taken_chunks,
    FrameView,
};
use crate::head::{header_block_of, header_lines_of, non_empty, request_line_of};
use crate::header::{content_length, last_holding, length_header, name_end};
use crate::stream::{lemma_head_unique, lemma_parser_reads_request, read_request};
use crate::text::number::{decimal_text, lemma_decimal_text_reads_back};
use crate::text::pieces::{
    crlf, is_line, join, lemma_lines_of_join, lemma_split_first, lines, split, strip_each,
};
use crate::text::search::{after_first, contains_text, first_at, occurs_at};
use crate::window::{
    head_complete, lemma_head_at_second_line_end, lemma_no_head_empty, lemma_no_head_line_end,
    lemma_no_head_plain, line_end, no_head_in, window_after, Window,
};

verus! {

/// Every one of `headers` is a header line: not empty, and free of carriage
/// return and line feed.
pub open spec fn header_lines(headers: Seq<Seq<char>>) -> bool {
    forall|i: int| 0 <= i < headers.len() ==> is_line(#[trigger] headers[i]) && headers[i].len() > 0
}

/// The header lines as they stand in a head, each with its line ending.
pub open spec fn header_part(headers: Seq<Seq<char>>) -> Seq<char>
    decreases headers.len(),
{
    if headers.len() == 0 {
        Seq::empty()
    } else {
        headers[0] + crlf() + header_part(headers.drop_first())
    }
}

/// The head of a request: the request line, the header lines and the empty
/// line that ends the head.
pub open spec fn head_text(request_line: Seq<char>, headers: Seq<Seq<char>>) -> Seq<char> {
    request_line + crlf() + header_part(headers) + crlf()
}

/// The bytes of a request: the head, encoded in UTF-8, and the body.
pub open spec fn serialize(request_line: Seq<char>, headers: Seq<Seq<char>>, body: Seq<u8>) -> Seq<
    u8,
> {
    encode_utf8(head_text(request_line, headers)) + body
}

/// Every one of `all` with a carriage return at its end.
pub open spec fn with_cr(all: Seq<Seq<char>>) -> Seq<Seq<char>> {
    all.map_values(|l: Seq<char>| l.push('\r'))
}

/// Split at line feeds, the header lines of a head give one piece each, with
/// the carriage return of its line ending at its end.
proof fn lemma_split_header_part(headers: Seq<Seq<char>>, tail: Seq<char>)
    requires
        header_lines(headers),
    ensures
        split(header_part(headers) + tail, '\n') == with_cr(headers) + split(tail, '\n'),
    decreases headers.len(),
{
    if headers.len() > 0 {
        let first = headers[0];
        let rest = headers.drop_first();
        assert(header_lines(rest));
        lemma_split_header_part(rest, tail);
        let a = first.push('\r');
        assert(!a.contains('\n'));
        lemma_split_first(a, header_part(rest) + tail, '\n');
        assert(a.push('\n') + (header_part(rest) + tail) == header_part(headers) + tail);
    }
}

/// Where no line is empty, all lines are kept.
proof fn lemma_non_empty_all(all: Seq<Seq<char>>)
    requires
        forall|i: int| 0 <= i < all.len() ==> (#[trigger] all[i]).len() > 0,
    ensures
        non_empty(all) == all,
    decreases all.len(),
{
    if all.len() > 0 {
        let front = all.drop_last();
        lemma_non_empty_all(front);
    }
}

/// The lines of a head are its request line, its header lines and the empty
/// line at its end.
pub proof fn lemma_lines_of_head(request_line: Seq<char>, headers: Seq<Seq<char>>)
    requires
        is_line(request_line),
        header_lines(headers),
    ensures
        lines(head_text(request_line, headers)) == seq![request_line] + headers + seq![
            Seq::<char>::empty(),
        ],
        request_line_of(head_text(request_line, headers)) == request_line,
        header_lines_of(head_text(request_line, headers)) == headers,
        header_block_of(head_text(request_line, headers)) == join(headers, '\n'),
{
    let text = head_text(request_line, headers);
    let a = request_line.push('\r');
    let tail = crlf();
    assert(!a.contains('\n'));
    assert(text == a.push('\n') + (header_part(headers) + tail));
    lemma_split_first(a, header_part(headers) + tail, '\n');
    lemma_split_header_part(headers, tail);
    let cr = seq!['\r'];
    let none = Seq::<char>::empty();
    assert(split(tail, '\n') == seq![cr, none]) by {
        assert(tail == cr.push('\n') + none);
        lemma_split_first(cr, none, '\n');
    }
    let ended = seq![a] + with_cr(headers) + seq![cr];
    let all = seq![request_line] + headers + seq![none];
    assert(strip_each(ended) == all) by {
        assert forall|i: int| 0 <= i < all.len() implies strip_each(ended)[i] == all[i] by {
        }
    }
    assert(all.skip(1) == headers + seq![none]);
    assert((headers + seq![none]).drop_last() == headers);
    lemma_non_empty_all(headers);
}

/// After a line ending, header lines with their line endings end no head,
/// and leave one line ending at the end.
proof fn lemma_headers_end_no_head(a: Seq<u8>, headers: Seq<Seq<char>>)
    requires
        no_head_in(a),
        window_after(a) == Window::CrLf,
        header_lines(headers),
    ensures
        no_head_in(a + encode_utf8(header_part(headers))),
        window_after(a + encode_utf8(header_part(headers))) == Window::CrLf,
    decreases headers.len(),
{
    if headers.len() > 0 {
        let first = headers[0];
        let rest = headers.drop_first();
        assert(header_lines(rest));
        lemma_encode_line(first);
        lemma_encode_crlf();
        lemma_encode_concat(first + crlf(), header_part(rest));
        lemma_encode_concat(first, crlf());
        let b = a + encode_utf8(first);
        lemma_no_head_plain(a, encode_utf8(first));
        lemma_no_head_line_end(b);
        let c = b + line_end();
        lemma_headers_end_no_head(c, rest);
        assert(c + encode_utf8(header_part(rest)) == a + encode_utf8(header_part(headers)));
    }
}

/// The encoded head of a request ends a head, and no shorter beginning of
/// it does.
pub proof fn lemma_head_bytes(request_line: Seq<char>, headers: Seq<Seq<char>>)
    requires
        is_line(request_line),
        header_lines(headers),
    ensures
        head_complete(encode_utf8(head_text(request_line, headers))),
        forall|k: int|
            0 <= k < encode_utf8(head_text(request_line, headers)).len() ==> !head_complete(
                #[trigger] encode_utf8(head_text(request_line, headers)).take(k),
            ),
{
    let first = encode_utf8(request_line);
    lemma_encode_line(request_line);
    lemma_encode_crlf();
    lemma_no_head_empty();
    lemma_no_head_plain(Seq::<u8>::empty(), first);
    assert(Seq::<u8>::empty() + first == first);
    lemma_no_head_line_end(first);
    let a = first + line_end();
    lemma_headers_end_no_head(a, headers);
    let b = a + encode_utf8(header_part(headers));
    lemma_head_at_second_line_end(b);
    assert(b + line_end() == encode_utf8(head_text(request_line, headers))) by {
        lemma_encode_concat(request_line + crlf() + header_part(headers), crlf());
        lemma_encode_concat(request_line + crlf(), header_part(headers));
        lemma_encode_concat(request_line, crlf());
    }
}

/// Reading a written request gives it back. For a request line and header
/// lines free of line breaks, no header line empty, and a body of valid
/// UTF-8 whose length in bytes is positive and is what the headers
/// announce: the frame read from the bytes of the request has that request
/// line, the header lines joined by line feeds as its header block, and the
/// text of the body; and all the bytes are taken.
pub proof fn lemma_read_serialized(
    request_line: Seq<char>,
    headers: Seq<Seq<char>>,
    body: Seq<u8>,
)
    requires
        is_line(request_line),
        header_lines(headers),
        valid_utf8(body),
        body.len() > 0,
        content_length(join(headers, '\n')) matches Some(n) && n == body.len(),
    ensures
        read_request(serialize(request_line, headers, body)) == (
            Ok::<FrameView, ErrorKind>(
                FrameView {
                    request_line,
                    header_block: join(headers, '\n'),
                    body: Some(decode_utf8(body)),
                },
            ),
            serialize(request_line, headers, body).len(),
        ),
{
    let text = head_text(request_line, headers);
    let head = encode_utf8(text);
    let input = serialize(request_line, headers, body);
    let h = head.len() as int;
    lemma_head_bytes(request_line, headers);
    assert(input.take(h) == head);
    assert forall|k: int| 0 <= k < h implies !head_complete(#[trigger] input.take(k)) by {
        assert(input.take(k) == head.take(k));
    }
    lemma_head_unique(input, h);
    encode_utf8_valid_utf8(text);
    encode_utf8_decode_utf8(text);
    lemma_lines_of_head(request_line, headers);
    assert(input.subrange(h, h + body.len()) == body);
}

/// The header line that announces a body of `n` bytes: `Content-Length`, a
/// colon and a space, and `n` in base ten.
pub open spec fn length_line(n: nat) -> Seq<char> {
    length_header() + name_end() + decimal_text(n)
}

/// `Content-Length` has fourteen characters, none of them a colon or a line
/// break.
proof fn lemma_length_header()
    ensures
        length_header().len() == 14,
        forall|i: int|
            0 <= i < 14 ==> (#[trigger] length_header()[i]) != ':' && length_header()[i] != '\r'
                && length_header()[i] != '\n',
{
    reveal_strlit("Content-Length");
}

/// The line that announces `n` bytes is a header line that holds
/// `Content-Length`.
proof fn lemma_length_line_is_line(n: nat)
    ensures
        is_line(length_line(n)),
        length_line(n).len() > 0,
        contains_text(length_line(n), length_header()),
{
    let name = length_header();
    let line = length_line(n);
    lemma_length_header();
    lemma_decimal_text_reads_back(n);
    assert forall|i: int| 0 <= i < line.len() implies line[i] != '\r' && line[i] != '\n' by {
    }
    assert(occurs_at(line, name, 0)) by {
        assert(line.subrange(0, 14) == name);
    }
}

/// The line that announces `n` bytes is a header line that holds
/// `Content-Length`, and its value is `n` in base ten.
pub proof fn lemma_length_line(n: nat)
    ensures
        is_line(length_line(n)),
        length_line(n).len() > 0,
        contains_text(length_line(n), length_header()),
        after_first(length_line(n), name_end()) == Some(decimal_text(n)),
{
    let sep = name_end();
    let line = length_line(n);
    lemma_length_header();
    lemma_length_line_is_line(n);
    assert(occurs_at(line, sep, 14)) by {
        assert(line.subrange(14, 16) == sep);
    }
    assert(first_at(line, sep, 14));
}

/// Header lines whose last line with `Content-Length` in it is the line
/// that announces `n` bytes announce `n` bytes.
pub proof fn lemma_announced_length(headers: Seq<Seq<char>>, n: nat)
    requires
        header_lines(headers),
        last_holding(headers, length_header()) == Some(length_line(n)),
        n <= usize::MAX,
    ensures
        content_length(join(headers, '\n')) == Some(n as usize),
{
    lemma_lines_of_join(headers);
    lemma_length_line(n);
    lemma_decimal_text_reads_back(n);
}

/// Round trip. For a request line and header lines free of line breaks, no
/// header line empty, and a body text that is not empty and whose length in
/// bytes is what the headers announce: the frame read from the bytes of the
/// request, with the body encoded in UTF-8, has that request line, the
/// header lines joined by line feeds as its header block, and that body.
pub proof fn lemma_round_trip(request_line: Seq<char>, headers: Seq<Seq<char>>, body: Seq<char>)
    requires
        is_line(request_line),
        header_lines(headers),
        body.len() > 0,
        content_length(join(headers, '\n')) matches Some(n) && n == encode_utf8(body).len(),
    ensures
        read_request(serialize(request_line, headers, encode_utf8(body))) == (
            Ok::<FrameView, ErrorKind>(
                FrameView { request_line, header_block: join(headers, '\n'), body: Some(body) },
            ),
            serialize(request_line, headers, encode_utf8(body)).len(),
        ),
{
    encode_utf8_valid_utf8(body);
    encode_utf8_decode_utf8(body);
    lemma_read_serialized(request_line, headers, encode_utf8(body));
}

/// A written request is read back however it is delivered: cut into chunks
/// of whatever sizes and fed chunk by chunk, the parser comes to `Done`
/// with the frame of `lemma_read_serialized`, and has taken all the bytes.
pub proof fn lemma_read_serialized_in_chunks(
    request_line: Seq<char>,
    headers: Seq<Seq<char>>,
    body: Seq<u8>,
    chunks: Seq<Seq<u8>>,
)
    requires
        is_line(request_line),
        header_lines(headers),
        valid_utf8(body),
        body.len() > 0,
        content_length(join(headers, '\n')) matches Some(n) && n == body.len(),
        concat(chunks) == serialize(request_line, headers, body),
    ensures
        outcome(run_chunks(initial(), chunks)) == Ok::<FrameView, ErrorKind>(
            FrameView {
                request_line,
                header_block: join(headers, '\n'),
                body: Some(decode_utf8(body)),
            },
        ),
        encode_utf8(decode_utf8(body)) == body,
        taken_chunks(initial(), chunks) == serialize(request_line, headers, body).len(),
{
    lemma_chunks_make_no_difference(initial(), chunks);
    lemma_parser_reads_request(concat(chunks));
    lemma_read_serialized(request_line, headers, body);
    decode_utf8_encode_utf8(body);
}

} // verus!
