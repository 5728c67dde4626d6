//! What a stream of bytes holds as a request, said without the state
//! machine, and the proof that the parser reads exactly that.
//!
//! The head is the shortest beginning of the stream that ends with the
//! terminator. Where the head announces a positive body length, the body is
//! that many bytes after the head.

use vstd::prelude::*;
use vstd::utf8::{decode_utf8, decode_utf8_encode_utf8, encode_utf8, valid_utf8};
use crate::error::ErrorKind;
use crate::frame::{
    after_body, after_head, closed_clean, initial, lemma_run_concat, lemma_run_settled, on_byte,
    on_event, outcome, reading, run, taken, FrameView, ParserView, ReadEvent, State,
};
use crate::head::{header_block_of, request_line_of};
use crate::header::{content_length, header_value, length_header};
use crate::window::{head_complete, terminator};

verus! {

/// The first `n` bytes of `input` are its head: they end a head, and no
/// shorter beginning does.
pub open spec fn ends_head(input: Seq<u8>, n: int) -> bool {
    &&& 0 <= n <= input.len()
    &&& head_complete(input.take(n))
    &&& forall|k: int| 0 <= k < n ==> !head_complete(#[trigger] input.take(k))
}

/// `input` holds a complete head.
pub open spec fn has_head(input: Seq<u8>) -> bool {
    exists|n: int| ends_head(input, n)
}

/// The length of the head of `input`, where it has one.
pub open spec fn head_len(input: Seq<u8>) -> int {
    choose|n: int| ends_head(input, n)
}

/// The body length that the head `head` announces; 0 where it announces
/// none.
pub open spec fn body_len(head: Seq<u8>) -> nat {
    match content_length(header_block_of(decode_utf8(head))) {
        Some(n) => n as nat,
        None => 0,
    }
}

/// The frame with the request line and header block of `head`.
pub open spec fn frame_of(head: Seq<u8>, body: Option<Seq<char>>) -> FrameView {
    FrameView {
        request_line: request_line_of(decode_utf8(head)),
        header_block: header_block_of(decode_utf8(head)),
        body,
    }
}

/// What a stream that ends after `input` holds, and how many of its bytes
/// belong to the request or were read in search of it.
pub open spec fn read_request(input: Seq<u8>) -> (Result<FrameView, ErrorKind>, nat) {
    if !has_head(input) {
        (Err(ErrorKind::TruncatedStream), input.len())
    } else {
        let h = head_len(input);
        let head = input.take(h);
        let n = body_len(head);
        if !valid_utf8(head) {
            (Err(ErrorKind::InvalidEncoding), h as nat)
        } else if n == 0 {
            (Ok(frame_of(head, None)), h as nat)
        } else if input.len() < h + n {
            (Err(ErrorKind::TruncatedStream), input.len())
        } else {
            let body = input.subrange(h, h + n);
            if !valid_utf8(body) {
                (Err(ErrorKind::InvalidEncoding), (h + n) as nat)
            } else {
                (Ok(frame_of(head, Some(decode_utf8(body)))), (h + n) as nat)
            }
        }
    }
}

/// A stream has at most one head.
pub proof fn lemma_head_unique(input: Seq<u8>, n: int)
    requires
        ends_head(input, n),
    ensures
        has_head(input),
        head_len(input) == n,
{
}

/// The parser that has taken a byte and nothing else of it.
pub open spec fn begun() -> ParserView {
    ParserView { started: true, ..initial() }
}

/// While no beginning of the stream ends a head, the parser only gathers
/// bytes.
proof fn lemma_reading_head(input: Seq<u8>, k: int)
    requires
        0 <= k <= input.len(),
        forall|j: int| 0 <= j <= k ==> !head_complete(#[trigger] input.take(j)),
    ensures
        run(initial(), input.take(k)) == (ParserView {
            buffer: input.take(k),
            started: k > 0,
            ..initial()
        }),
        taken(initial(), input.take(k)) == k,
    decreases k,
{
    let s = input.take(k);
    if k == 0 {
        assert(s == Seq::<u8>::empty());
    } else {
        assert(s.drop_last() == input.take(k - 1));
        lemma_reading_head(input, k - 1);
        assert(input.take(k - 1).push(input[k - 1]) == s);
    }
}

/// On a stream without a head the parser gathers every byte and goes on
/// reading the head.
pub proof fn lemma_no_head(input: Seq<u8>)
    requires
        !has_head(input),
    ensures
        run(initial(), input) == (ParserView {
            buffer: input,
            started: input.len() > 0,
            ..initial()
        }),
        taken(initial(), input) == input.len(),
{
    assert forall|j: int| 0 <= j <= input.len() implies !head_complete(
        #[trigger] input.take(j),
    ) by {
        if head_complete(input.take(j)) {
            lemma_first_head(input, j);
        }
    }
    lemma_reading_head(input, input.len() as int);
    assert(input.take(input.len() as int) == input);
}

/// At the end of the head the parser decides how to go on.
proof fn lemma_head_read(input: Seq<u8>, h: int)
    requires
        ends_head(input, h),
    ensures
        run(initial(), input.take(h)) == after_head(begun(), input.take(h)),
        taken(initial(), input.take(h)) == h,
{
    let s = input.take(h);
    assert(h > 0) by {
        if h == 0 {
            assert(terminator().len() == 4);
        }
    }
    assert(s.drop_last() == input.take(h - 1));
    lemma_reading_head(input, h - 1);
    assert(input.take(h - 1).push(input[h - 1]) == s);
}

/// While fewer bytes than announced have come, the parser gathers them; with
/// the last one it decodes the body.
proof fn lemma_reading_body(v: ParserView, bytes: Seq<u8>)
    requires
        v.state is ReadingBody,
        v.remaining >= 1,
    ensures
        bytes.len() < v.remaining ==> run(v, bytes) == (ParserView {
            buffer: v.buffer + bytes,
            remaining: (v.remaining - bytes.len()) as nat,
            started: v.started || bytes.len() > 0,
            ..v
        }),
        bytes.len() >= v.remaining ==> run(v, bytes) == after_body(
            ParserView { started: true, ..v },
            v.buffer + bytes.take(v.remaining as int),
        ),
        taken(v, bytes) == if bytes.len() < v.remaining {
            bytes.len()
        } else {
            v.remaining
        },
    decreases bytes.len(),
{
    let r = v.remaining as int;
    if bytes.len() > 0 {
        let front = bytes.drop_last();
        lemma_reading_body(v, front);
        if bytes.len() < r {
            assert((v.buffer + front).push(bytes.last()) == v.buffer + bytes);
        } else if bytes.len() == r {
            assert((v.buffer + front).push(bytes.last()) == v.buffer + bytes);
            assert(bytes.take(r) == bytes);
        } else {
            assert(front.take(r) == bytes.take(r));
        }
    }
}

/// The parser reads what the stream holds: after all of `input` it gives
/// the result of `read_request`, and has taken as many bytes as that says.
pub proof fn lemma_parser_reads_request(input: Seq<u8>)
    ensures
        outcome(run(initial(), input)) == read_request(input).0,
        taken(initial(), input) == read_request(input).1,
{
    if !has_head(input) {
        lemma_no_head(input);
    } else {
        let h = head_len(input);
        let head = input.take(h);
        let rest = input.skip(h);
        lemma_head_read(input, h);
        assert(head + rest == input);
        lemma_run_concat(initial(), head, rest);
        let v = after_head(begun(), head);
        if !reading(v) {
            lemma_run_settled(v, rest, 0);
        } else {
            lemma_reading_body(v, rest);
            let n = body_len(head);
            if rest.len() >= n {
                assert(v.buffer + rest.take(n as int) == input.subrange(h, h + n));
            }
        }
    }
}

/// A request without a `Content-Length` header has no body, and the parser
/// takes no byte after the head. The same holds where the header is there
/// and its value is no number, or is zero: for a stream whose head is valid
/// UTF-8 and announces no body, the parser is `Done` with no body and has
/// taken exactly the bytes of the head, whatever follows them.
pub proof fn lemma_no_length_no_body(input: Seq<u8>)
    requires
        has_head(input),
        valid_utf8(input.take(head_len(input))),
        header_value(
            header_block_of(decode_utf8(input.take(head_len(input)))),
            length_header(),
        ) is None || body_len(input.take(head_len(input))) == 0,
    ensures
        run(initial(), input).state == State::Done,
        run(initial(), input).body is None,
        taken(initial(), input) == head_len(input),
        read_request(input) == (
            Ok::<FrameView, ErrorKind>(frame_of(input.take(head_len(input)), None)),
            head_len(input) as nat,
        ),
{
    lemma_parser_reads_request(input);
}

/// A stream that ends too early is truncated: where the stream ends before
/// its head is complete, or its head announces a body and the stream ends
/// before the body has the announced length, the parser does not come to
/// `Done`, and the result is `TruncatedStream`.
pub proof fn lemma_short_stream_truncated(input: Seq<u8>)
    requires
        !has_head(input) || (valid_utf8(input.take(head_len(input))) && input.len() < head_len(
            input,
        ) + body_len(input.take(head_len(input)))),
    ensures
        reading(run(initial(), input)),
        outcome(run(initial(), input)) == Err::<FrameView, ErrorKind>(ErrorKind::TruncatedStream),
        outcome(on_event(run(initial(), input), ReadEvent::EndOfStream)) == Err::<
            FrameView,
            ErrorKind,
        >(ErrorKind::TruncatedStream),
        read_request(input).0 == Err::<FrameView, ErrorKind>(ErrorKind::TruncatedStream),
{
    if !has_head(input) {
        lemma_no_head(input);
    } else {
        let h = head_len(input);
        let head = input.take(h);
        let rest = input.skip(h);
        lemma_head_read(input, h);
        assert(head + rest == input);
        lemma_run_concat(initial(), head, rest);
        lemma_reading_body(after_head(begun(), head), rest);
    }
}

/// A parser that was reading has started once it was given a byte.
proof fn lemma_started(v: ParserView, bytes: Seq<u8>)
    requires
        reading(v),
        bytes.len() > 0,
    ensures
        run(v, bytes).started,
    decreases bytes.len(),
{
    let front = bytes.drop_last();
    let before = run(v, front);
    if front.len() > 0 {
        lemma_started(v, front);
    } else {
        assert(before == v);
    }
    assert(on_byte(before, bytes.last()).started);
}

/// A stream that is closed before its first byte is told apart from one
/// that is cut short: at the end of the stream the parser says that the
/// stream was closed clean exactly where the stream gave no byte at all.
pub proof fn lemma_clean_close(input: Seq<u8>)
    ensures
        run(initial(), input).started == (input.len() > 0),
        closed_clean(on_event(run(initial(), input), ReadEvent::EndOfStream)) <==> input.len()
            == 0,
{
    if input.len() > 0 {
        lemma_started(initial(), input);
    }
}

/// A frame has a body exactly where its header block announces a positive
/// length, and the body then has that length in bytes: the parser never
/// gives a shorter or a longer one.
pub proof fn lemma_body_as_announced(input: Seq<u8>)
    ensures
        match outcome(run(initial(), input)) {
            Ok(frame) => match frame.body {
                Some(body) => body.len() > 0 && content_length(frame.header_block) == Some(
                    encode_utf8(body).len() as usize,
                ) && encode_utf8(body).len() <= usize::MAX,
                None => content_length(frame.header_block) is None || content_length(
                    frame.header_block,
                ) == Some(0usize),
            },
            Err(_) => true,
        },
{
    lemma_parser_reads_request(input);
    if has_head(input) {
        let h = head_len(input);
        let head = input.take(h);
        let n = body_len(head);
        if valid_utf8(head) && n > 0 && input.len() >= h + n {
            let body = input.subrange(h, h + n);
            if valid_utf8(body) {
                decode_utf8_encode_utf8(body);
            }
        }
    }
}

/// Where some beginning of the stream ends a head, the stream has a head.
pub proof fn lemma_first_head(input: Seq<u8>, j: int)
    requires
        0 <= j <= input.len(),
        head_complete(input.take(j)),
    ensures
        has_head(input),
        head_len(input) <= j,
    decreases j,
{
    if exists|k: int| 0 <= k < j && head_complete(#[trigger] input.take(k)) {
        let k = choose|k: int| 0 <= k < j && head_complete(#[trigger] input.take(k));
        lemma_first_head(input, k);
    } else {
        lemma_head_unique(input, j);
    }
}

} // verus!
