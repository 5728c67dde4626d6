//! Reading one request from a connection, byte by byte.
//!
//! `HttpParser` is a state machine. It starts in `ReadingHead` and takes
//! what the connection gives, one `ReadEvent` at a time. When the head is
//! complete it decodes it, takes the request line and the header block from
//! it and looks for the announced body length. With a positive length it
//! goes on in `ReadingBody` for exactly that many bytes; without one it is
//! `Done` at once, and reads no byte after the head. The end of the stream
//! or a failed read before `Done` ends in `Failed`.
//!
//! The parser does no reading itself: whoever owns the connection reads and
//! hands over what came.

use vstd::prelude::*;
use vstd::utf8::{decode_utf8, valid_utf8};
use crate::error::ErrorKind;
use crate::head::{header_block_of, request_line_of, split_head};
use crate::header::{announced_length, content_length};
use crate::stream::{lemma_parser_reads_request, read_request};
use crate::text::{to_chars, to_text};
use crate::window::{head_complete, HeadScan};

verus! {

/// Where the parser stands.
#[derive(Clone, Copy, Debug, PartialEq, Eq, Structural)]
pub enum State {
    /// The head is not complete yet.
    ReadingHead,
    /// The head is read and body bytes are still to come.
    ReadingBody,
    /// The request is complete.
    Done,
    /// The request cannot be read.
    Failed(ErrorKind),
}

/// What one read from the connection gave.
#[derive(Clone, Copy, Debug, PartialEq, Eq, Structural)]
pub enum ReadEvent {
    /// The next byte of the stream.
    Byte(u8),
    /// The stream is at its end.
    EndOfStream,
    /// The read failed.
    ReadError,
}

/// One request as it was read.
#[derive(Debug, PartialEq, Eq)]
pub struct RawFrame {
    /// The first line of the head, without its line ending.
    pub request_line: String,
    /// The header lines, joined by line feeds.
    pub header_block: String,
    /// The body, where the head announced one.
    pub body: Option<String>,
}

/// A request as plain text.
pub struct FrameView {
    /// The first line of the head, without its line ending.
    pub request_line: Seq<char>,
    /// The header lines, joined by line feeds.
    pub header_block: Seq<char>,
    /// The body, where the head announced one.
    pub body: Option<Seq<char>>,
}

/// The text of an optional string.
pub open spec fn text_of(s: Option<String>) -> Option<Seq<char>> {
    match s {
        Some(t) => Some(t@),
        None => None,
    }
}

impl View for RawFrame {
    type V = FrameView;

    open spec fn view(&self) -> FrameView {
        FrameView {
            request_line: self.request_line@,
            header_block: self.header_block@,
            body: text_of(self.body),
        }
    }
}

/// A result with its frame as plain text.
pub open spec fn frame_text(r: Result<RawFrame, ErrorKind>) -> Result<FrameView, ErrorKind> {
    match r {
        Ok(frame) => Ok(frame@),
        Err(e) => Err(e),
    }
}

/// The parser as plain values.
pub struct ParserView {
    /// Where the parser stands.
    pub state: State,
    /// At least one byte was taken.
    pub started: bool,
    /// The bytes of the head, or of the body, read so far.
    pub buffer: Seq<u8>,
    /// How many body bytes are still to come.
    pub remaining: nat,
    /// The request line, once the head is read.
    pub request_line: Seq<char>,
    /// The header block, once the head is read.
    pub headers: Seq<char>,
    /// The body, once it is read.
    pub body: Option<Seq<char>>,
}

/// The parser before the first byte.
pub open spec fn initial() -> ParserView {
    ParserView {
        state: State::ReadingHead,
        started: false,
        buffer: Seq::empty(),
        remaining: 0,
        request_line: Seq::empty(),
        headers: Seq::empty(),
        body: None,
    }
}

/// The parser still takes bytes.
pub open spec fn reading(v: ParserView) -> bool {
    v.state is ReadingHead || v.state is ReadingBody
}

/// The parser after the complete head `head`.
pub open spec fn after_head(v: ParserView, head: Seq<u8>) -> ParserView {
    if !valid_utf8(head) {
        ParserView { state: State::Failed(ErrorKind::InvalidEncoding), buffer: Seq::empty(), ..v }
    } else {
        let text = decode_utf8(head);
        let request_line = request_line_of(text);
        let headers = header_block_of(text);
        match content_length(headers) {
            Some(n) if n > 0 => ParserView {
                state: State::ReadingBody,
                buffer: Seq::empty(),
                remaining: n as nat,
                request_line,
                headers,
                body: None,
                ..v
            },
            _ => ParserView {
                state: State::Done,
                buffer: Seq::empty(),
                remaining: 0,
                request_line,
                headers,
                body: None,
                ..v
            },
        }
    }
}

/// The parser after the complete body `body`.
pub open spec fn after_body(v: ParserView, body: Seq<u8>) -> ParserView {
    if !valid_utf8(body) {
        ParserView {
            state: State::Failed(ErrorKind::InvalidEncoding),
            buffer: Seq::empty(),
            remaining: 0,
            ..v
        }
    } else {
        ParserView {
            state: State::Done,
            buffer: Seq::empty(),
            remaining: 0,
            body: Some(decode_utf8(body)),
            ..v
        }
    }
}

/// The parser after one more byte. A parser that is `Done` or `Failed` takes
/// no byte and stays as it is.
pub open spec fn on_byte(v: ParserView, b: u8) -> ParserView {
    let w = ParserView { started: true, ..v };
    match v.state {
        State::ReadingHead => {
            let buffer = v.buffer.push(b);
            if head_complete(buffer) {
                after_head(w, buffer)
            } else {
                ParserView { buffer, ..w }
            }
        },
        State::ReadingBody => {
            let buffer = v.buffer.push(b);
            if v.remaining <= 1 {
                after_body(w, buffer)
            } else {
                ParserView { buffer, remaining: (v.remaining - 1) as nat, ..w }
            }
        },
        _ => v,
    }
}

/// The stream was closed before it gave a byte: the parser failed at the
/// end of the stream and had taken nothing. No request was sent at all,
/// where any other `TruncatedStream` cuts a request short.
pub open spec fn closed_clean(v: ParserView) -> bool {
    v.state == State::Failed(ErrorKind::TruncatedStream) && !v.started
}

/// The parser after one event.
pub open spec fn on_event(v: ParserView, event: ReadEvent) -> ParserView {
    match event {
        ReadEvent::Byte(b) => on_byte(v, b),
        ReadEvent::EndOfStream => if reading(v) {
            ParserView { state: State::Failed(ErrorKind::TruncatedStream), ..v }
        } else {
            v
        },
        ReadEvent::ReadError => if reading(v) {
            ParserView { state: State::Failed(ErrorKind::TransportError), ..v }
        } else {
            v
        },
    }
}

/// The parser after the bytes of `bytes`, one after the other.
pub open spec fn run(v: ParserView, bytes: Seq<u8>) -> ParserView
    decreases bytes.len(),
{
    if bytes.len() == 0 {
        v
    } else {
        on_byte(run(v, bytes.drop_last()), bytes.last())
    }
}

/// How many of `bytes` the parser takes before it is `Done` or `Failed`.
pub open spec fn taken(v: ParserView, bytes: Seq<u8>) -> nat
    decreases bytes.len(),
{
    if bytes.len() == 0 {
        0
    } else if reading(run(v, bytes.drop_last())) {
        taken(v, bytes.drop_last()) + 1
    } else {
        taken(v, bytes.drop_last())
    }
}

/// What a parser gives once the stream is over: the frame where it is
/// `Done`, its error where it is `Failed`, and `TruncatedStream` where it
/// was still reading.
pub open spec fn outcome(v: ParserView) -> Result<FrameView, ErrorKind> {
    match v.state {
        State::Done => Ok(
            FrameView { request_line: v.request_line, header_block: v.headers, body: v.body },
        ),
        State::Failed(e) => Err(e),
        _ => Err(ErrorKind::TruncatedStream),
    }
}

/// A parser that is `Done` or `Failed` after the first `i` of `bytes` takes
/// none of the rest.
pub proof fn lemma_run_settled(v: ParserView, bytes: Seq<u8>, i: int)
    requires
        0 <= i <= bytes.len(),
        !reading(run(v, bytes.take(i))),
    ensures
        run(v, bytes) == run(v, bytes.take(i)),
        taken(v, bytes) == taken(v, bytes.take(i)),
    decreases bytes.len(),
{
    if i == bytes.len() {
        assert(bytes.take(i) == bytes);
    } else {
        let front = bytes.drop_last();
        assert(front.take(i) == bytes.take(i));
        lemma_run_settled(v, front, i);
    }
}

/// Bytes given in two parts do what the same bytes do when given at once.
pub proof fn lemma_run_concat(v: ParserView, a: Seq<u8>, b: Seq<u8>)
    ensures
        run(v, a + b) == run(run(v, a), b),
        taken(v, a + b) == taken(v, a) + taken(run(v, a), b),
    decreases b.len(),
{
    if b.len() == 0 {
    } else {
        assert((a + b).drop_last() == a + b.drop_last());
        lemma_run_concat(v, a, b.drop_last());
    }
}

/// The bytes of `chunks`, one chunk after the other.
pub open spec fn concat(chunks: Seq<Seq<u8>>) -> Seq<u8>
    decreases chunks.len(),
{
    if chunks.len() == 0 {
        Seq::empty()
    } else {
        concat(chunks.drop_last()) + chunks.last()
    }
}

/// The parser after it was fed the chunks of `chunks`, one after the other.
pub open spec fn run_chunks(v: ParserView, chunks: Seq<Seq<u8>>) -> ParserView
    decreases chunks.len(),
{
    if chunks.len() == 0 {
        v
    } else {
        run(run_chunks(v, chunks.drop_last()), chunks.last())
    }
}

/// How many bytes the parser took when it was fed the chunks of `chunks`.
pub open spec fn taken_chunks(v: ParserView, chunks: Seq<Seq<u8>>) -> nat
    decreases chunks.len(),
{
    if chunks.len() == 0 {
        0
    } else {
        taken_chunks(v, chunks.drop_last()) + taken(
            run_chunks(v, chunks.drop_last()),
            chunks.last(),
        )
    }
}

/// How the bytes are cut into chunks makes no difference: fed chunk by
/// chunk, in chunks of whatever sizes, the parser comes to the state, and
/// takes the number of bytes, that it comes to when fed the same bytes one
/// at a time or all at once.
pub proof fn lemma_chunks_make_no_difference(v: ParserView, chunks: Seq<Seq<u8>>)
    ensures
        run_chunks(v, chunks) == run(v, concat(chunks)),
        taken_chunks(v, chunks) == taken(v, concat(chunks)),
    decreases chunks.len(),
{
    if chunks.len() > 0 {
        lemma_chunks_make_no_difference(v, chunks.drop_last());
        lemma_run_concat(v, concat(chunks.drop_last()), chunks.last());
    }
}

/// `std::string::FromUtf8Error`, the error of `String::from_utf8`. Nothing is
/// read from it.
#[verifier::external_type_specification]
#[verifier::external_body]
pub struct ExFromUtf8Error(std::string::FromUtf8Error);

/// `String::from_utf8` gives a string exactly where the bytes are valid
/// UTF-8, and the string then holds the characters that the bytes encode.
pub assume_specification[ String::from_utf8 ](vec: Vec<u8>) -> (r: Result<
    String,
    std::string::FromUtf8Error,
>)
    ensures
        r is Ok <==> valid_utf8(vec@),
        r matches Ok(s) ==> s@ == decode_utf8(vec@),
;

/// The incremental reader of one request.
pub struct HttpParser {
    state: State,
    started: bool,
    /// The bytes of the head, while the head is read.
    head: HeadScan,
    /// The bytes of the body, while the body is read; after a failure, the
    /// bytes that were gathered when it came.
    buffer: Vec<u8>,
    remaining: usize,
    request_line: String,
    headers: String,
    body: Option<String>,
}

impl View for HttpParser {
    type V = ParserView;

    closed spec fn view(&self) -> ParserView {
        ParserView {
            state: self.state,
            started: self.started,
            buffer: if self.state is ReadingHead {
                self.head@
            } else {
                self.buffer@
            },
            remaining: self.remaining as nat,
            request_line: self.request_line@,
            headers: self.headers@,
            body: text_of(self.body),
        }
    }
}

impl HttpParser {
    /// A parser before the first byte.
    pub fn new() -> (r: HttpParser)
        ensures
            r@ == initial(),
    {
        HttpParser {
            state: State::ReadingHead,
            started: false,
            head: HeadScan::new(),
            buffer: Vec::new(),
            remaining: 0,
            request_line: String::new(),
            headers: String::new(),
            body: None,
        }
    }

    /// Decodes a complete head and splits it into the request line and the
    /// header block. Fails with `InvalidEncoding` where the head is not
    /// UTF-8.
    pub fn parse_head(head_buffer: Vec<u8>) -> (r: Result<(String, String), ErrorKind>)
        ensures
            match r {
                Ok((request_line, headers)) => {
                    &&& valid_utf8(head_buffer@)
                    &&& request_line@ == request_line_of(decode_utf8(head_buffer@))
                    &&& headers@ == header_block_of(decode_utf8(head_buffer@))
                },
                Err(e) => e == ErrorKind::InvalidEncoding && !valid_utf8(head_buffer@),
            },
    {
        match String::from_utf8(head_buffer) {
            Ok(head) => {
                let chars = to_chars(head.as_str());
                let (request_line, block) = split_head(chars.as_slice());
                Ok((to_text(request_line.as_slice()), to_text(block.as_slice())))
            },
            Err(_) => Err(ErrorKind::InvalidEncoding),
        }
    }

    /// The body length that a header block announces: the value of its
    /// `Content-Length` header as a number. `None` where there is no such
    /// header, and where its value is no decimal number that fits.
    pub fn parse_content_length(headers: &str) -> (r: Option<usize>)
        ensures
            r == content_length(headers@),
    {
        announced_length(to_chars(headers).as_slice())
    }

    /// Ends the reading of the head: decodes the bytes gathered and decides
    /// how to go on.
    fn finish_head(&mut self, head: Vec<u8>)
        requires
            old(self).state is ReadingHead,
        ensures
            final(self)@ == after_head(old(self)@, head@),
    {
        self.buffer = Vec::new();
        match HttpParser::parse_head(head) {
            Ok((request_line, headers)) => {
                let length = HttpParser::parse_content_length(headers.as_str());
                self.request_line = request_line;
                self.headers = headers;
                self.body = None;
                match length {
                    Some(n) if n > 0 => {
                        self.state = State::ReadingBody;
                        self.remaining = n;
                    },
                    _ => {
                        self.state = State::Done;
                        self.remaining = 0;
                    },
                }
            },
            Err(_) => {
                self.state = State::Failed(ErrorKind::InvalidEncoding);
            },
        }
    }

    /// Ends the reading of the body: decodes the bytes gathered.
    fn finish_body(&mut self)
        requires
            old(self).state is ReadingBody,
        ensures
            final(self)@ == after_body(old(self)@, old(self)@.buffer),
    {
        let mut body: Vec<u8> = Vec::new();
        std::mem::swap(&mut body, &mut self.buffer);
        self.remaining = 0;
        match String::from_utf8(body) {
            Ok(text) => {
                self.body = Some(text);
                self.state = State::Done;
            },
            Err(_) => {
                self.state = State::Failed(ErrorKind::InvalidEncoding);
            },
        }
    }

    /// Takes one byte.
    fn push_byte(&mut self, b: u8)
        ensures
            final(self)@ == on_byte(old(self)@, b),
    {
        match self.state {
            State::ReadingHead => {
                self.started = true;
                let mut scan = HeadScan::new();
                std::mem::swap(&mut scan, &mut self.head);
                let scan = scan.push(b);
                if scan.complete() {
                    self.finish_head(scan.into_bytes());
                } else {
                    self.head = scan;
                }
            },
            State::ReadingBody => {
                self.started = true;
                self.buffer.push(b);
                if self.remaining <= 1 {
                    self.finish_body();
                } else {
                    self.remaining = self.remaining - 1;
                }
            },
            _ => {},
        }
    }

    /// Ends the reading with an error, unless it has ended already.
    fn fail(&mut self, error: ErrorKind)
        ensures
            final(self)@ == if reading(old(self)@) {
                ParserView { state: State::Failed(error), ..old(self)@ }
            } else {
                old(self)@
            },
    {
        match self.state {
            State::ReadingHead => {
                let mut scan = HeadScan::new();
                std::mem::swap(&mut scan, &mut self.head);
                self.buffer = scan.into_bytes();
                self.state = State::Failed(error);
            },
            State::ReadingBody => {
                self.state = State::Failed(error);
            },
            _ => {},
        }
    }

    /// Takes one event from the connection.
    pub fn step(&mut self, event: ReadEvent)
        ensures
            final(self)@ == on_event(old(self)@, event),
    {
        match event {
            ReadEvent::Byte(b) => self.push_byte(b),
            ReadEvent::EndOfStream => self.fail(ErrorKind::TruncatedStream),
            ReadEvent::ReadError => self.fail(ErrorKind::TransportError),
        }
    }

    /// Takes bytes from `chunk` until the parser is `Done` or `Failed` or the
    /// chunk is used up, and says how many it took.
    pub fn feed(&mut self, chunk: &[u8]) -> (n: usize)
        ensures
            final(self)@ == run(old(self)@, chunk@),
            n == taken(old(self)@, chunk@),
            n <= chunk.len(),
    {
        let ghost start = self@;
        let mut i: usize = 0;
        while i < chunk.len() && self.is_reading()
            invariant
                i <= chunk.len(),
                self@ == run(start, chunk@.take(i as int)),
                i == taken(start, chunk@.take(i as int)),
            decreases chunk.len() - i,
        {
            proof {
                assert(chunk@.take(i + 1).drop_last() == chunk@.take(i as int));
            }
            self.push_byte(chunk[i]);
            i += 1;
        }
        proof {
            if i < chunk.len() {
                lemma_run_settled(start, chunk@, i as int);
            } else {
                assert(chunk@.take(i as int) == chunk@);
            }
        }
        i
    }

    /// Reads a request from a stream that is held in memory and ends after
    /// `input`. Gives the frame or the error, and how many bytes were taken:
    /// what follows the request in `input` is not taken. A stream that ends
    /// before its first byte is truncated like any other that ends in the
    /// head; it is the one from which no byte was taken.
    pub fn parse(input: &[u8]) -> (r: (Result<RawFrame, ErrorKind>, usize))
        ensures
            frame_text(r.0) == read_request(input@).0,
            r.1 == read_request(input@).1,
    {
        let mut parser = HttpParser::new();
        let n = parser.feed(input);
        proof {
            lemma_parser_reads_request(input@);
        }
        (parser.finish(), n)
    }

    /// Ends the reading: gives the frame where the parser is `Done`, its
    /// error where it is `Failed`, and `TruncatedStream` where it was still
    /// reading.
    pub fn finish(self) -> (r: Result<RawFrame, ErrorKind>)
        ensures
            frame_text(r) == outcome(self@),
    {
        match self.state {
            State::Done => Ok(
                RawFrame {
                    request_line: self.request_line,
                    header_block: self.headers,
                    body: self.body,
                },
            ),
            State::Failed(e) => Err(e),
            _ => Err(ErrorKind::TruncatedStream),
        }
    }

    /// The request line; empty until the head is read.
    pub fn get_request_line(&self) -> (r: String)
        ensures
            r@ == self@.request_line,
    {
        self.request_line.clone()
    }

    /// The header block; empty until the head is read.
    pub fn get_headers(&self) -> (r: String)
        ensures
            r@ == self@.headers,
    {
        self.headers.clone()
    }

    /// The body; `None` until it is read, and where the request has none.
    pub fn get_body(&self) -> (r: Option<String>)
        ensures
            text_of(r) == self@.body,
    {
        match &self.body {
            Some(text) => Some(text.clone()),
            None => None,
        }
    }

    /// Says whether the parser has taken a byte. A parser that failed with
    /// `TruncatedStream` and has taken none saw a stream that was closed
    /// before it gave a request.
    pub fn has_started(&self) -> (b: bool)
        ensures
            b == self@.started,
    {
        self.started
    }

    /// Says whether the stream was closed before it gave a byte.
    pub fn closed_clean(&self) -> (b: bool)
        ensures
            b == closed_clean(self@),
    {
        match self.state {
            State::Failed(ErrorKind::TruncatedStream) => !self.started,
            _ => false,
        }
    }

    /// Says whether the parser still takes bytes.
    pub fn is_reading(&self) -> (b: bool)
        ensures
            b == reading(self@),
    {
        match self.state {
            State::ReadingHead => true,
            State::ReadingBody => true,
            _ => false,
        }
    }

    /// Where the parser stands.
    pub fn state(&self) -> (s: State)
        ensures
            s == self@.state,
    {
        self.state
    }
}

} // verus!
