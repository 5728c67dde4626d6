//! Finding the end of a request's head in a stream of bytes.
//!
//! The head ends with an empty line: it is complete as soon as the last four
//! bytes read are `\r\n\r\n`, whatever stands before them.
//!
//! `Window` says how much of these four bytes the end of what was read
//! spells, and follows it byte by byte without looking back. `HeadScan`
//! gathers the bytes of a head with their window.

use vstd::prelude::*;

verus! {

/// Carriage return.
pub const CR: u8 = 13;

/// Line feed.
pub const LF: u8 = 10;

/// `b` is a carriage return or a line feed.
pub open spec fn is_break(b: u8) -> bool {
    b == CR || b == LF
}

/// The two bytes that end a line.
pub open spec fn line_end() -> Seq<u8> {
    seq![CR, LF]
}

/// The four bytes that end a head.
pub open spec fn terminator() -> Seq<u8> {
    seq![CR, LF, CR, LF]
}

/// `s` ends with the bytes of `p`.
pub open spec fn ends_with(s: Seq<u8>, p: Seq<u8>) -> bool {
    s.len() >= p.len() && s.subrange(s.len() - p.len(), s.len() as int) == p
}

/// `s` ends a head: its last four bytes are the terminator.
pub open spec fn head_complete(s: Seq<u8>) -> bool {
    s.len() >= 4 && s.subrange(s.len() - 4, s.len() as int) == terminator()
}

/// How much of the terminator the end of the bytes spells.
#[derive(Clone, Copy, Debug, PartialEq, Eq, Structural)]
pub enum Window {
    /// Nothing of it.
    Empty,
    /// `\r`.
    Cr,
    /// `\r\n`.
    CrLf,
    /// `\r\n\r`.
    CrLfCr,
    /// `\r\n\r\n`: the head is complete.
    Terminator,
}

/// The window after all of `s`: the longest beginning of the terminator
/// that `s` ends with.
pub open spec fn window_after(s: Seq<u8>) -> Window {
    if ends_with(s, terminator()) {
        Window::Terminator
    } else if ends_with(s, terminator().take(3)) {
        Window::CrLfCr
    } else if ends_with(s, terminator().take(2)) {
        Window::CrLf
    } else if ends_with(s, terminator().take(1)) {
        Window::Cr
    } else {
        Window::Empty
    }
}

/// The window after one more byte.
pub open spec fn next_window(w: Window, b: u8) -> Window {
    if b == CR {
        match w {
            Window::CrLf => Window::CrLfCr,
            Window::Terminator => Window::CrLfCr,
            _ => Window::Cr,
        }
    } else if b == LF {
        match w {
            Window::Cr => Window::CrLf,
            Window::CrLfCr => Window::Terminator,
            _ => Window::Empty,
        }
    } else {
        Window::Empty
    }
}

/// What it is to end with a beginning of the terminator, byte by byte.
proof fn lemma_ends_with(s: Seq<u8>)
    ensures
        ends_with(s, terminator().take(1)) <==> s.len() >= 1 && s[s.len() - 1] == CR,
        ends_with(s, terminator().take(2)) <==> s.len() >= 2 && s[s.len() - 2] == CR && s[s.len()
            - 1] == LF,
        ends_with(s, terminator().take(3)) <==> s.len() >= 3 && s[s.len() - 3] == CR && s[s.len()
            - 2] == LF && s[s.len() - 1] == CR,
        ends_with(s, terminator()) <==> s.len() >= 4 && s[s.len() - 4] == CR && s[s.len() - 3]
            == LF && s[s.len() - 2] == CR && s[s.len() - 1] == LF,
{
    let n = s.len() as int;
    let t = terminator();
    if n >= 1 {
        let e = s.subrange(n - 1, n);
        assert(e[0] == s[n - 1]);
        if s[n - 1] == CR {
            assert(e =~= t.take(1));
        } else {
            assert(t.take(1)[0] == CR);
        }
    }
    if n >= 2 {
        let e = s.subrange(n - 2, n);
        assert(e[0] == s[n - 2] && e[1] == s[n - 1]);
        if s[n - 2] == CR && s[n - 1] == LF {
            assert(e =~= t.take(2));
        } else {
            assert(t.take(2)[0] == CR && t.take(2)[1] == LF);
        }
    }
    if n >= 3 {
        let e = s.subrange(n - 3, n);
        assert(e[0] == s[n - 3] && e[1] == s[n - 2] && e[2] == s[n - 1]);
        if s[n - 3] == CR && s[n - 2] == LF && s[n - 1] == CR {
            assert(e =~= t.take(3));
        } else {
            assert(t.take(3)[0] == CR && t.take(3)[1] == LF && t.take(3)[2] == CR);
        }
    }
    if n >= 4 {
        let e = s.subrange(n - 4, n);
        assert(e[0] == s[n - 4] && e[1] == s[n - 3] && e[2] == s[n - 2] && e[3] == s[n - 1]);
        if s[n - 4] == CR && s[n - 3] == LF && s[n - 2] == CR && s[n - 1] == LF {
            assert(e =~= t);
        } else {
            assert(t[0] == CR && t[1] == LF && t[2] == CR && t[3] == LF);
        }
    }
}

/// Following the bytes one by one gives the window of all of them.
pub proof fn lemma_window_step(s: Seq<u8>, b: u8)
    ensures
        window_after(s.push(b)) == next_window(window_after(s), b),
{
    let t = s.push(b);
    lemma_ends_with(s);
    lemma_ends_with(t);
}

/// The window tells whether the head is complete.
pub proof fn lemma_window_complete(s: Seq<u8>)
    ensures
        window_after(s) == Window::Terminator <==> head_complete(s),
{
}

/// `s` holds neither the byte of a carriage return nor that of a line feed.
pub open spec fn no_breaks(s: Seq<u8>) -> bool {
    forall|i: int| 0 <= i < s.len() ==> !is_break(#[trigger] s[i])
}

/// No beginning of `s`, and not `s` itself, ends a head.
pub open spec fn no_head_in(s: Seq<u8>) -> bool {
    forall|k: int| 0 <= k <= s.len() ==> !head_complete(#[trigger] s.take(k))
}

/// Nothing ends a head in an empty stream.
pub proof fn lemma_no_head_empty()
    ensures
        no_head_in(Seq::<u8>::empty()),
        window_after(Seq::<u8>::empty()) == Window::Empty,
{
}

/// One more byte ends no head unless it completes the terminator.
pub proof fn lemma_no_head_push(s: Seq<u8>, b: u8)
    requires
        no_head_in(s),
        next_window(window_after(s), b) != Window::Terminator,
    ensures
        no_head_in(s.push(b)),
        window_after(s.push(b)) == next_window(window_after(s), b),
{
    let t = s.push(b);
    lemma_window_step(s, b);
    lemma_window_complete(t);
    assert forall|k: int| 0 <= k <= t.len() implies !head_complete(#[trigger] t.take(k)) by {
        if k <= s.len() {
            assert(t.take(k) == s.take(k));
        } else {
            assert(t.take(k) == t);
        }
    }
}

/// Bytes that are no line breaks end no head, and leave no line break at
/// the end.
pub proof fn lemma_no_head_plain(a: Seq<u8>, b: Seq<u8>)
    requires
        no_head_in(a),
        no_breaks(b),
    ensures
        no_head_in(a + b),
        b.len() > 0 ==> window_after(a + b) == Window::Empty,
    decreases b.len(),
{
    if b.len() == 0 {
    } else {
        let front = b.drop_last();
        assert(no_breaks(front));
        lemma_no_head_plain(a, front);
        assert(a + b == (a + front).push(b.last()));
        lemma_no_head_push(a + front, b.last());
    }
}

/// The first line ending after bytes that are no line breaks, or at the
/// very beginning, ends no head.
pub proof fn lemma_no_head_line_end(a: Seq<u8>)
    requires
        no_head_in(a),
        window_after(a) == Window::Empty,
    ensures
        no_head_in(a + line_end()),
        window_after(a + line_end()) == Window::CrLf,
{
    lemma_no_head_push(a, CR);
    lemma_no_head_push(a.push(CR), LF);
    assert(a + line_end() == a.push(CR).push(LF));
}

/// A second line ending directly after the first ends the head, and no
/// sooner than with its last byte.
pub proof fn lemma_head_at_second_line_end(a: Seq<u8>)
    requires
        no_head_in(a),
        window_after(a) == Window::CrLf,
    ensures
        head_complete(a + line_end()),
        forall|k: int| 0 <= k < a.len() + 2 ==> !head_complete(#[trigger] (a + line_end()).take(k)),
{
    let t = a + line_end();
    lemma_no_head_push(a, CR);
    lemma_window_step(a.push(CR), LF);
    lemma_window_complete(a.push(CR).push(LF));
    assert(t == a.push(CR).push(LF));
    assert forall|k: int| 0 <= k < a.len() + 2 implies !head_complete(#[trigger] t.take(k)) by {
        assert(t.take(k) == a.push(CR).take(k));
    }
}

/// The bytes of a head as far as they are read, together with their
/// window.
pub struct HeadScan {
    bytes: Vec<u8>,
    window: Window,
}

impl View for HeadScan {
    type V = Seq<u8>;

    closed spec fn view(&self) -> Seq<u8> {
        self.bytes@
    }
}

impl HeadScan {
    /// The window is that of the bytes.
    #[verifier::type_invariant]
    spec fn consistent(self) -> bool {
        self.window == window_after(self.bytes@)
    }

    /// A scan of no bytes.
    pub fn new() -> (r: HeadScan)
        ensures
            r@ == Seq::<u8>::empty(),
    {
        proof {
            lemma_no_head_empty();
        }
        HeadScan { bytes: Vec::new(), window: Window::Empty }
    }

    /// The scan after one more byte.
    pub fn push(self, b: u8) -> (r: HeadScan)
        ensures
            r@ == self@.push(b),
    {
        proof {
            use_type_invariant(&self);
            lemma_window_step(self.bytes@, b);
        }
        let window = self.window.advance(b);
        let mut bytes = self.bytes;
        bytes.push(b);
        HeadScan { bytes, window }
    }

    /// Says whether the bytes end a head.
    pub fn complete(&self) -> (r: bool)
        ensures
            r == head_complete(self@),
    {
        proof {
            use_type_invariant(self);
            lemma_window_complete(self.bytes@);
        }
        self.window == Window::Terminator
    }

    /// The bytes that were read.
    pub fn into_bytes(self) -> (r: Vec<u8>)
        ensures
            r@ == self@,
    {
        self.bytes
    }
}

impl Window {
    /// The window after one more byte.
    pub fn advance(self, b: u8) -> (w: Window)
        ensures
            w == next_window(self, b),
    {
        if b == CR {
            match self {
                Window::CrLf => Window::CrLfCr,
                Window::Terminator => Window::CrLfCr,
                _ => Window::Cr,
            }
        } else if b == LF {
            match self {
                Window::Cr => Window::CrLf,
                Window::CrLfCr => Window::Terminator,
                _ => Window::Empty,
            }
        } else {
            Window::Empty
        }
    }
}

} // verus!
