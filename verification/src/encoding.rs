//! Facts about the UTF-8 encoding of text that the reading of requests
//! rests on: the encoding of a text is the encodings of its parts, one after
//! the other, and only a carriage return or a line feed is encoded with the
//! byte of a carriage return or a line feed.

use vstd::prelude::*;
use vstd::utf8::{
    char_is_scalar, encode_scalar, encode_utf8, has_width_1_encoding, last_continuation_byte,
    leading_byte_width_1, leading_byte_width_2, leading_byte_width_3, leading_byte_width_4,
    second_last_continuation_byte, third_last_continuation_byte,
};
use crate::text::pieces::{crlf, is_line};
use crate::window::{line_end, no_breaks, LF};

verus! {

/// The encoding of two texts, one after the other, is their encodings, one
/// after the other.
pub proof fn lemma_encode_concat(a: Seq<char>, b: Seq<char>)
    ensures
        encode_utf8(a + b) == encode_utf8(a) + encode_utf8(b),
    decreases a.len(),
{
    if a.len() > 0 {
        assert((a + b).drop_first() == a.drop_first() + b);
        lemma_encode_concat(a.drop_first(), b);
    }
}

/// The encoding of a character other than a carriage return and a line feed
/// has at least one byte, and none of its bytes is a line break.
pub proof fn lemma_encode_char_plain(c: char)
    requires
        c != '\r',
        c != '\n',
    ensures
        encode_scalar(c as u32).len() >= 1,
        no_breaks(encode_scalar(c as u32)),
{
    let v = c as u32;
    char_is_scalar(c);
    if has_width_1_encoding(v) {
        assert(leading_byte_width_1(v) != 13 && leading_byte_width_1(v) != 10) by (bit_vector)
            requires
                v <= 0x7f,
                v != 13,
                v != 10,
        ;
    } else {
        assert(leading_byte_width_2(v) >= 0x80) by (bit_vector);
        assert(leading_byte_width_3(v) >= 0x80) by (bit_vector);
        assert(leading_byte_width_4(v) >= 0x80) by (bit_vector);
        assert(last_continuation_byte(v) >= 0x80) by (bit_vector);
        assert(second_last_continuation_byte(v) >= 0x80) by (bit_vector);
        assert(third_last_continuation_byte(v) >= 0x80) by (bit_vector);
    }
}

/// The encoding of a text without carriage return and line feed holds no
/// line break, and is empty only where the text is.
pub proof fn lemma_encode_line(s: Seq<char>)
    requires
        is_line(s),
    ensures
        no_breaks(encode_utf8(s)),
        s.len() > 0 ==> encode_utf8(s).len() > 0,
    decreases s.len(),
{
    if s.len() > 0 {
        let rest = s.drop_first();
        assert(is_line(rest));
        lemma_encode_line(rest);
        lemma_encode_char_plain(s[0]);
    }
}

/// A carriage return and a line feed are encoded as their two bytes.
pub proof fn lemma_encode_crlf()
    ensures
        encode_utf8(crlf()) == line_end(),
{
    let s = crlf();
    let t = s.drop_first();
    assert(encode_utf8(t.drop_first()) == Seq::<u8>::empty());
    assert(leading_byte_width_1(13) == 13) by (bit_vector);
    assert(leading_byte_width_1(10) == 10) by (bit_vector);
    assert(encode_utf8(t) == seq![LF]);
}

} // verus!
