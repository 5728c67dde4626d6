//! Decoding a form body (`key=value&key=value`) and a cookie header
//! (`key=value; key=value`) into their values.
//!
//! The values come in the order of their segments and are not keyed by name:
//! a value that occurs twice occurs twice in the result. The value of a
//! segment is what follows its last `=`.

use vstd::prelude::*;
use crate::error::ErrorKind;
use crate::text::{rows, tail_chars, to_chars, to_text};
use crate::text::pieces::{split, split_chars};
use crate::text::search::{find_last, last_index_of, lemma_last_index_of};

verus! {

/// The value of a segment: what follows its last `=`.
pub open spec fn value_of(segment: Seq<char>) -> Seq<char> {
    segment.skip(last_index_of(segment, '=') + 1)
}

/// The value of each segment.
pub open spec fn values_of(segments: Seq<Seq<char>>) -> Seq<Seq<char>> {
    segments.map_values(|s: Seq<char>| value_of(s))
}

/// The values of the segments of `text`, which `sep` separates; `None` where
/// a segment holds no `=`.
pub open spec fn decode(text: Seq<char>, sep: char) -> Option<Seq<Seq<char>>> {
    let segments = split(text, sep);
    if forall|i: int| 0 <= i < segments.len() ==> (#[trigger] segments[i]).contains('=') {
        Some(values_of(segments))
    } else {
        None
    }
}

/// The values of a form body, whose segments `&` separates.
pub open spec fn form_values(body: Seq<char>) -> Option<Seq<Seq<char>>> {
    decode(body, '&')
}

/// The values of a cookie header, whose segments `;` separates.
pub open spec fn cookie_values(cookie: Seq<char>) -> Option<Seq<Seq<char>>> {
    decode(cookie, ';')
}

/// The values of the segments of `text`.
pub fn decode_chars(text: &[char], sep: char) -> (r: Option<Vec<String>>)
    ensures
        match r {
            Some(values) => decode(text@, sep) == Some(values.deep_view()),
            None => decode(text@, sep) is None,
        },
{
    let segments = split_chars(text, sep);
    let mut values: Vec<String> = Vec::new();
    let mut i: usize = 0;
    while i < segments.len()
        invariant
            i <= segments.len(),
            rows(segments@) == split(text@, sep),
            forall|j: int| 0 <= j < i ==> (#[trigger] rows(segments@)[j]).contains('='),
            values.deep_view() == values_of(rows(segments@).take(i as int)),
        decreases segments.len() - i,
    {
        let segment = segments[i].as_slice();
        let n: usize = segment.len();
        proof {
            lemma_last_index_of(segment@, '=');
            assert(rows(segments@)[i as int] == segment@);
        }
        match find_last(segment, '=') {
            Some(k) => {
                assert(k < n);
                let value = to_text(tail_chars(segment, k + 1).as_slice());
                values.push(value);
                proof {
                    let next = rows(segments@).take(i + 1);
                    assert(next.drop_last() == rows(segments@).take(i as int));
                    assert(values_of(next) == values_of(next.drop_last()).push(value_of(segment@)));
                }
            },
            None => {
                return None;
            },
        }
        i += 1;
    }
    Some(values)
}

/// A form body, as a POST request carries it.
pub struct BodyParse {
    body: String,
}

impl View for BodyParse {
    type V = Seq<char>;

    closed spec fn view(&self) -> Seq<char> {
        self.body@
    }
}

impl BodyParse {
    /// Takes the body of a request.
    pub fn new(body: String) -> (r: BodyParse)
        ensures
            r@ == body@,
    {
        BodyParse { body }
    }

    /// The values of the form, in the order of its segments. Fails with
    /// `MalformedForm` where a segment holds no `=`.
    pub fn body_values(&self) -> (r: Result<Vec<String>, ErrorKind>)
        ensures
            match r {
                Ok(values) => form_values(self@) == Some(values.deep_view()),
                Err(e) => e == ErrorKind::MalformedForm && form_values(self@) is None,
            },
    {
        let text = to_chars(self.get_body());
        match decode_chars(text.as_slice(), '&') {
            Some(values) => Ok(values),
            None => Err(ErrorKind::MalformedForm),
        }
    }

    /// The body as it was given.
    pub fn get_body(&self) -> (r: &str)
        ensures
            r@ == self@,
    {
        self.body.as_str()
    }
}

/// A cookie header's value, as a request carries it after `Cookie: `.
pub struct CookieParse {
    cookie: String,
}

impl View for CookieParse {
    type V = Seq<char>;

    closed spec fn view(&self) -> Seq<char> {
        self.cookie@
    }
}

impl CookieParse {
    /// Takes the value of a cookie header.
    pub fn new(cookie: String) -> (r: CookieParse)
        ensures
            r@ == cookie@,
    {
        CookieParse { cookie }
    }

    /// The values of the cookies, in the order of their segments. Fails with
    /// `MalformedCookie` where a segment holds no `=`.
    pub fn cookie_values(&self) -> (r: Result<Vec<String>, ErrorKind>)
        ensures
            match r {
                Ok(values) => cookie_values(self@) == Some(values.deep_view()),
                Err(e) => e == ErrorKind::MalformedCookie && cookie_values(self@) is None,
            },
    {
        let text = to_chars(self.get_cookie());
        match decode_chars(text.as_slice(), ';') {
            Some(values) => Ok(values),
            None => Err(ErrorKind::MalformedCookie),
        }
    }

    /// The header's value as it was given.
    pub fn get_cookie(&self) -> (r: &str)
        ensures
            r@ == self@,
    {
        self.cookie.as_str()
    }
}

} // verus!
