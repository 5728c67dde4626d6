//! What the server answers to a request.
//!
//! A request is answered in steps. `handle_connection` looks at the request
//! and either has the reply at once or names what has to be looked up
//! first: the user of a session, the id of a user name, or a new user. The
//! caller does the lookup, and `session_reply`, `login_reply` or
//! `signup_reply` gives the reply from what it found.

use vstd::prelude::*;
use vstd::string::*;
use vstd::utf8::encode_utf8;
use crate::error::ErrorKind;
use crate::form::{cookie_values, decode_chars, form_values};
use crate::header::{find_value, header_value};
use crate::text::{append_chars, to_chars, to_text};
use crate::text::number::{decimal_text, push_decimal};
use crate::text::pieces::split;
use crate::text::search::{matches_at, occurs_at};

verus! {

/// A reply: the status line, the headers to send besides the length, and
/// the file whose contents are the body.
#[derive(Debug, PartialEq, Eq)]
pub struct Reply {
    pub status_line: &'static str,
    pub headers: String,
    pub filename: &'static str,
}

/// A reply as plain text.
pub struct ReplyView {
    pub status_line: Seq<char>,
    pub headers: Seq<char>,
    pub filename: Seq<char>,
}

impl View for Reply {
    type V = ReplyView;

    open spec fn view(&self) -> ReplyView {
        ReplyView {
            status_line: self.status_line@,
            headers: self.headers@,
            filename: self.filename@,
        }
    }
}

/// What is to be done about a request.
#[derive(Debug, PartialEq, Eq)]
pub enum Next {
    /// Send this reply.
    Reply(Reply),
    /// Look up the user of this session id, then send the `session_reply`.
    CheckSession(String),
    /// Look up the id of this user name, open a session where there is
    /// one, then send the `login_reply`.
    FindUser(String),
    /// Add a user of this name, open a session where that worked, then send
    /// the `signup_reply`.
    AddUser(String),
}

/// A step as plain text.
pub enum NextView {
    Reply(ReplyView),
    CheckSession(Seq<char>),
    FindUser(Seq<char>),
    AddUser(Seq<char>),
}

impl View for Next {
    type V = NextView;

    open spec fn view(&self) -> NextView {
        match self {
            Next::Reply(reply) => NextView::Reply(reply@),
            Next::CheckSession(id) => NextView::CheckSession(id@),
            Next::FindUser(name) => NextView::FindUser(name@),
            Next::AddUser(name) => NextView::AddUser(name@),
        }
    }
}

/// The reply that sends `filename` as it is.
pub open spec fn ok(filename: Seq<char>) -> ReplyView {
    ReplyView { status_line: "HTTP/1.1 200 OK"@, headers: Seq::empty(), filename }
}

/// The reply to a request for something that is not there.
pub open spec fn not_found() -> ReplyView {
    ReplyView {
        status_line: "HTTP/1.1 404 NOT FOUND"@,
        headers: Seq::empty(),
        filename: "404.html"@,
    }
}

/// The reply to a request that cannot be read or decoded.
pub open spec fn bad_request() -> ReplyView {
    ReplyView {
        status_line: "HTTP/1.1 400 BAD REQUEST"@,
        headers: Seq::empty(),
        filename: "404.html"@,
    }
}

/// The reply that sends a visitor without a session to the login page.
pub open spec fn to_login() -> ReplyView {
    ReplyView {
        status_line: "HTTP/1.1 303 See Other"@,
        headers: "Location: /"@,
        filename: "twit-home.html"@,
    }
}

/// The reply that sends a user with a new session to the home page, with
/// the session id as a cookie.
pub open spec fn to_homepage(cookie: Seq<char>) -> ReplyView {
    ReplyView {
        status_line: "HTTP/1.1 303 See Other"@,
        headers: "Location: /homepage\r\nSet-Cookie: id="@ + cookie + "; Secure; HttpOnly"@,
        filename: "twit-home-generated.html"@,
    }
}

/// The session id that a header block carries: the last value of its
/// `Cookie` header. No id where the block has no such header; an error
/// where the header cannot be decoded.
pub open spec fn session_of(headers: Seq<char>) -> Result<Option<Seq<char>>, ErrorKind> {
    match header_value(headers, "Cookie"@) {
        Some(cookie) => match cookie_values(cookie) {
            Some(values) => Ok(Some(values.last())),
            None => Err(ErrorKind::MalformedCookie),
        },
        None => Ok(None),
    }
}

/// What is to be done about a GET request. The home page is for a visitor
/// with a session: one without a cookie is sent to the login page, and a
/// cookie that cannot be decoded is a bad request.
pub open spec fn get_plan(request_line: Seq<char>, headers: Seq<char>) -> NextView {
    if request_line == "GET / HTTP/1.1"@ {
        NextView::Reply(ok("login.html"@))
    } else if request_line == "GET /signup? HTTP/1.1"@ {
        NextView::Reply(ok("signup.html"@))
    } else if request_line == "GET /homepage HTTP/1.1"@ {
        match session_of(headers) {
            Ok(Some(id)) => NextView::CheckSession(id),
            Ok(None) => NextView::Reply(to_login()),
            Err(_) => NextView::Reply(bad_request()),
        }
    } else {
        NextView::Reply(not_found())
    }
}

/// What is to be done about a POST request. The user name is the last value
/// of the form.
pub open spec fn post_plan(request_line: Seq<char>, body: Seq<char>) -> NextView {
    if request_line == "POST /login HTTP/1.1"@ {
        match form_values(body) {
            Some(values) => NextView::FindUser(values.last()),
            None => NextView::Reply(bad_request()),
        }
    } else if request_line == "POST /signup HTTP/1.1"@ {
        match form_values(body) {
            Some(values) => NextView::AddUser(values.last()),
            None => NextView::Reply(bad_request()),
        }
    } else {
        NextView::Reply(not_found())
    }
}

/// What is to be done about a request: by its request line a GET request, a
/// POST request, whose body is empty where it has none, or neither.
pub open spec fn plan(request_line: Seq<char>, headers: Seq<char>, body: Option<Seq<char>>) -> NextView {
    if occurs_at(request_line, "GET"@, 0) {
        get_plan(request_line, headers)
    } else if occurs_at(request_line, "POST"@, 0) {
        post_plan(
            request_line,
            match body {
                Some(text) => text,
                None => Seq::empty(),
            },
        )
    } else {
        NextView::Reply(not_found())
    }
}

/// The reply to a connection from which no request could be read: nothing
/// where the stream was closed before it gave a byte, since nobody asked;
/// a bad request for every other failure.
pub open spec fn failure_plan(error: ErrorKind, started: bool) -> Option<ReplyView> {
    if error == ErrorKind::TruncatedStream && !started {
        None
    } else {
        Some(bad_request())
    }
}

/// The whole response: the status line, the headers where there are any,
/// the length of the contents in bytes, an empty line and the contents.
pub open spec fn response_text(status_line: Seq<char>, headers: Seq<char>, contents: Seq<char>) -> Seq<
    char,
> {
    let length = decimal_text(encode_utf8(contents).len());
    if headers.len() == 0 {
        status_line + "\r\nContent-Length: "@ + length + "\r\n\r\n"@ + contents
    } else {
        status_line + "\r\n"@ + headers + "\r\nContent-Length: "@ + length + "\r\n\r\n"@ + contents
    }
}

/// Says whether two texts are the same.
pub fn same_text(a: &[char], b: &[char]) -> (r: bool)
    ensures
        r == (a@ == b@),
{
    if a.len() != b.len() {
        return false;
    }
    let r = matches_at(a, b, 0);
    proof {
        assert(a@.subrange(0, a@.len() as int) == a@);
    }
    r
}

/// A reply without headers of its own.
fn reply(status_line: &'static str, filename: &'static str) -> (r: Reply)
    ensures
        r@ == (ReplyView {
            status_line: status_line@,
            headers: Seq::empty(),
            filename: filename@,
        }),
{
    Reply { status_line, headers: String::new(), filename }
}

/// The last of the values.
fn last_value(values: Vec<String>) -> (r: String)
    requires
        values.len() > 0,
    ensures
        r@ == values.deep_view().last(),
{
    let mut values = values;
    match values.pop() {
        Some(value) => value,
        None => String::new(),
    }
}

/// The session id that a header block carries.
pub fn session_cookie(headers: &[char]) -> (r: Result<Option<String>, ErrorKind>)
    ensures
        match r {
            Ok(Some(id)) => session_of(headers@) == Ok::<Option<Seq<char>>, ErrorKind>(
                Some(id@),
            ),
            Ok(None) => session_of(headers@) == Ok::<Option<Seq<char>>, ErrorKind>(None),
            Err(e) => session_of(headers@) == Err::<Option<Seq<char>>, ErrorKind>(e),
        },
{
    let name = to_chars("Cookie");
    match find_value(headers, name.as_slice()) {
        Some(cookie) => match decode_chars(cookie.as_slice(), ';') {
            Some(values) => Ok(Some(last_value(values))),
            None => Err(ErrorKind::MalformedCookie),
        },
        None => Ok(None),
    }
}

/// Decides what is to be done about a GET request.
pub fn handle_get(request_line: &str, headers: &str) -> (r: Next)
    ensures
        r@ == get_plan(request_line@, headers@),
{
    let line = to_chars(request_line);
    if same_text(line.as_slice(), to_chars("GET / HTTP/1.1").as_slice()) {
        Next::Reply(reply("HTTP/1.1 200 OK", "login.html"))
    } else if same_text(line.as_slice(), to_chars("GET /signup? HTTP/1.1").as_slice()) {
        Next::Reply(reply("HTTP/1.1 200 OK", "signup.html"))
    } else if same_text(line.as_slice(), to_chars("GET /homepage HTTP/1.1").as_slice()) {
        match session_cookie(to_chars(headers).as_slice()) {
            Ok(Some(id)) => Next::CheckSession(id),
            Ok(None) => Next::Reply(session_reply(false)),
            Err(_) => Next::Reply(reply("HTTP/1.1 400 BAD REQUEST", "404.html")),
        }
    } else {
        Next::Reply(reply("HTTP/1.1 404 NOT FOUND", "404.html"))
    }
}

/// The user name that a form carries: its last value.
fn user_name(body: &str) -> (r: Option<String>)
    ensures
        match r {
            Some(name) => form_values(body@) matches Some(values) && values.last() == name@,
            None => form_values(body@) is None,
        },
{
    let text = to_chars(body);
    match decode_chars(text.as_slice(), '&') {
        Some(values) => {
            assert(values.deep_view().len() == split(text@, '&').len());
            Some(last_value(values))
        },
        None => None,
    }
}

/// Decides what is to be done about a POST request.
pub fn handle_post(request_line: &str, body: &str) -> (r: Next)
    ensures
        r@ == post_plan(request_line@, body@),
{
    let line = to_chars(request_line);
    if same_text(line.as_slice(), to_chars("POST /login HTTP/1.1").as_slice()) {
        match user_name(body) {
            Some(name) => Next::FindUser(name),
            None => Next::Reply(reply("HTTP/1.1 400 BAD REQUEST", "404.html")),
        }
    } else if same_text(line.as_slice(), to_chars("POST /signup HTTP/1.1").as_slice()) {
        match user_name(body) {
            Some(name) => Next::AddUser(name),
            None => Next::Reply(reply("HTTP/1.1 400 BAD REQUEST", "404.html")),
        }
    } else {
        Next::Reply(reply("HTTP/1.1 404 NOT FOUND", "404.html"))
    }
}

/// Decides what is to be done about a request.
pub fn handle_connection(request_line: &str, headers: &str, body: Option<&str>) -> (r: Next)
    ensures
        r@ == plan(
            request_line@,
            headers@,
            match body {
                Some(text) => Some(text@),
                None => None,
            },
        ),
{
    let line = to_chars(request_line);
    if matches_at(line.as_slice(), to_chars("GET").as_slice(), 0) {
        handle_get(request_line, headers)
    } else if matches_at(line.as_slice(), to_chars("POST").as_slice(), 0) {
        match body {
            Some(text) => handle_post(request_line, text),
            None => {
                let none = String::new();
                handle_post(request_line, none.as_str())
            },
        }
    } else {
        Next::Reply(reply("HTTP/1.1 404 NOT FOUND", "404.html"))
    }
}

/// The reply to a request for the home page: the generated page for a
/// visitor with a session, the way to the login page for one without.
pub fn session_reply(valid: bool) -> (r: Reply)
    ensures
        r@ == if valid {
            ok("twit-home-generated.html"@)
        } else {
            to_login()
        },
{
    if valid {
        reply("HTTP/1.1 200 OK", "twit-home-generated.html")
    } else {
        let mut headers = String::new();
        headers.append("Location: /");
        Reply { status_line: "HTTP/1.1 303 See Other", headers, filename: "twit-home.html" }
    }
}

/// The reply that sends a user with a new session to the home page.
fn session_opened(cookie: &str) -> (r: Reply)
    ensures
        r@ == to_homepage(cookie@),
{
    let mut headers = String::new();
    headers.append("Location: /homepage\r\nSet-Cookie: id=");
    headers.append(cookie);
    headers.append("; Secure; HttpOnly");
    Reply { status_line: "HTTP/1.1 303 See Other", headers, filename: "twit-home-generated.html" }
}

/// The reply to a login: the way to the home page, with the cookie of the
/// session that was opened, or the login page with its error where the
/// user name is not known.
pub fn login_reply(cookie: Option<&str>) -> (r: Reply)
    ensures
        r@ == match cookie {
            Some(id) => to_homepage(id@),
            None => ok("login-error.html"@),
        },
{
    match cookie {
        Some(id) => session_opened(id),
        None => reply("HTTP/1.1 200 OK", "login-error.html"),
    }
}

/// The reply to a signup: the way to the home page, with the cookie of the
/// session that was opened, or the signup page with its error where the
/// user could not be added.
pub fn signup_reply(cookie: Option<&str>) -> (r: Reply)
    ensures
        r@ == match cookie {
            Some(id) => to_homepage(id@),
            None => ok("signup-error.html"@),
        },
{
    match cookie {
        Some(id) => session_opened(id),
        None => reply("HTTP/1.1 200 OK", "signup-error.html"),
    }
}

/// Decides what to reply where no request could be read. `started` says
/// whether the connection gave a byte at all.
pub fn failure_reply(error: ErrorKind, started: bool) -> (r: Option<Reply>)
    ensures
        match r {
            Some(reply) => failure_plan(error, started) == Some(reply@),
            None => failure_plan(error, started) is None,
        },
{
    match error {
        ErrorKind::TruncatedStream => if started {
            Some(reply("HTTP/1.1 400 BAD REQUEST", "404.html"))
        } else {
            None
        },
        _ => Some(reply("HTTP/1.1 400 BAD REQUEST", "404.html")),
    }
}

/// The whole response to send.
pub fn response(status_line: &str, headers: &str, contents: &str) -> (r: String)
    ensures
        r@ == response_text(status_line@, headers@, contents@),
{
    let mut out = to_chars(status_line);
    let extra = to_chars(headers);
    if extra.len() > 0 {
        append_chars(&mut out, to_chars("\r\n").as_slice());
        append_chars(&mut out, extra.as_slice());
    }
    let length: usize = contents.as_bytes().len();
    append_chars(&mut out, to_chars("\r\nContent-Length: ").as_slice());
    push_decimal(&mut out, length);
    append_chars(&mut out, to_chars("\r\n\r\n").as_slice());
    append_chars(&mut out, to_chars(contents).as_slice());
    to_text(out.as_slice())
}

} // verus!
