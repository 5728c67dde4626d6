use twit_clone::error::ErrorKind;
use twit_clone::route::{
    failure_reply, handle_connection, handle_get, handle_post, login_reply, response,
    session_reply, signup_reply, Next, Reply,
};

fn reply(status_line: &'static str, headers: &str, filename: &'static str) -> Reply {
    Reply {
        status_line,
        headers: headers.to_string(),
        filename,
    }
}

#[test]
fn get_of_the_root_gives_the_login_page() {
    assert_eq!(
        handle_get("GET / HTTP/1.1", "Host: a"),
        Next::Reply(reply("HTTP/1.1 200 OK", "", "login.html"))
    );
}

#[test]
fn get_of_signup_gives_the_signup_page() {
    assert_eq!(
        handle_get("GET /signup? HTTP/1.1", ""),
        Next::Reply(reply("HTTP/1.1 200 OK", "", "signup.html"))
    );
}

#[test]
fn get_of_the_homepage_checks_the_session_of_the_cookie() {
    assert_eq!(
        handle_get("GET /homepage HTTP/1.1", "Host: a\nCookie: id=1234\nAccept: */*"),
        Next::CheckSession("1234".to_string())
    );
}

#[test]
fn get_of_the_homepage_without_cookie_leads_to_the_login_page() {
    assert_eq!(
        handle_get("GET /homepage HTTP/1.1", "Host: a"),
        Next::Reply(reply("HTTP/1.1 303 See Other", "Location: /", "twit-home.html"))
    );
}

#[test]
fn get_of_anything_else_is_not_found() {
    assert_eq!(
        handle_get("GET /nothing HTTP/1.1", ""),
        Next::Reply(reply("HTTP/1.1 404 NOT FOUND", "", "404.html"))
    );
}

#[test]
fn login_looks_up_the_last_value_of_the_form() {
    assert_eq!(
        handle_post("POST /login HTTP/1.1", "password=x&username=alice"),
        Next::FindUser("alice".to_string())
    );
}

#[test]
fn signup_adds_the_last_value_of_the_form() {
    assert_eq!(
        handle_post("POST /signup HTTP/1.1", "username=bob"),
        Next::AddUser("bob".to_string())
    );
}

#[test]
fn login_with_a_malformed_form_is_a_bad_request() {
    assert_eq!(
        handle_post("POST /login HTTP/1.1", "alice"),
        Next::Reply(reply("HTTP/1.1 400 BAD REQUEST", "", "404.html"))
    );
}

#[test]
fn post_of_anything_else_is_not_found() {
    assert_eq!(
        handle_post("POST /logout HTTP/1.1", "a=b"),
        Next::Reply(reply("HTTP/1.1 404 NOT FOUND", "", "404.html"))
    );
}

#[test]
fn request_is_handled_by_its_method() {
    assert_eq!(
        handle_connection("GET / HTTP/1.1", "", None),
        Next::Reply(reply("HTTP/1.1 200 OK", "", "login.html"))
    );
    assert_eq!(
        handle_connection("POST /signup HTTP/1.1", "", Some("username=bob")),
        Next::AddUser("bob".to_string())
    );
    assert_eq!(
        handle_connection("POST /signup HTTP/1.1", "", None),
        Next::Reply(reply("HTTP/1.1 400 BAD REQUEST", "", "404.html"))
    );
    assert_eq!(
        handle_connection("PUT / HTTP/1.1", "", None),
        Next::Reply(reply("HTTP/1.1 404 NOT FOUND", "", "404.html"))
    );
    assert_eq!(
        handle_connection("", "", None),
        Next::Reply(reply("HTTP/1.1 404 NOT FOUND", "", "404.html"))
    );
}

#[test]
fn replies_after_the_lookups() {
    assert_eq!(
        session_reply(true),
        reply("HTTP/1.1 200 OK", "", "twit-home-generated.html")
    );
    assert_eq!(
        session_reply(false),
        reply("HTTP/1.1 303 See Other", "Location: /", "twit-home.html")
    );
    assert_eq!(
        login_reply(Some("12345")),
        reply(
            "HTTP/1.1 303 See Other",
            "Location: /homepage\r\nSet-Cookie: id=12345; Secure; HttpOnly",
            "twit-home-generated.html"
        )
    );
    assert_eq!(login_reply(None), reply("HTTP/1.1 200 OK", "", "login-error.html"));
    assert_eq!(
        signup_reply(Some("7")),
        reply(
            "HTTP/1.1 303 See Other",
            "Location: /homepage\r\nSet-Cookie: id=7; Secure; HttpOnly",
            "twit-home-generated.html"
        )
    );
    assert_eq!(signup_reply(None), reply("HTTP/1.1 200 OK", "", "signup-error.html"));
}

#[test]
fn response_without_headers() {
    assert_eq!(
        response("HTTP/1.1 200 OK", "", "<p>hi</p>"),
        "HTTP/1.1 200 OK\r\nContent-Length: 9\r\n\r\n<p>hi</p>"
    );
}

#[test]
fn response_with_headers_counts_bytes() {
    assert_eq!(
        response("HTTP/1.1 303 See Other", "Location: /", "\u{20ac}uro"),
        "HTTP/1.1 303 See Other\r\nLocation: /\r\nContent-Length: 6\r\n\r\n\u{20ac}uro"
    );
}

#[test]
fn get_of_the_homepage_with_a_malformed_cookie_is_a_bad_request() {
    assert_eq!(
        handle_get("GET /homepage HTTP/1.1", "Cookie: id=42; theme"),
        Next::Reply(reply("HTTP/1.1 400 BAD REQUEST", "", "404.html"))
    );
}

#[test]
fn malformed_cookie_matters_for_the_homepage_only() {
    assert_eq!(
        handle_get("GET / HTTP/1.1", "Cookie: id=42; theme"),
        Next::Reply(reply("HTTP/1.1 200 OK", "", "login.html"))
    );
}

#[test]
fn request_that_could_not_be_read_is_a_bad_request() {
    let bad = Some(reply("HTTP/1.1 400 BAD REQUEST", "", "404.html"));
    assert_eq!(failure_reply(ErrorKind::InvalidEncoding, true), bad);
    assert_eq!(failure_reply(ErrorKind::TransportError, true), bad);
    assert_eq!(failure_reply(ErrorKind::TransportError, false), bad);
    assert_eq!(failure_reply(ErrorKind::TruncatedStream, true), bad);
}

#[test]
fn stream_closed_before_any_byte_gets_no_reply() {
    assert_eq!(failure_reply(ErrorKind::TruncatedStream, false), None);
}
