use twit_clone::error::ErrorKind;
use twit_clone::form::{BodyParse, CookieParse};
use twit_clone::header::HeaderLookup;

fn strings(items: &[&str]) -> Vec<String> {
    items.iter().map(|s| s.to_string()).collect()
}

#[test]
fn form_value_follows_last_equals_sign() {
    let form = BodyParse::new("user=alice&pass=wonder=land".to_string());
    assert_eq!(form.body_values(), Ok(strings(&["alice", "land"])));
}

#[test]
fn cookie_values_in_order() {
    let cookie = CookieParse::new("id=42; theme=dark".to_string());
    assert_eq!(cookie.cookie_values(), Ok(strings(&["42", "dark"])));
}

#[test]
fn lookup_takes_last_line_holding_the_name() {
    let block = "X-Content-Length-Custom: 7\nContent-Length: 3\n";
    assert_eq!(HeaderLookup::find(block, "Content-Length"), Some("3".to_string()));
}

#[test]
fn form_segment_without_equals_sign_is_malformed() {
    let form = BodyParse::new("user=alice&pass".to_string());
    assert_eq!(form.body_values(), Err(ErrorKind::MalformedForm));
}

#[test]
fn cookie_segment_without_equals_sign_is_malformed() {
    let cookie = CookieParse::new("id=42; Secure".to_string());
    assert_eq!(cookie.cookie_values(), Err(ErrorKind::MalformedCookie));
}

#[test]
fn empty_form_is_malformed() {
    assert_eq!(BodyParse::new(String::new()).body_values(), Err(ErrorKind::MalformedForm));
}

#[test]
fn form_values_keep_their_order_and_their_duplicates() {
    let form = BodyParse::new("a=1&b=2&a=1&c=".to_string());
    assert_eq!(form.body_values(), Ok(strings(&["1", "2", "1", ""])));
    assert_eq!(form.get_body(), "a=1&b=2&a=1&c=");
}

#[test]
fn session_cookie_is_decoded_from_the_looked_up_header() {
    let line = HeaderLookup::find("Host: a\nCookie: id=31415", "Cookie").unwrap();
    let cookie = CookieParse::new(line);
    assert_eq!(cookie.get_cookie(), "id=31415");
    assert_eq!(cookie.cookie_values(), Ok(strings(&["31415"])));
}

#[test]
fn lookup_is_case_sensitive() {
    assert_eq!(HeaderLookup::find("content-length: 3", "Content-Length"), None);
}

#[test]
fn lookup_of_a_name_that_no_line_holds_finds_nothing() {
    assert_eq!(HeaderLookup::find("Host: a\nAccept: b", "Cookie"), None);
    assert_eq!(HeaderLookup::find("", "Cookie"), None);
}

#[test]
fn lookup_in_a_line_without_colon_and_space_finds_nothing() {
    assert_eq!(HeaderLookup::find("Content-Length:3", "Content-Length"), None);
    assert_eq!(
        HeaderLookup::find("Content-Length: 3\nContent-Length", "Content-Length"),
        None
    );
}

#[test]
fn lookup_gives_what_follows_the_first_colon_and_space() {
    assert_eq!(
        HeaderLookup::find("Host: a: b\r\nAccept: c", "Host"),
        Some("a: b".to_string())
    );
    assert_eq!(
        HeaderLookup::find("Host: a", "a"),
        Some("a".to_string())
    );
}
