use twit_clone::error::ErrorKind;
use twit_clone::frame::{HttpParser, RawFrame, ReadEvent, State};

fn frame(request_line: &str, header_block: &str, body: Option<&str>) -> RawFrame {
    RawFrame {
        request_line: request_line.to_string(),
        header_block: header_block.to_string(),
        body: body.map(|b| b.to_string()),
    }
}

#[test]
fn reads_head_and_announced_body() {
    let input = b"POST /login HTTP/1.1\r\nHost: localhost\r\nContent-Length: 10\r\n\r\nuser=alice";
    let (result, taken) = HttpParser::parse(input);
    assert_eq!(
        result,
        Ok(frame(
            "POST /login HTTP/1.1",
            "Host: localhost\nContent-Length: 10",
            Some("user=alice")
        ))
    );
    assert_eq!(taken, input.len());
}

#[test]
fn one_byte_at_a_time_gives_the_same_frame() {
    let input = b"POST /login HTTP/1.1\r\nHost: localhost\r\nContent-Length: 10\r\n\r\nuser=alice";
    let mut parser = HttpParser::new();
    for b in input.iter() {
        assert!(parser.is_reading());
        parser.step(ReadEvent::Byte(*b));
    }
    assert_eq!(parser.state(), State::Done);
    assert_eq!(parser.get_request_line(), "POST /login HTTP/1.1");
    assert_eq!(parser.get_headers(), "Host: localhost\nContent-Length: 10");
    assert_eq!(parser.get_body(), Some("user=alice".to_string()));
    assert_eq!(parser.finish(), HttpParser::parse(input).0);
}

#[test]
fn chunks_of_any_size_give_the_same_frame() {
    let input = b"POST /signup HTTP/1.1\r\nContent-Length: 9\r\n\r\nuser=bob!";
    for size in 1..input.len() {
        let mut parser = HttpParser::new();
        let mut total = 0;
        for chunk in input.chunks(size) {
            total += parser.feed(chunk);
        }
        assert_eq!(total, input.len());
        assert_eq!(parser.finish(), HttpParser::parse(input).0);
    }
}

#[test]
fn no_length_header_means_no_body_and_no_byte_after_the_head() {
    let input = b"GET / HTTP/1.1\r\nHost: localhost\r\n\r\nleft in the stream";
    let mut parser = HttpParser::new();
    let taken = parser.feed(input);
    assert_eq!(taken, b"GET / HTTP/1.1\r\nHost: localhost\r\n\r\n".len());
    assert_eq!(parser.state(), State::Done);
    assert_eq!(parser.get_body(), None);
    assert_eq!(parser.finish(), Ok(frame("GET / HTTP/1.1", "Host: localhost", None)));
}

#[test]
fn stream_that_ends_in_the_head_is_truncated() {
    let (result, taken) = HttpParser::parse(b"GET / HTTP/1.1\r\nHost: localhost\r\n");
    assert_eq!(result, Err(ErrorKind::TruncatedStream));
    assert_eq!(taken, 33);
}

#[test]
fn stream_that_ends_in_the_body_is_truncated() {
    let (result, _) = HttpParser::parse(b"POST / HTTP/1.1\r\nContent-Length: 5\r\n\r\nabc");
    assert_eq!(result, Err(ErrorKind::TruncatedStream));
}

#[test]
fn empty_stream_is_truncated() {
    assert_eq!(HttpParser::parse(b""), (Err(ErrorKind::TruncatedStream), 0));
}

#[test]
fn read_error_fails_the_parser() {
    let mut parser = HttpParser::new();
    parser.feed(b"GET / HT");
    parser.step(ReadEvent::ReadError);
    assert_eq!(parser.state(), State::Failed(ErrorKind::TransportError));
    assert_eq!(parser.finish(), Err(ErrorKind::TransportError));
}

#[test]
fn head_that_is_not_utf8_is_invalid() {
    let (result, taken) = HttpParser::parse(b"GET /\xff HTTP/1.1\r\n\r\nrest");
    assert_eq!(result, Err(ErrorKind::InvalidEncoding));
    assert_eq!(taken, 19);
}

#[test]
fn body_that_is_not_utf8_is_invalid() {
    let (result, _) = HttpParser::parse(b"POST / HTTP/1.1\r\nContent-Length: 2\r\n\r\n\xc3\x28");
    assert_eq!(result, Err(ErrorKind::InvalidEncoding));
}

#[test]
fn body_length_counts_bytes_not_characters() {
    let input = "POST / HTTP/1.1\r\nContent-Length: 6\r\n\r\nn=\u{20ac}!".as_bytes();
    let (result, taken) = HttpParser::parse(input);
    assert_eq!(
        result,
        Ok(frame("POST / HTTP/1.1", "Content-Length: 6", Some("n=\u{20ac}!")))
    );
    assert_eq!(taken, input.len());
}

#[test]
fn body_may_hold_the_terminator() {
    let input = b"POST / HTTP/1.1\r\nContent-Length: 7\r\n\r\na=\r\n\r\nbZ";
    let (result, taken) = HttpParser::parse(input);
    assert_eq!(
        result,
        Ok(frame("POST / HTTP/1.1", "Content-Length: 7", Some("a=\r\n\r\nb")))
    );
    assert_eq!(taken, input.len() - 1);
}

#[test]
fn head_ends_with_the_terminator_whatever_stands_before_it() {
    let input = b"GET / HTTP/1.1\n\r\n\r\nHost: a\r\n\r\n";
    let (result, taken) = HttpParser::parse(input);
    assert_eq!(result, Ok(frame("GET / HTTP/1.1", "", None)));
    assert_eq!(taken, 19);
}

#[test]
fn stray_carriage_return_before_the_terminator_does_not_hide_it() {
    let input = b"GET / HTTP/1.1\r\r\n\r\nX";
    let mut parser = HttpParser::new();
    assert_eq!(parser.feed(input), 19);
    assert_eq!(parser.state(), State::Done);
    assert_eq!(parser.get_body(), None);
    assert_eq!(parser.finish(), Ok(frame("GET / HTTP/1.1\r", "", None)));
}

#[test]
fn head_that_is_not_utf8_is_invalid_after_a_stray_carriage_return() {
    let (result, taken) = HttpParser::parse(b"GET /\xff\r\r\n\r\nrest");
    assert_eq!(result, Err(ErrorKind::InvalidEncoding));
    assert_eq!(taken, 11);
}

#[test]
fn stream_closed_before_its_first_byte_is_told_apart() {
    let mut parser = HttpParser::new();
    assert!(!parser.has_started());
    assert!(!parser.closed_clean());
    parser.step(ReadEvent::EndOfStream);
    assert_eq!(parser.state(), State::Failed(ErrorKind::TruncatedStream));
    assert!(!parser.has_started());
    assert!(parser.closed_clean());
}

#[test]
fn stream_cut_short_is_not_closed_clean() {
    let mut parser = HttpParser::new();
    parser.step(ReadEvent::Byte(b'G'));
    assert!(parser.has_started());
    parser.step(ReadEvent::EndOfStream);
    assert_eq!(parser.state(), State::Failed(ErrorKind::TruncatedStream));
    assert!(!parser.closed_clean());
}

#[test]
fn failed_read_before_the_first_byte_is_not_a_clean_close() {
    let mut parser = HttpParser::new();
    parser.step(ReadEvent::ReadError);
    assert!(!parser.has_started());
    assert!(!parser.closed_clean());
}

#[test]
fn length_of_zero_means_no_body() {
    let input = b"POST / HTTP/1.1\r\nContent-Length: 0\r\n\r\nabc";
    let (result, taken) = HttpParser::parse(input);
    assert_eq!(result, Ok(frame("POST / HTTP/1.1", "Content-Length: 0", None)));
    assert_eq!(taken, input.len() - 3);
}

#[test]
fn length_that_is_no_number_means_no_body() {
    let input = b"POST / HTTP/1.1\r\nContent-Length: five\r\n\r\nabcde";
    let (result, taken) = HttpParser::parse(input);
    assert_eq!(result, Ok(frame("POST / HTTP/1.1", "Content-Length: five", None)));
    assert_eq!(taken, input.len() - 5);
}

#[test]
fn finished_parser_takes_no_more_bytes() {
    let mut parser = HttpParser::new();
    assert_eq!(parser.feed(b"GET / HTTP/1.1\r\n\r\n"), 18);
    assert_eq!(parser.feed(b"GET /other HTTP/1.1\r\n\r\n"), 0);
    parser.step(ReadEvent::Byte(b'x'));
    parser.step(ReadEvent::EndOfStream);
    assert_eq!(parser.finish(), Ok(frame("GET / HTTP/1.1", "", None)));
}

#[test]
fn written_request_is_read_back() {
    let request_line = "POST /signup HTTP/1.1";
    let headers = ["Host: localhost:7878", "Content-Length: 12", "Accept: */*"];
    let body = "name=z\u{fc}rich";
    let mut wire = Vec::new();
    wire.extend_from_slice(request_line.as_bytes());
    wire.extend_from_slice(b"\r\n");
    for header in headers.iter() {
        wire.extend_from_slice(header.as_bytes());
        wire.extend_from_slice(b"\r\n");
    }
    wire.extend_from_slice(b"\r\n");
    wire.extend_from_slice(body.as_bytes());
    let (result, taken) = HttpParser::parse(&wire);
    assert_eq!(result, Ok(frame(request_line, &headers.join("\n"), Some(body))));
    assert_eq!(taken, wire.len());
}

#[test]
fn last_length_header_counts() {
    let input = b"POST / HTTP/1.1\r\nContent-Length: 1\r\nX-Content-Length: 3\r\n\r\nabcd";
    let (result, taken) = HttpParser::parse(input);
    assert_eq!(
        result,
        Ok(frame("POST / HTTP/1.1", "Content-Length: 1\nX-Content-Length: 3", Some("abc")))
    );
    assert_eq!(taken, input.len() - 1);
}

#[test]
fn empty_lines_in_the_head_are_no_headers() {
    let input = b"GET / HTTP/1.1\n\nHost: a\n\n\nAccept: b\r\n\r\n";
    let (result, _) = HttpParser::parse(input);
    assert_eq!(result, Ok(frame("GET / HTTP/1.1", "Host: a\nAccept: b", None)));
}

#[test]
fn parser_starts_reading_the_head() {
    let parser = HttpParser::new();
    assert_eq!(parser.state(), State::ReadingHead);
    assert!(parser.is_reading());
    assert_eq!(parser.get_request_line(), "");
    assert_eq!(parser.get_headers(), "");
    assert_eq!(parser.get_body(), None);
    assert_eq!(parser.finish(), Err(ErrorKind::TruncatedStream));
}

#[test]
fn parser_reads_the_body_after_the_head() {
    let mut parser = HttpParser::new();
    parser.feed(b"POST / HTTP/1.1\r\nContent-Length: 2\r\n\r\n");
    assert_eq!(parser.state(), State::ReadingBody);
    assert_eq!(parser.get_request_line(), "POST / HTTP/1.1");
    assert_eq!(parser.get_headers(), "Content-Length: 2");
    parser.step(ReadEvent::Byte(b'o'));
    assert_eq!(parser.state(), State::ReadingBody);
    assert_eq!(parser.get_body(), None);
    parser.step(ReadEvent::Byte(b'k'));
    assert_eq!(parser.state(), State::Done);
    assert_eq!(parser.get_body(), Some("ok".to_string()));
}

#[test]
fn end_of_stream_in_the_body_is_truncated() {
    let mut parser = HttpParser::new();
    parser.feed(b"POST / HTTP/1.1\r\nContent-Length: 2\r\n\r\no");
    parser.step(ReadEvent::EndOfStream);
    assert_eq!(parser.state(), State::Failed(ErrorKind::TruncatedStream));
}

#[test]
fn events_after_the_end_change_nothing() {
    let mut parser = HttpParser::new();
    parser.step(ReadEvent::ReadError);
    parser.step(ReadEvent::EndOfStream);
    parser.step(ReadEvent::Byte(b'G'));
    assert_eq!(parser.state(), State::Failed(ErrorKind::TransportError));
}

#[test]
fn head_is_split_into_request_line_and_header_block() {
    let head = b"GET / HTTP/1.1\r\nHost: a\r\nAccept: b\r\n\r\n".to_vec();
    assert_eq!(
        HttpParser::parse_head(head),
        Ok(("GET / HTTP/1.1".to_string(), "Host: a\nAccept: b".to_string()))
    );
    assert_eq!(
        HttpParser::parse_head(b"\r\n\r\n".to_vec()),
        Ok((String::new(), String::new()))
    );
    assert_eq!(HttpParser::parse_head(Vec::new()), Ok((String::new(), String::new())));
}

#[test]
fn head_that_is_not_utf8_is_not_split() {
    assert_eq!(
        HttpParser::parse_head(b"GET /\x80 HTTP/1.1\r\n\r\n".to_vec()),
        Err(ErrorKind::InvalidEncoding)
    );
}

#[test]
fn announced_length_is_read_from_the_header_block() {
    assert_eq!(HttpParser::parse_content_length("Host: a\nContent-Length: 42"), Some(42));
    assert_eq!(HttpParser::parse_content_length("Content-Length: +7"), Some(7));
    assert_eq!(HttpParser::parse_content_length("Content-Length: 0"), Some(0));
    assert_eq!(HttpParser::parse_content_length("Host: a"), None);
    assert_eq!(HttpParser::parse_content_length("Content-Length: "), None);
    assert_eq!(HttpParser::parse_content_length("Content-Length: 4 2"), None);
    assert_eq!(HttpParser::parse_content_length("content-length: 42"), None);
    assert_eq!(
        HttpParser::parse_content_length("Content-Length: 1\nX-Content-Length-Custom: 7"),
        Some(7)
    );
}
