use hello::RequestKind;
use hello::request::classify_request;
use hello::request::response_file;
use hello::request::status_line;

#[test]
fn root_request_is_classified_as_root() {
    let buf = b"GET / HTTP/1.1\r\nHost: localhost\r\n\r\n";
    assert_eq!(classify_request(buf), RequestKind::Root);
}

#[test]
fn sleep_request_is_classified_as_sleep() {
    let buf = b"GET /sleep HTTP/1.1\r\nHost: localhost\r\n\r\n";
    assert_eq!(classify_request(buf), RequestKind::Sleep);
}

#[test]
fn bare_request_lines_are_enough() {
    assert_eq!(classify_request(b"GET / HTTP/1.1\r\n"), RequestKind::Root);
    assert_eq!(classify_request(b"GET /sleep HTTP/1.1\r\n"), RequestKind::Sleep);
}

#[test]
fn unknown_paths_are_not_found() {
    assert_eq!(classify_request(b"GET /missing HTTP/1.1\r\n"), RequestKind::NotFound);
    assert_eq!(classify_request(b"POST / HTTP/1.1\r\n"), RequestKind::NotFound);
}

#[test]
fn short_or_empty_buffers_are_not_found() {
    assert_eq!(classify_request(b""), RequestKind::NotFound);
    assert_eq!(classify_request(b"GET / HTTP/1.1"), RequestKind::NotFound);
    assert_eq!(classify_request(b"GET"), RequestKind::NotFound);
}

#[test]
fn status_lines_match_the_kind() {
    assert_eq!(status_line(RequestKind::Root), "HTTP/1.1 200 OK\r\n\r\n");
    assert_eq!(status_line(RequestKind::Sleep), "HTTP/1.1 200 OK\r\n\r\n");
    assert_eq!(status_line(RequestKind::NotFound), "HTTP/1.1 404 NOT FOUND\r\n\r\n");
}

#[test]
fn response_files_match_the_kind() {
    assert_eq!(response_file(RequestKind::Root), "hello.html");
    assert_eq!(response_file(RequestKind::Sleep), "hello.html");
    assert_eq!(response_file(RequestKind::NotFound), "404.html");
}
