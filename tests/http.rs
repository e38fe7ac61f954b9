use web_server::http::{frame_response, respond, Route, SLOW_ROUTE_SECS};

#[test]
fn home_line_routes_home() {
    let r = Route::from_request_line("GET / HTTP/1.1");
    assert_eq!(r, Route::Home);
    assert_eq!(r.status_line(), "HTTP/1.1 200 OK");
    assert_eq!(r.payload_name(), "index.html");
    assert_eq!(r.delay_secs(), 0);
}

#[test]
fn sleep_line_routes_slow() {
    let r = Route::from_request_line("GET /sleep HTTP/1.1");
    assert_eq!(r, Route::Slow);
    assert_eq!(r.status_line(), "HTTP/1.1 200 OK");
    assert_eq!(r.payload_name(), "index.html");
    assert_eq!(r.delay_secs(), SLOW_ROUTE_SECS);
    assert_eq!(SLOW_ROUTE_SECS, 5);
}

#[test]
fn other_lines_not_found() {
    for line in ["", "GET /x HTTP/1.1", "GET / HTTP/1.0", "get / http/1.1", "GET / HTTP/1.1 ", "GET /sleep"] {
        let r = Route::from_request_line(line);
        assert_eq!(r, Route::NotFound);
        assert_eq!(r.status_line(), "HTTP/1.1 404 NOT FOUND");
        assert_eq!(r.payload_name(), "404.html");
        assert_eq!(r.delay_secs(), 0);
    }
}

#[test]
fn home_response_bytes() {
    let r = respond(Route::Home, Some("<h1>Hello!</h1>"));
    assert_eq!(r, b"HTTP/1.1 200 OK\r\nContent-Length: 15\r\n\r\n<h1>Hello!</h1>".to_vec());
}

#[test]
fn not_found_response_bytes() {
    let r = respond(Route::NotFound, Some("oops"));
    assert_eq!(r, b"HTTP/1.1 404 NOT FOUND\r\nContent-Length: 4\r\n\r\noops".to_vec());
}

#[test]
fn missing_payload_gets_fallback_body() {
    let r = respond(Route::Home, None);
    assert_eq!(r, b"HTTP/1.1 200 OK\r\nContent-Length: 21\r\n\r\nInternal Server Error".to_vec());
}

#[test]
fn length_counts_bytes_not_chars() {
    let r = frame_response("S", "é".as_bytes());
    assert_eq!(r, b"S\r\nContent-Length: 2\r\n\r\n\xc3\xa9".to_vec());
}

#[test]
fn empty_body_has_length_zero() {
    let r = frame_response("HTTP/1.1 200 OK", b"");
    assert_eq!(r, b"HTTP/1.1 200 OK\r\nContent-Length: 0\r\n\r\n".to_vec());
}

#[test]
fn long_body_length_in_decimal() {
    let body = vec![b'a'; 1234];
    let r = frame_response("X", &body);
    let mut want = b"X\r\nContent-Length: 1234\r\n\r\n".to_vec();
    want.extend_from_slice(&body);
    assert_eq!(r, want);
    let r = frame_response("X", &body[..100]);
    assert!(r.starts_with(b"X\r\nContent-Length: 100\r\n\r\n"));
}
