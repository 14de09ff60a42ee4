use http_server::http::{response, route};

#[test]
fn root_request_gets_the_front_page() {
    let r = route("GET / HTTP/1.1");
    assert_eq!(r.status_line, "HTTP/1.1 200 OK");
    assert_eq!(r.filename, "static/index.html");
    assert_eq!(r.delay_secs, 0);
}

#[test]
fn sleep_request_gets_the_front_page_after_five_seconds() {
    let r = route("GET /sleep HTTP/1.1");
    assert_eq!(r.status_line, "HTTP/1.1 200 OK");
    assert_eq!(r.filename, "static/index.html");
    assert_eq!(r.delay_secs, 5);
}

#[test]
fn any_other_request_gets_not_found() {
    for line in [
        "",
        "GET /missing HTTP/1.1",
        "GET / HTTP/1.0",
        "GET / HTTP/1.1 ",
        "get / http/1.1",
        "POST / HTTP/1.1",
        "GET /sleep HTTP/1.1\r",
        "GET /sleeq HTTP/1.1",
        "GET / HTTP/1.2",
    ] {
        let r = route(line);
        assert_eq!(r.status_line, "HTTP/1.1 404 NOT FOUND", "for {:?}", line);
        assert_eq!(r.filename, "static/404.html", "for {:?}", line);
        assert_eq!(r.delay_secs, 0, "for {:?}", line);
    }
}

#[test]
fn response_gives_status_length_and_body() {
    assert_eq!(
        response("HTTP/1.1 200 OK", "hello"),
        "HTTP/1.1 200 OK\r\nContent-Length: 5\r\n\r\nhello"
    );
}

#[test]
fn response_to_an_empty_body_has_length_zero() {
    assert_eq!(
        response("HTTP/1.1 404 NOT FOUND", ""),
        "HTTP/1.1 404 NOT FOUND\r\nContent-Length: 0\r\n\r\n"
    );
}

#[test]
fn response_counts_bytes_not_characters() {
    assert_eq!(response("S", "h\u{e9}llo"), "S\r\nContent-Length: 6\r\n\r\nh\u{e9}llo");
}

#[test]
fn response_writes_long_lengths_in_decimal() {
    let body = "x".repeat(1203);
    let text = response("HTTP/1.1 200 OK", &body);
    let expected = format!("HTTP/1.1 200 OK\r\nContent-Length: 1203\r\n\r\n{}", body);
    assert_eq!(text, expected);
    let ten = "0123456789";
    assert_eq!(response("S", ten), "S\r\nContent-Length: 10\r\n\r\n0123456789");
    let ninety_nine = "y".repeat(99);
    assert_eq!(response("S", &ninety_nine), format!("S\r\nContent-Length: 99\r\n\r\n{}", ninety_nine));
    let hundred = "z".repeat(100);
    assert_eq!(response("S", &hundred), format!("S\r\nContent-Length: 100\r\n\r\n{}", hundred));
}
