use worker_pool::http::{build_response, route, u64_to_decimal};

#[test]
fn root_serves_greeting_page() {
    let d = route(&String::from("GET / HTTP/1.1"));
    assert_eq!(d.status_line, "HTTP/1.1 200 OK");
    assert_eq!(d.filename, "hello.html");
    assert_eq!(d.content_type, "text/html");
    assert_eq!(d.delay_secs, 0);
}

#[test]
fn style_sheet_served_as_css() {
    let d = route(&String::from("GET /style.css HTTP/1.1"));
    assert_eq!(d.status_line, "HTTP/1.1 200 OK");
    assert_eq!(d.filename, "style.css");
    assert_eq!(d.content_type, "text/css");
    assert_eq!(d.delay_secs, 0);
}

#[test]
fn slow_endpoint_pauses_then_serves_greeting() {
    let d = route(&String::from("GET /sleep HTTP/1.1"));
    assert_eq!(d.status_line, "HTTP/1.1 200 OK");
    assert_eq!(d.filename, "hello.html");
    assert_eq!(d.content_type, "text/html");
    assert_eq!(d.delay_secs, 5);
}

#[test]
fn unknown_request_gets_not_found() {
    let d = route(&String::from("GET /missing HTTP/1.1"));
    assert_eq!(d.status_line, "HTTP/1.1 404 NOT FOUND");
    assert_eq!(d.filename, "404.html");
    assert_eq!(d.content_type, "text/html");
    assert_eq!(d.delay_secs, 0);
}

#[test]
fn empty_request_line_gets_not_found() {
    let d = route(&String::from(""));
    assert_eq!(d.status_line, "HTTP/1.1 404 NOT FOUND");
    assert_eq!(d.filename, "404.html");
}

#[test]
fn decimal_rendering_is_exact() {
    assert_eq!(u64_to_decimal(0), "0");
    assert_eq!(u64_to_decimal(7), "7");
    assert_eq!(u64_to_decimal(10), "10");
    assert_eq!(u64_to_decimal(105), "105");
    assert_eq!(u64_to_decimal(65536), "65536");
    assert_eq!(u64_to_decimal(u64::MAX), "18446744073709551615");
}

#[test]
fn response_carries_headers_and_body() {
    let body = String::from("hello");
    let r = build_response(
        &String::from("HTTP/1.1 200 OK"),
        &String::from("text/html"),
        body.len() as u64,
        &body,
    );
    assert_eq!(
        r,
        "HTTP/1.1 200 OK\r\nContent-Type: text/html\r\nContent-Length: 5\r\n\r\nhello"
    );
}

#[test]
fn empty_body_has_zero_content_length() {
    let body = String::new();
    let r = build_response(
        &String::from("HTTP/1.1 404 NOT FOUND"),
        &String::from("text/html"),
        0,
        &body,
    );
    assert_eq!(
        r,
        "HTTP/1.1 404 NOT FOUND\r\nContent-Type: text/html\r\nContent-Length: 0\r\n\r\n"
    );
}
