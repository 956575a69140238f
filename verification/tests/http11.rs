use httpcore::http11::{parse_body, parse_headers, parse_request_line};
use httpcore::parse::decode_bytes;

#[test]
fn test_decode_bytes() {
    assert_eq!(decode_bytes(&[72, 105, 0xFF]), String::from("Hi\u{FF}"));
    assert_eq!(decode_bytes(&[]), String::from(""));
}

#[test]
fn test_parse_body() {
    let result = parse_body(
        "GET /echo/abc HTTP/1.1\r\nHost: localhost:4221\r\nUser-Agent: curl/7.64.1\r\nAccept: */*\r\n\r\n12345",
    );
    assert_eq!(result, Some(String::from("12345")));
}

#[test]
fn test_parse_headers() {
    let result = parse_headers(
        "GET /echo/abc HTTP/1.1\r\nHost: localhost:4221\r\nUser-Agent: curl/7.64.1\r\nAccept: */*\r\n\r\n",
    );
    println!("{:?}", result);
    let desired = vec![
        (String::from("Host"), String::from("localhost:4221")),
        (String::from("User-Agent"), String::from("curl/7.64.1")),
        (String::from("Accept"), String::from("*/*")),
    ];
    assert_eq!(result, desired);
}

#[test]
fn test_parse_request_line() {
    let rl = "Get /index.html HTTP/1.1\r\n";
    let result = parse_request_line(rl);
    assert_eq!(
        result.unwrap(),
        (
            String::from("Get"),
            String::from("/index.html"),
            String::from("HTTP/1.1")
        )
    );

    let rl = "Post /api/v1/task HTTP/2.4\r\n";
    let result = parse_request_line(rl);
    assert_eq!(
        result.unwrap(),
        (
            String::from("Post"),
            String::from("/api/v1/task"),
            String::from("HTTP/2.4")
        )
    );
}

#[test]
fn http11_test_parse_request_line() {
    let rl = "Get /index.html HTTP/1.1\r\n";
    let result = parse_request_line(rl);
    assert_eq!(
        result.unwrap(),
        (
            String::from("Get"),
            String::from("/index.html"),
            String::from("HTTP/1.1")
        )
    );

    let rl = "Post /api/v1/task HTTP/2.4\r\n";
    let result = parse_request_line(rl);
    assert_eq!(
        result.unwrap(),
        (
            String::from("Post"),
            String::from("/api/v1/task"),
            String::from("HTTP/2.4")
        )
    );
}

#[test]
fn test_parse_request_line_full_buffer() {
    let result = parse_request_line("GET / HTTP/1.1\r\nHost: x\r\n\r\n");
    assert_eq!(
        result,
        Some((String::from("GET"), String::from("/"), String::from("HTTP/1.1")))
    );
}

#[test]
fn test_parse_request_line_rejects() {
    assert_eq!(parse_request_line("garbage"), None);
    assert_eq!(parse_request_line("GET /\r\n"), None);
    assert_eq!(parse_request_line(" GET / HTTP/1.1\r\n"), None);
    assert_eq!(parse_request_line("GET / HTTP/x.y\r\n"), None);
    assert_eq!(parse_request_line("GET / HTTP/11\r\n"), None);
}

#[test]
fn test_parse_request_line_target_with_spaces() {
    let result = parse_request_line("GET /a b HTTP/1.1\r\n");
    assert_eq!(
        result,
        Some((String::from("GET"), String::from("/a b"), String::from("HTTP/1.1")))
    );
}

#[test]
fn test_parse_headers_value_needs_visible_chars() {
    let result = parse_headers("X: a b\r\nY: ok\r\n");
    assert_eq!(result, vec![(String::from("Y"), String::from("ok"))]);
}

#[test]
fn test_parse_body_without_separator() {
    assert_eq!(parse_body("GET / HTTP/1.1\r\nHost: x\r\n"), None);
}

#[test]
fn test_parse_body_takes_rest_verbatim() {
    assert_eq!(
        parse_body("x\r\n\r\nline one\nline two\r\n"),
        Some(String::from("line one\nline two\r\n"))
    );
}
