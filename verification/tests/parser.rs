use quickserving::request::{ParseError, Request};

fn parse(raw: &str) -> Result<Request, ParseError> {
    Request::from_string(raw.to_string())
}

fn field(request: &Request, index: usize) -> (&str, &str) {
    let entry = &request.headers.entries[index];
    (entry.0.as_str(), entry.1.as_str())
}

#[test]
fn request_line_is_recovered() {
    let request = parse("GET /index.html HTTP/1.1\r\n").unwrap();
    assert_eq!(request.method, "GET");
    assert_eq!(request.path, "/index.html");
    assert_eq!(request.version.name, "HTTP");
    assert_eq!(request.version.number, "1.1");
    assert_eq!(request.headers.len(), 0);
    assert_eq!(request.body, None);
}

#[test]
fn request_line_without_line_end_is_recovered() {
    let request = parse("DELETE /a/b?c=d SPDY/3").unwrap();
    assert_eq!(request.method, "DELETE");
    assert_eq!(request.path, "/a/b?c=d");
    assert_eq!(request.version.name, "SPDY");
    assert_eq!(request.version.number, "3");
    assert_eq!(request.headers.len(), 0);
    assert_eq!(request.body, None);
}

#[test]
fn any_method_and_path_are_accepted() {
    let request = parse("brew ../../etc/passwd HTCPCP/1.0\r\n\r\n").unwrap();
    assert_eq!(request.method, "brew");
    assert_eq!(request.path, "../../etc/passwd");
    assert_eq!(request.version.name, "HTCPCP");
    assert_eq!(request.version.number, "1.0");
}

#[test]
fn non_ascii_text_is_kept() {
    let request =
        parse("GET /caf\u{e9}/\u{1f600} HTTP/1.1\r\nX-N\u{e4}me: w\u{e9}rt\r\n\r\n").unwrap();
    assert_eq!(request.path, "/caf\u{e9}/\u{1f600}");
    assert_eq!(field(&request, 0), ("X-N\u{e4}me", "w\u{e9}rt"));
}

#[test]
fn two_tokens_are_a_malformed_request_line() {
    assert_eq!(parse("GET /\r\n\r\n"), Err(ParseError::MalformedRequestLine));
}

#[test]
fn one_token_is_a_malformed_request_line() {
    assert_eq!(parse("GET\r\nHost: x\r\n\r\n"), Err(ParseError::MalformedRequestLine));
}

#[test]
fn empty_text_is_a_malformed_request_line() {
    assert_eq!(parse(""), Err(ParseError::MalformedRequestLine));
    assert_eq!(parse("\r\n"), Err(ParseError::MalformedRequestLine));
    assert_eq!(parse("\r\n\r\n"), Err(ParseError::MalformedRequestLine));
}

#[test]
fn four_tokens_are_a_malformed_request_line() {
    assert_eq!(parse("GET / HTTP/1.1 extra\r\n\r\n"), Err(ParseError::MalformedRequestLine));
    assert_eq!(parse("GET  / HTTP/1.1\r\n\r\n"), Err(ParseError::MalformedRequestLine));
    assert_eq!(parse("GET / HTTP/1.1 \r\n\r\n"), Err(ParseError::MalformedRequestLine));
}

#[test]
fn tokens_of_the_first_line_only_are_counted() {
    assert_eq!(parse("GET /\r\nHTTP/1.1 a b\r\n\r\n"), Err(ParseError::MalformedRequestLine));
}

#[test]
fn empty_method_and_path_are_tokens() {
    let request = parse("  HTTP/1.1\r\n").unwrap();
    assert_eq!(request.method, "");
    assert_eq!(request.path, "");
}

#[test]
fn version_without_slash_is_malformed() {
    assert_eq!(parse("GET / HTTP1.1\r\n\r\n"), Err(ParseError::MalformedVersion));
    assert_eq!(parse("GET / \r\n\r\n"), Err(ParseError::MalformedVersion));
}

#[test]
fn version_with_an_empty_part_is_malformed() {
    assert_eq!(parse("GET / /1.1\r\n\r\n"), Err(ParseError::MalformedVersion));
    assert_eq!(parse("GET / HTTP/\r\n\r\n"), Err(ParseError::MalformedVersion));
    assert_eq!(parse("GET / /\r\n\r\n"), Err(ParseError::MalformedVersion));
}

#[test]
fn version_with_two_slashes_is_malformed() {
    assert_eq!(parse("GET / HTTP/1/1\r\n\r\n"), Err(ParseError::MalformedVersion));
    assert_eq!(parse("GET / HTTP//1\r\n\r\n"), Err(ParseError::MalformedVersion));
}

#[test]
fn headers_are_recovered_in_order() {
    let request = parse(
        "GET / HTTP/1.1\r\nHost: example.org\r\nAccept: */*\r\nHost: second\r\nX-Empty: \r\n\r\n",
    )
    .unwrap();
    assert_eq!(request.headers.len(), 4);
    assert_eq!(field(&request, 0), ("Host", "example.org"));
    assert_eq!(field(&request, 1), ("Accept", "*/*"));
    assert_eq!(field(&request, 2), ("Host", "second"));
    assert_eq!(field(&request, 3), ("X-Empty", ""));
    assert_eq!(request.body, None);
}

#[test]
fn header_is_split_at_the_first_separator() {
    let request = parse("GET / HTTP/1.1\r\nA:B: c: d\r\n: v\r\n\r\n").unwrap();
    assert_eq!(field(&request, 0), ("A:B", "c: d"));
    assert_eq!(field(&request, 1), ("", "v"));
}

#[test]
fn header_names_keep_their_case() {
    let request = parse("GET / HTTP/1.1\r\nhOsT: x\r\n\r\n").unwrap();
    assert_eq!(field(&request, 0), ("hOsT", "x"));
    assert_eq!(request.headers.get(&"hOsT".to_string()), Some(&"x".to_string()));
    assert_eq!(request.headers.get(&"Host".to_string()), None);
}

#[test]
fn header_without_separator_is_malformed() {
    assert_eq!(parse("GET / HTTP/1.1\r\nHost\r\n\r\n"), Err(ParseError::MalformedHeader));
    assert_eq!(parse("GET / HTTP/1.1\r\nHost:x\r\n\r\n"), Err(ParseError::MalformedHeader));
    assert_eq!(parse("GET / HTTP/1.1\r\nA: b\r\nHost:\r\n\r\n"), Err(ParseError::MalformedHeader));
    assert_eq!(parse("GET / HTTP/1.1\r\nA: b\r\nbroken"), Err(ParseError::MalformedHeader));
}

#[test]
fn request_line_is_checked_before_the_headers() {
    assert_eq!(parse("GET /\r\nbroken\r\n\r\n"), Err(ParseError::MalformedRequestLine));
    assert_eq!(parse("GET / HTTP\r\nbroken\r\n\r\n"), Err(ParseError::MalformedVersion));
}

#[test]
fn parsing_stops_at_the_first_empty_line() {
    let request = parse("POST /form HTTP/1.1\r\nA: b\r\n\r\nnot a header\r\n\r\nmore").unwrap();
    assert_eq!(request.headers.len(), 1);
    assert_eq!(field(&request, 0), ("A", "b"));
    assert_eq!(request.body, Some("not a header\r\n\r\nmore".to_string()));
}

#[test]
fn body_follows_the_empty_line() {
    let request = parse("POST / HTTP/1.1\r\n\r\nhello").unwrap();
    assert_eq!(request.headers.len(), 0);
    assert_eq!(request.body, Some("hello".to_string()));
}

#[test]
fn empty_body_is_no_body() {
    assert_eq!(parse("GET / HTTP/1.1\r\nA: b\r\n\r\n").unwrap().body, None);
    assert_eq!(parse("GET / HTTP/1.1\r\nA: b\r\n").unwrap().body, None);
    assert_eq!(parse("GET / HTTP/1.1\r\nA: b").unwrap().body, None);
}

#[test]
fn headers_without_final_line_end_are_recovered() {
    let request = parse("GET / HTTP/1.1\r\nA: b\r\nC: d").unwrap();
    assert_eq!(request.headers.len(), 2);
    assert_eq!(field(&request, 1), ("C", "d"));
}

#[test]
fn bare_line_feed_ends_no_line() {
    assert_eq!(parse("GET / HTTP/1.1\nHost: x\n\n"), Err(ParseError::MalformedRequestLine));
    let request = parse("GET / HTTP/1.1\r\nA: b\nC: d\r\n\r\n").unwrap();
    assert_eq!(request.headers.len(), 1);
    assert_eq!(field(&request, 0), ("A", "b\nC: d"));
}

#[test]
fn errors_are_described() {
    assert_eq!(ParseError::MalformedRequestLine.to_string(), "malformed request line");
    assert_eq!(ParseError::MalformedVersion.to_string(), "malformed version");
    assert_eq!(ParseError::MalformedHeader.to_string(), "malformed header");
}
