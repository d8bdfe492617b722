use quickserving::media::{media_type_from, media_type_of};
use quickserving::response::{body_for_missing, Response};
use quickserving::{Headers, Version};

#[test]
fn response_is_written_part_by_part() {
    let mut headers = Headers::new();
    headers.insert(&"X-One".to_string(), "1".to_string());
    headers.insert(&"X-Two".to_string(), "two words".to_string());
    let response = Response::new(
        418,
        "I'm a teapot".to_string(),
        Version::new("HTCPCP".to_string(), "1.0".to_string()),
        headers,
        "short and stout".to_string(),
    );
    assert_eq!(response.status, 418);
    assert_eq!(response.reason, "I'm a teapot");
    assert_eq!(response.body, "short and stout");
    assert_eq!(
        response.to_string(),
        "HTCPCP/1.0 418 I'm a teapot\r\nX-One: 1\r\nX-Two: two words\r\n\r\nshort and stout"
    );
    assert_eq!(
        response.to_bytes(),
        b"HTCPCP/1.0 418 I'm a teapot\r\nX-One: 1\r\nX-Two: two words\r\n\r\nshort and stout"
    );
}

#[test]
fn response_without_headers_and_body() {
    let response = Response::new(
        204,
        "No Content".to_string(),
        Version::new("HTTP".to_string(), "1.1".to_string()),
        Headers::new(),
        String::new(),
    );
    assert_eq!(response.to_string(), "HTTP/1.1 204 No Content\r\n\r\n");
}

#[test]
fn found_response() {
    let response = Response::found(
        "text/html".to_string(),
        "hello".to_string(),
        "2024-01-01 00:00:00 UTC".to_string(),
    );
    assert_eq!(response.status, 200);
    assert_eq!(response.reason, "OK");
    assert_eq!(response.version.to_string(), "HTTP/1.1");
    assert_eq!(response.headers.len(), 4);
    assert_eq!(response.headers.get(&"Content-Type".to_string()), Some(&"text/html".to_string()));
    assert_eq!(response.headers.get(&"Content-Length".to_string()), Some(&"5".to_string()));
    assert_eq!(response.headers.get(&"Server".to_string()), Some(&"Quickserving".to_string()));
    assert_eq!(
        response.headers.get(&"Date".to_string()),
        Some(&"2024-01-01 00:00:00 UTC".to_string())
    );
    assert_eq!(response.body, "hello");
    assert_eq!(
        response.to_string(),
        "HTTP/1.1 200 OK\r\nContent-Type: text/html\r\nContent-Length: 5\r\n\
         Server: Quickserving\r\nDate: 2024-01-01 00:00:00 UTC\r\n\r\nhello"
    );
}

#[test]
fn not_found_response() {
    let response = Response::not_found("<h1>Not Found</h1>".to_string());
    assert_eq!(response.status, 404);
    assert_eq!(response.reason, "Resource not found");
    assert_eq!(response.headers.len(), 3);
    assert_eq!(response.headers.get(&"Content-Type".to_string()), Some(&"text/html".to_string()));
    assert_eq!(response.headers.get(&"Content-Length".to_string()), Some(&"18".to_string()));
    assert_eq!(response.headers.get(&"Server".to_string()), Some(&"Quickserving".to_string()));
    assert_eq!(response.headers.get(&"Date".to_string()), None);
    assert_eq!(
        response.to_string(),
        "HTTP/1.1 404 Resource not found\r\nContent-Type: text/html\r\nContent-Length: 18\r\n\
         Server: Quickserving\r\n\r\n<h1>Not Found</h1>"
    );
}

#[test]
fn content_length_counts_bytes() {
    let body = "gr\u{fc}\u{df}e \u{1f600}";
    assert_eq!(body.chars().count(), 7);
    assert_eq!(body.len(), 12);
    let response = Response::not_found(body.to_string());
    assert_eq!(response.headers.get(&"Content-Length".to_string()), Some(&"12".to_string()));
    let found = Response::found("text/plain".to_string(), body.to_string(), String::new());
    assert_eq!(found.headers.get(&"Content-Length".to_string()), Some(&"12".to_string()));
}

#[test]
fn content_length_of_an_empty_body() {
    let response = Response::found("text/plain".to_string(), String::new(), "now".to_string());
    assert_eq!(response.headers.get(&"Content-Length".to_string()), Some(&"0".to_string()));
    assert!(response.to_string().ends_with("Date: now\r\n\r\n"));
}

#[test]
fn missing_document_falls_back_to_three_characters() {
    assert_eq!(body_for_missing(None), "404");
    assert_eq!(body_for_missing(Some("gone".to_string())), "gone");
    assert_eq!(body_for_missing(Some(String::new())), "");
}

#[test]
fn media_type_goes_by_the_extension() {
    assert_eq!(media_type_of("/index.html"), "text/html");
    assert_eq!(media_type_of("/a/b/style.css"), "text/css");
    assert_eq!(media_type_of("/notes.TXT"), "text/plain");
    assert_eq!(media_type_of("/picture.png"), "image/png");
    assert_ne!(media_type_of("/index.html"), "/index.html");
}

#[test]
fn unknown_extension_is_sent_as_bytes() {
    assert_eq!(media_type_of("/file.unknown-extension"), "application/octet-stream");
    assert_eq!(media_type_of("/no-extension"), "application/octet-stream");
    assert_eq!(media_type_of(""), "application/octet-stream");
}

#[test]
fn missing_guess_stands_for_bytes() {
    assert_eq!(media_type_from(None), "application/octet-stream");
    assert_eq!(media_type_from(Some("text/css".to_string())), "text/css");
    assert_eq!(media_type_from(Some(String::new())), "");
}

#[test]
fn response_is_written_as_utf8() {
    let response = Response::not_found("n\u{e3}o".to_string());
    let bytes = response.to_bytes();
    assert_eq!(bytes, response.to_string().into_bytes());
    assert!(bytes.ends_with(b"Content-Length: 4\r\nServer: Quickserving\r\n\r\nn\xc3\xa3o"));
}
