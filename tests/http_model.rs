use hyperlane::error::ServerError;
use hyperlane::http::{get_header, set_header, HttpVersion, Request, Response, UpgradeType};

fn request(version: HttpVersion, headers: &[(&str, &str)]) -> Request {
    let mut r = Request::default();
    r.version = version;
    r.headers = headers.iter().map(|(k, v)| (k.to_string(), v.to_string())).collect();
    r
}

#[test]
fn connection_close_on_http11_closes() {
    let r = request(HttpVersion::Http11, &[("Connection", "close")]);
    assert!(!r.is_enable_keep_alive());
}

#[test]
fn connection_keep_alive_on_http10_keeps_open() {
    let r = request(HttpVersion::Http10, &[("Connection", "keep-alive")]);
    assert!(r.is_enable_keep_alive());
}

#[test]
fn keep_alive_defaults_by_version() {
    assert!(request(HttpVersion::Http11, &[]).is_enable_keep_alive());
    assert!(!request(HttpVersion::Http10, &[]).is_enable_keep_alive());
    assert!(request(HttpVersion::Http2, &[]).is_enable_keep_alive());
}

#[test]
fn keep_alive_header_is_case_insensitive() {
    assert!(!request(HttpVersion::Http11, &[("CONNECTION", "Close")]).is_enable_keep_alive());
    assert!(request(HttpVersion::Http10, &[("connection", "Keep-Alive")]).is_enable_keep_alive());
}

#[test]
fn keep_alive_skips_other_connection_values() {
    let r = request(
        HttpVersion::Http11,
        &[("Connection", "upgrade"), ("Connection", "close")],
    );
    assert!(!r.is_enable_keep_alive());
}

#[test]
fn websocket_request_detection() {
    assert!(request(HttpVersion::Http11, &[("Upgrade", "WebSocket")]).is_websocket_requested());
    assert!(!request(HttpVersion::Http11, &[("Upgrade", "h2c")]).is_websocket_requested());
    assert!(!request(HttpVersion::Http11, &[]).is_websocket_requested());
}

#[test]
fn header_set_replaces_first_match() {
    let mut h: Vec<(String, String)> = vec![("A".to_string(), "1".to_string())];
    set_header(&mut h, "a".to_string(), "2".to_string());
    assert_eq!(h, vec![("a".to_string(), "2".to_string())]);
    set_header(&mut h, "B".to_string(), "3".to_string());
    assert_eq!(h.len(), 2);
    assert_eq!(get_header(&h, "b"), Some("3".to_string()));
    assert_eq!(get_header(&h, "c"), None);
}

#[test]
fn response_encoding_adds_length() {
    let mut r = Response::default();
    r.body = b"hello".to_vec();
    assert_eq!(r.to_bytes(), b"HTTP/1.1 200 OK\r\ncontent-length: 5\r\n\r\nhello".to_vec());
}

#[test]
fn response_encoding_keeps_given_length_and_headers() {
    let mut r = Response::default();
    r.status_code = 404;
    r.reason_phrase = "Not Found".to_string();
    r.headers = vec![
        ("server".to_string(), "hyperlane".to_string()),
        ("Content-Length".to_string(), "0".to_string()),
    ];
    assert_eq!(
        r.to_bytes(),
        b"HTTP/1.1 404 Not Found\r\nserver: hyperlane\r\nContent-Length: 0\r\n\r\n".to_vec()
    );
}

#[test]
fn informational_response_has_no_length() {
    let mut r = Response::default();
    r.status_code = 101;
    r.reason_phrase = "Switching Protocols".to_string();
    assert_eq!(r.to_bytes(), b"HTTP/1.1 101 Switching Protocols\r\n\r\n".to_vec());
}

#[test]
fn default_request_and_version() {
    let r = Request::default();
    assert_eq!(r.method, "GET");
    assert_eq!(r.path, "/");
    assert_eq!(r.upgrade_type, UpgradeType::Http);
    assert!(HttpVersion::Http11.is_http1_1_or_higher());
    assert!(!HttpVersion::Unknown.is_http1_1_or_higher());
}

#[test]
fn server_error_messages() {
    assert_eq!(ServerError::TcpBindError("x".to_string()).message(), "Tcp bind error: x");
    assert_eq!(ServerError::HttpReadError("y".to_string()).message(), "Http read error: y");
    assert_eq!(
        ServerError::InvalidHttpRequest("z".to_string()).message(),
        "Invalid http request: z"
    );
    assert_eq!(ServerError::Unknown.message(), "Unknown");
}

#[test]
fn decimal_and_chars() {
    assert_eq!(hyperlane::text::decimal_string(0), "0");
    assert_eq!(hyperlane::text::decimal_string(60000), "60000");
    assert_eq!(hyperlane::text::decimal_string(usize::MAX), usize::MAX.to_string());
    assert!(hyperlane::text::eq_ignore_ascii_case("Content-Type", "content-TYPE"));
    assert!(!hyperlane::text::eq_ignore_ascii_case("a", "ab"));
}
