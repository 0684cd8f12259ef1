use hyperlane::context::{Context, ControllerData};
use hyperlane::error::ResponseError;
use hyperlane::http::{HttpVersion, Request, UpgradeType};
use hyperlane::websocket::{
    encode_text_frame, frame_header_size, generate_accept_key, parse_frame_header, unmask,
    FrameDisposition,
};

fn upgrade_request(with_key: bool) -> Request {
    let mut r = Request::default();
    r.version = HttpVersion::Http11;
    r.upgrade_type = UpgradeType::WebSocket;
    r.headers.push(("Upgrade".to_string(), "websocket".to_string()));
    if with_key {
        r.headers
            .push(("Sec-WebSocket-Key".to_string(), "dGhlIHNhbXBsZSBub25jZQ==".to_string()));
    }
    r
}

#[test]
fn accept_key_matches_rfc_vector() {
    assert_eq!(
        generate_accept_key("dGhlIHNhbXBsZSBub25jZQ=="),
        "s3pPLMBiTxaQ9kYGzzhZRbK+xOo="
    );
}

#[test]
fn handshake_sends_switching_protocols() {
    let mut ctx: Context<()> = Context::from_stream_request((), upgrade_request(true));
    assert!(ctx.judge_enable_websocket());
    let mut done = false;
    let bytes = ctx.handle_websocket(&mut done).unwrap();
    assert!(done);
    let text = String::from_utf8(bytes).unwrap();
    assert!(text.starts_with("HTTP/1.1 101 Switching Protocols\r\n"));
    assert!(text.contains("Upgrade: websocket\r\n"));
    assert!(text.contains("Connection: Upgrade\r\n"));
    assert!(text.contains("Sec-WebSocket-Accept: s3pPLMBiTxaQ9kYGzzhZRbK+xOo=\r\n"));
    assert!(text.ends_with("\r\n\r\n"));
    assert_eq!(ctx.get_response_status_code(), 101);
    // a second call sends nothing
    let again = ctx.handle_websocket(&mut done).unwrap();
    assert!(again.is_empty());
}

#[test]
fn handshake_without_key_fails() {
    let mut ctx: Context<()> = Context::from_stream_request((), upgrade_request(false));
    let mut done = false;
    let r = ctx.handle_websocket(&mut done);
    assert_eq!(r, Err(ResponseError::WebSocketHandShakeError));
    assert!(!done);
    assert_eq!(ctx.get_response_status_code(), 200);
    assert!(ctx.get_response_headers().is_empty());
}

#[test]
fn close_twice_is_a_no_op() {
    let mut ctx: Context<u8> = Context::from_stream_request(7, Request::default());
    assert_eq!(ctx.close(), Ok(true));
    assert_eq!(ctx.close(), Ok(false));
    assert!(ctx.0.closed);
}

#[test]
fn sending_without_stream_fails() {
    let mut ctx: Context<u8> = Context::from_stream_request(1, Request::default());
    ctx.0.stream = None;
    assert_eq!(ctx.send_response(200, b"x".to_vec()), Err(ResponseError::NotFoundStream));
    assert_eq!(ctx.close(), Err(ResponseError::NotFoundStream));
    assert_eq!(ctx.flush(), Err(ResponseError::NotFoundStream));
    assert_eq!(ctx.send_body(), Err(ResponseError::NotFoundStream));
}

#[test]
fn plain_send_refused_on_websocket() {
    let mut ctx: Context<u8> = Context::from_stream_request(1, upgrade_request(true));
    assert_eq!(ctx.send_response(200, b"x".to_vec()), Err(ResponseError::NotSupportUseThisMethod));
    assert_eq!(ctx.send_response_once(200, b"x".to_vec()), Err(ResponseError::NotSupportUseThisMethod));
    assert!(ctx.get_response_body().is_empty());
    let frame = ctx.send_response_body(b"hi".to_vec()).unwrap();
    assert_eq!(frame, vec![0x81, 2, b'h', b'i']);
}

#[test]
fn send_response_sets_and_encodes() {
    let mut ctx: Context<u8> = Context::from_stream_request(1, Request::default());
    let bytes = ctx.send_response(404, b"404 Not Found".to_vec()).unwrap();
    assert_eq!(
        bytes,
        b"HTTP/1.1 404 OK\r\ncontent-length: 13\r\n\r\n404 Not Found".to_vec()
    );
    assert_eq!(ctx.get_response_status_code(), 404);
    let body = ctx.send_body().unwrap();
    assert_eq!(body, b"404 Not Found".to_vec());
}

#[test]
fn send_once_closes_the_exchange() {
    let mut ctx: Context<u8> = Context::from_stream_request(1, Request::default());
    ctx.set_response_body(b"bye".to_vec());
    let bytes = ctx.send_once().unwrap();
    assert!(bytes.ends_with(b"bye"));
    assert!(ctx.0.closed);
    assert_eq!(ctx.close(), Ok(false));
}

#[test]
fn headers_through_context() {
    let mut ctx: Context<u8> = Context::from_stream_request(1, Request::default());
    ctx.set_response_header("server".to_string(), "hyperlane".to_string());
    assert_eq!(ctx.get_response_header("Server"), Some("hyperlane".to_string()));
    ctx.set_request_header("Connection".to_string(), "close".to_string());
    assert!(ctx.judge_unenable_keep_alive());
    assert!(!ctx.judge_enable_keep_alive());
    assert!(!ctx.inner_is_websocket());
}

#[test]
fn format_host_port_joins() {
    assert_eq!(Context::<()>::format_host_port("0.0.0.0", &80), "0.0.0.0:80");
}

#[test]
fn controller_data_new_is_empty() {
    let d: ControllerData<u8> = ControllerData::new();
    assert!(d.0.stream.is_none());
    assert_eq!(d.0.response.status_code, 200);
}

#[test]
fn frames_encode_and_decode() {
    let long = vec![7u8; 300];
    let f = encode_text_frame(&long);
    assert_eq!(&f[..4], &[0x81, 126, 1, 44]);
    assert_eq!(f.len(), 304);
    // a masked client frame carrying "Hi"
    let header = [0x81u8, 0x82, 1, 2, 3, 4];
    assert_eq!(frame_header_size(header[1]), 6);
    let h = parse_frame_header(&header).unwrap();
    assert!(h.fin);
    assert_eq!(h.opcode, 1);
    assert_eq!(h.payload_len, 2);
    let key = h.mask.clone().unwrap();
    assert_eq!(key, vec![1, 2, 3, 4]);
    assert_eq!(unmask(&[b'H' ^ 1, b'i' ^ 2], &key), b"Hi".to_vec());
    assert_eq!(h.disposition(), FrameDisposition::Deliver);
    let close = parse_frame_header(&[0x88, 0x00]).unwrap();
    assert_eq!(close.disposition(), FrameDisposition::End);
    assert!(parse_frame_header(&[0x81, 0x80]).is_none());
    let big = parse_frame_header(&[0x82, 127, 0, 0, 0, 0, 0, 1, 0, 0]).unwrap();
    assert_eq!(big.payload_len, 65536);
    assert!(big.mask.is_none());
}

#[test]
fn respond_handshake_uses_given_key() {
    let mut ctx: Context<u8> = Context::from_stream_request(1, upgrade_request(false));
    let mut done = false;
    let bytes = ctx.respond_handshake("abc=".to_string(), &mut done).unwrap();
    assert!(done);
    assert_eq!(
        bytes,
        b"HTTP/1.1 101 Switching Protocols\r\nUpgrade: websocket\r\nConnection: Upgrade\r\nSec-WebSocket-Accept: abc=\r\n\r\n".to_vec()
    );
}

#[test]
fn request_queries_through_context() {
    let mut ctx: Context<u8> = Context::from_stream_request(1, Request::default());
    ctx.set_request_query("a".to_string(), "1".to_string());
    ctx.set_request_query("a".to_string(), "2".to_string());
    ctx.set_request_query("A".to_string(), "3".to_string());
    assert_eq!(ctx.get_request_query("a"), Some("2".to_string()));
    assert_eq!(ctx.get_request_query("A"), Some("3".to_string()));
    assert_eq!(ctx.get_request_querys().len(), 2);
    ctx.set_request_path("/x".to_string());
    ctx.set_request_method("POST".to_string());
    assert_eq!(ctx.get_request_path(), "/x");
    assert_eq!(ctx.get_request_method(), "POST");
    assert_eq!(ctx.get_request_upgrade_type(), UpgradeType::Http);
}

#[test]
fn text_views_of_request_and_response() {
    let mut req = Request::default();
    req.path = "/a".to_string();
    req.querys = vec![("x".to_string(), "1".to_string()), ("y".to_string(), "2".to_string())];
    req.headers = vec![("Host".to_string(), "h".to_string())];
    req.body = b"hi".to_vec();
    let mut ctx: Context<u8> = Context::from_stream_request(1, req);
    assert_eq!(ctx.get_request_string(), "GET /a?x=1&y=2 HTTP/1.1\r\nHost: h\r\n\r\nhi");
    assert_eq!(ctx.get_request_body_string(), "hi");
    ctx.set_response_body(vec![b'o', b'k', 0xff]);
    assert_eq!(ctx.get_response_body_string(), "ok\u{FFFD}");
    ctx.set_response_body(b"ok".to_vec());
    assert_eq!(ctx.get_response_string(), "HTTP/1.1 200 OK\r\ncontent-length: 2\r\n\r\nok");
}

#[test]
fn controller_data_holds_defaults() {
    let d: ControllerData<u8> = ControllerData::new();
    assert_eq!(d.0.request.version, HttpVersion::Http11);
    assert!(d.0.request.host.is_empty());
    assert!(d.0.request.querys.is_empty());
    assert_eq!(d.0.request.upgrade_type, UpgradeType::Http);
    assert_eq!(d.0.response.reason_phrase, "OK");
}

#[test]
fn frame_request_keeps_upgrade_request() {
    let upgrade = upgrade_request(true);
    let frame = upgrade.with_body(b"payload".to_vec());
    assert_eq!(frame.body, b"payload".to_vec());
    assert_eq!(frame.path, upgrade.path);
    assert_eq!(frame.method, upgrade.method);
    assert_eq!(frame.headers, upgrade.headers);
    assert_eq!(frame.upgrade_type, UpgradeType::WebSocket);
    assert!(upgrade.body.is_empty());
}
