use hyperlane::context::Context;
use hyperlane::parse::{content_length, find_head_end, parse_request_head};
use hyperlane::pipeline::{ConnAction, ConnEvent, ConnState, Connection, Pipeline, PipelineAction};
use hyperlane::http::{HttpVersion, UpgradeType};
use hyperlane::server::{RequestHandlerImmutableParams, Server};

#[test]
fn abort_in_request_middleware_skips_rest() {
    let mut p = Pipeline::new(2, 1);
    assert_eq!(p.step(false), PipelineAction::RunRequestMiddleware(0));
    // the first middleware sets the abort flag
    assert_eq!(p.step(true), PipelineAction::Finish);
    assert_eq!(p.step(false), PipelineAction::Finish);
}

#[test]
fn pipeline_runs_in_order_without_abort() {
    let mut p = Pipeline::new(2, 2);
    let mut seen = vec![];
    loop {
        let a = p.step(false);
        seen.push(a);
        if a == PipelineAction::Finish {
            break;
        }
    }
    assert_eq!(
        seen,
        vec![
            PipelineAction::RunRequestMiddleware(0),
            PipelineAction::RunRequestMiddleware(1),
            PipelineAction::Dispatch,
            PipelineAction::RunResponseMiddleware(0),
            PipelineAction::RunResponseMiddleware(1),
            PipelineAction::Finish,
        ]
    );
}

#[test]
fn abort_by_handler_skips_response_middleware() {
    let mut p = Pipeline::new(0, 3);
    assert_eq!(p.step(false), PipelineAction::Dispatch);
    assert_eq!(p.step(true), PipelineAction::Finish);
}

#[test]
fn connection_close_header_ends_connection() {
    let (mut c, first) = Connection::new();
    assert_eq!(first, ConnAction::ReadHttpRequest);
    assert_eq!(c.step(ConnEvent::RequestRead { websocket: false }), ConnAction::RunPipeline);
    assert_eq!(c.step(ConnEvent::ExchangeDone { keep_alive: false }), ConnAction::CloseTransport);
    assert_eq!(c.state, ConnState::Closed);
    assert_eq!(c.step(ConnEvent::ReadFailed), ConnAction::Stop);
}

#[test]
fn websocket_connection_flow() {
    let (mut c, _) = Connection::new();
    assert_eq!(c.step(ConnEvent::RequestRead { websocket: true }), ConnAction::Handshake);
    assert_eq!(c.step(ConnEvent::HandshakeDone(true)), ConnAction::ReadWebSocketFrame);
    assert_eq!(c.step(ConnEvent::RequestRead { websocket: false }), ConnAction::RunPipeline);
    assert_eq!(
        c.step(ConnEvent::ExchangeDone { keep_alive: false }),
        ConnAction::ReadWebSocketFrame
    );
    assert_eq!(c.step(ConnEvent::ReadFailed), ConnAction::CloseTransport);
}

#[test]
fn failed_handshake_and_read_close() {
    let (mut c, _) = Connection::new();
    c.step(ConnEvent::RequestRead { websocket: true });
    assert_eq!(c.step(ConnEvent::HandshakeDone(false)), ConnAction::CloseTransport);
    let (mut d, _) = Connection::new();
    assert_eq!(d.step(ConnEvent::ReadFailed), ConnAction::CloseTransport);
}

#[test]
fn end_to_end_hello() {
    let mut server = Server::new();
    server.route("/", 0).unwrap();
    let params = RequestHandlerImmutableParams::new(&server, 1024);
    let wire = b"GET / HTTP/1.1\r\nHost: localhost\r\n\r\n";
    let end = find_head_end(wire).unwrap();
    assert_eq!(end, wire.len());
    let request = parse_request_head(&wire[..end]).unwrap();
    let (mut conn, _) = Connection::new();
    let action = conn.step(ConnEvent::RequestRead { websocket: request.upgrade_type == UpgradeType::WebSocket });
    assert_eq!(action, ConnAction::RunPipeline);
    let mut ctx: Context<()> = Context::from_stream_request((), request);
    let mut pipe = params.pipeline();
    let mut written: Vec<u8> = vec![];
    loop {
        match pipe.step(ctx.get_aborted()) {
            PipelineAction::Dispatch => {
                let h = params.dispatch(&mut ctx);
                assert_eq!(h, Some(0));
                written = ctx.send_response(200, b"hello".to_vec()).unwrap();
            }
            PipelineAction::Finish => break,
            _ => panic!("no middleware registered"),
        }
    }
    assert_eq!(written, b"HTTP/1.1 200 OK\r\ncontent-length: 5\r\n\r\nhello".to_vec());
    let keep = ctx.judge_enable_keep_alive();
    assert!(keep);
    assert_eq!(conn.step(ConnEvent::ExchangeDone { keep_alive: keep }), ConnAction::ReadHttpRequest);
    assert_eq!(conn.state, ConnState::PlainHttpLoop);
}

#[test]
fn dispatch_sets_route_params() {
    let mut server = Server::new();
    server.route("/user/:id", 4).unwrap();
    let params = RequestHandlerImmutableParams::new(&server, 1024);
    let request = parse_request_head(b"GET /user/42?x=1 HTTP/1.1\r\n\r\n").unwrap();
    let mut ctx: Context<()> = Context::from_stream_request((), request);
    assert_eq!(params.dispatch(&mut ctx), Some(4));
    assert_eq!(ctx.get_route_params(), &vec![("id".to_string(), "42".to_string())]);
}

#[test]
fn parse_full_head() {
    let head = b"POST /a/b?x=1&y HTTP/1.0\r\nHost: example.org\r\nUpgrade:  websocket \r\nContent-Length: 12\r\n\r\n";
    let r = parse_request_head(head).unwrap();
    assert_eq!(r.method, "POST");
    assert_eq!(r.path, "/a/b");
    assert_eq!(
        r.querys,
        vec![("x".to_string(), "1".to_string()), ("y".to_string(), "".to_string())]
    );
    assert_eq!(r.version, HttpVersion::Http10);
    assert_eq!(r.host, "example.org");
    assert_eq!(r.upgrade_type, UpgradeType::WebSocket);
    assert_eq!(r.headers[1], ("Upgrade".to_string(), "websocket".to_string()));
    assert_eq!(content_length(&r.headers), Some(12));
    assert!(r.body.is_empty());
}

#[test]
fn parse_rejects_bad_heads() {
    assert!(parse_request_head(b"GET /\r\n\r\n").is_err());
    assert!(parse_request_head(b"GET / HTTP/1.1\r\nNoColon\r\n\r\n").is_err());
    assert!(parse_request_head(b"GET / HTTP/1.1\r\n: empty key\r\n\r\n").is_err());
    assert!(parse_request_head(b"GET /\xff HTTP/1.1\r\n\r\n").is_err());
    assert!(find_head_end(b"GET / HTTP/1.1\r\n").is_none());
}

#[test]
fn content_length_rules() {
    let mut h = vec![];
    assert_eq!(content_length(&h), Some(0));
    h.push(("content-length".to_string(), "12a".to_string()));
    assert_eq!(content_length(&h), None);
    h[0].1 = "99999999999999999999999".to_string();
    assert_eq!(content_length(&h), None);
    h[0].1 = "".to_string();
    assert_eq!(content_length(&h), None);
}

#[test]
fn server_configuration() {
    let mut s = Server::new();
    assert_eq!(s.address(), "0.0.0.0:60000");
    s.host("127.0.0.1");
    s.port(80);
    s.http_line_buffer_size(0);
    s.websocket_buffer_size(2048);
    s.disable_log();
    s.enable_nodelay();
    s.enable_linger(10);
    s.set_ttl(64);
    s.request_middleware(3);
    s.response_middleware(4);
    assert_eq!(s.address(), "127.0.0.1:80");
    assert_eq!(s.config.http_line_buffer_size, hyperlane::config::DEFAULT_BUFFER_SIZE);
    assert_eq!(s.config.websocket_buffer_size, 2048);
    assert_eq!(s.config.log_size, 0);
    assert!(s.config.nodelay);
    assert_eq!(s.config.linger, Some(10));
    assert_eq!(s.config.ttl, Some(64));
    assert_eq!(s.request_middleware, vec![3]);
    assert_eq!(s.response_middleware, vec![4]);
}
