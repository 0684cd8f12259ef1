//! The per-request context that middleware and handlers work on.
//!
//! The context decides what goes on the wire; the embedding runtime holds the
//! transport (`S`), guards the context with one reader-writer lock, and
//! writes the bytes that the send operations return.
use vstd::prelude::*;
use vstd::string::StringExecFns;
use crate::error::ResponseError;
use crate::http::{
    encode_request, encode_response, is_default_request, is_default_response, get_header, get_query, header_value, opt_view, pairs_view, query_value,
    set_header, set_query, with_header, with_query, websocket_requested, Headers, Request,
    Response, UpgradeType,
};
use crate::text::{copy_bytes, decimal, decimal_string, lossy_text, lossy_text_of};
use crate::websocket::{accept_key_of, encode_text_frame, generate_accept_key, text_frame};

verus! {

/// What one logical request carries.
pub struct InnerContext<S> {
    /// The connection's transport; absent when the context is detached.
    pub stream: Option<S>,
    pub request: Request,
    pub response: Response,
    /// Set by middleware to skip the rest of the pipeline.
    pub aborted: bool,
    /// Set once the exchange was ended by `close` or `send_response_once`.
    pub closed: bool,
    /// Parameters captured by the matching route pattern.
    pub route_params: Vec<(String, String)>,
}

/// The context of one logical request.
pub struct Context<S>(pub InnerContext<S>);

/// Outcome of `close`: a context without transport cannot close; otherwise
/// the first close ends the exchange (`Ok(true)`: close the transport) and
/// later ones do nothing (`Ok(false)`).
pub open spec fn close_outcome<S>(c: Context<S>) -> (Context<S>, Result<bool, ResponseError>) {
    if c.0.stream is None {
        (c, Err(ResponseError::NotFoundStream))
    } else {
        (Context(InnerContext { closed: true, ..c.0 }), Ok(!c.0.closed))
    }
}

/// `host:port`, the address a listener binds.
pub open spec fn host_port(host: Seq<char>, port: nat) -> Seq<char> {
    host + ":"@ + decimal(port)
}

impl<S> Context<S> {
    pub fn from_inner_context(ctx: InnerContext<S>) -> (r: Self)
        ensures
            r.0 == ctx,
    {
        Context(ctx)
    }

    /// A fresh context for one request on a transport: default response,
    /// not aborted, not closed, no route parameters.
    pub fn from_stream_request(stream: S, request: Request) -> (r: Self)
        ensures
            r.0.stream == Some(stream),
            r.0.request == request,
            is_default_response(r.0.response),
            !r.0.aborted,
            !r.0.closed,
            r.0.route_params@.len() == 0,
    {
        Context(
            InnerContext {
                stream: Some(stream),
                request,
                response: Response::default(),
                aborted: false,
                closed: false,
                route_params: Vec::new(),
            },
        )
    }

    pub fn get_stream(&self) -> (r: &Option<S>)
        ensures
            *r == self.0.stream,
    {
        &self.0.stream
    }

    pub fn get_request(&self) -> (r: &Request)
        ensures
            *r == self.0.request,
    {
        &self.0.request
    }

    pub fn get_response(&self) -> (r: &Response)
        ensures
            *r == self.0.response,
    {
        &self.0.response
    }

    pub fn set_request(&mut self, request: Request)
        ensures
            final(self).0 == (InnerContext { request, ..old(self).0 }),
    {
        self.0.request = request;
    }

    pub fn get_aborted(&self) -> (r: bool)
        ensures
            r == self.0.aborted,
    {
        self.0.aborted
    }

    pub fn set_aborted(&mut self, aborted: bool)
        ensures
            final(self).0 == (InnerContext { aborted, ..old(self).0 }),
    {
        self.0.aborted = aborted;
    }

    pub fn get_route_params(&self) -> (r: &Vec<(String, String)>)
        ensures
            *r == self.0.route_params,
    {
        &self.0.route_params
    }

    pub fn set_route_params(&mut self, params: Vec<(String, String)>)
        ensures
            final(self).0 == (InnerContext { route_params: params, ..old(self).0 }),
    {
        self.0.route_params = params;
    }

    /// The value of the first request header named `key`, ignoring case.
    pub fn get_request_header(&self, key: &str) -> (r: Option<String>)
        ensures
            opt_view(r) == header_value(pairs_view(self.0.request.headers@), key@),
    {
        get_header(&self.0.request.headers, key)
    }

    /// The value of the first response header named `key`, ignoring case.
    pub fn get_response_header(&self, key: &str) -> (r: Option<String>)
        ensures
            opt_view(r) == header_value(pairs_view(self.0.response.headers@), key@),
    {
        get_header(&self.0.response.headers, key)
    }

    pub fn get_request_headers(&self) -> (r: &Headers)
        ensures
            *r == self.0.request.headers,
    {
        &self.0.request.headers
    }

    pub fn get_response_headers(&self) -> (r: &Headers)
        ensures
            *r == self.0.response.headers,
    {
        &self.0.response.headers
    }

    /// Sets response header `key` to `value`, replacing the first header
    /// with that key (ignoring case), or appending one.
    pub fn set_response_header(&mut self, key: String, value: String)
        ensures
            pairs_view(final(self).0.response.headers@) == with_header(
                pairs_view(old(self).0.response.headers@),
                key@,
                value@,
            ),
            header_value(pairs_view(final(self).0.response.headers@), key@) == Some(value@),
            final(self).0 == (InnerContext {
                response: Response {
                    headers: final(self).0.response.headers,
                    ..old(self).0.response
                },
                ..old(self).0
            }),
    {
        set_header(&mut self.0.response.headers, key, value);
    }

    /// Sets request header `key` to `value`, as for the response.
    pub fn set_request_header(&mut self, key: String, value: String)
        ensures
            pairs_view(final(self).0.request.headers@) == with_header(
                pairs_view(old(self).0.request.headers@),
                key@,
                value@,
            ),
            header_value(pairs_view(final(self).0.request.headers@), key@) == Some(value@),
            final(self).0 == (InnerContext {
                request: Request { headers: final(self).0.request.headers, ..old(self).0.request },
                ..old(self).0
            }),
    {
        set_header(&mut self.0.request.headers, key, value);
    }

    pub fn get_request_method(&self) -> (r: &String)
        ensures
            *r == self.0.request.method,
    {
        &self.0.request.method
    }

    pub fn set_request_method(&mut self, method: String)
        ensures
            final(self).0 == (InnerContext {
                request: Request { method, ..old(self).0.request },
                ..old(self).0
            }),
    {
        self.0.request.method = method;
    }

    pub fn get_request_host(&self) -> (r: &String)
        ensures
            *r == self.0.request.host,
    {
        &self.0.request.host
    }

    pub fn set_request_host(&mut self, host: String)
        ensures
            final(self).0 == (InnerContext {
                request: Request { host, ..old(self).0.request },
                ..old(self).0
            }),
    {
        self.0.request.host = host;
    }

    pub fn set_request_path(&mut self, path: String)
        ensures
            final(self).0 == (InnerContext {
                request: Request { path, ..old(self).0.request },
                ..old(self).0
            }),
    {
        self.0.request.path = path;
    }

    pub fn get_request_querys(&self) -> (r: &Vec<(String, String)>)
        ensures
            *r == self.0.request.querys,
    {
        &self.0.request.querys
    }

    /// The value of query `key` (exact key).
    pub fn get_request_query(&self, key: &str) -> (r: Option<String>)
        ensures
            opt_view(r) == query_value(pairs_view(self.0.request.querys@), key@),
    {
        get_query(&self.0.request.querys, key)
    }

    pub fn set_request_querys(&mut self, querys: Vec<(String, String)>)
        ensures
            final(self).0 == (InnerContext {
                request: Request { querys, ..old(self).0.request },
                ..old(self).0
            }),
    {
        self.0.request.querys = querys;
    }

    /// Sets query `key` to `value`, replacing the pair with that key.
    pub fn set_request_query(&mut self, key: String, value: String)
        ensures
            pairs_view(final(self).0.request.querys@) == with_query(
                pairs_view(old(self).0.request.querys@),
                key@,
                value@,
            ),
            final(self).0 == (InnerContext {
                request: Request { querys: final(self).0.request.querys, ..old(self).0.request },
                ..old(self).0
            }),
    {
        set_query(&mut self.0.request.querys, key, value);
    }

    pub fn set_request_headers(&mut self, headers: Headers)
        ensures
            final(self).0 == (InnerContext {
                request: Request { headers, ..old(self).0.request },
                ..old(self).0
            }),
    {
        self.0.request.headers = headers;
    }

    pub fn get_request_upgrade_type(&self) -> (r: UpgradeType)
        ensures
            r == self.0.request.upgrade_type,
    {
        self.0.request.upgrade_type
    }

    pub fn set_response_headers(&mut self, headers: Headers)
        ensures
            final(self).0 == (InnerContext {
                response: Response { headers, ..old(self).0.response },
                ..old(self).0
            }),
    {
        self.0.response.headers = headers;
    }

    pub fn get_request_path(&self) -> (r: &String)
        ensures
            *r == self.0.request.path,
    {
        &self.0.request.path
    }

    pub fn get_request_body(&self) -> (r: &Vec<u8>)
        ensures
            *r == self.0.request.body,
    {
        &self.0.request.body
    }

    pub fn set_request_body(&mut self, body: Vec<u8>)
        ensures
            final(self).0 == (InnerContext {
                request: Request { body, ..old(self).0.request },
                ..old(self).0
            }),
    {
        self.0.request.body = body;
    }

    pub fn get_response_body(&self) -> (r: &Vec<u8>)
        ensures
            *r == self.0.response.body,
    {
        &self.0.response.body
    }

    pub fn set_response_body(&mut self, body: Vec<u8>)
        ensures
            final(self).0 == (InnerContext {
                response: Response { body, ..old(self).0.response },
                ..old(self).0
            }),
    {
        self.0.response.body = body;
    }

    pub fn get_response_status_code(&self) -> (r: usize)
        ensures
            r == self.0.response.status_code,
    {
        self.0.response.status_code
    }

    pub fn set_response_status_code(&mut self, status_code: usize)
        ensures
            final(self).0 == (InnerContext {
                response: Response { status_code, ..old(self).0.response },
                ..old(self).0
            }),
    {
        self.0.response.status_code = status_code;
    }

    pub fn get_response_reason_phrase(&self) -> (r: &String)
        ensures
            *r == self.0.response.reason_phrase,
    {
        &self.0.response.reason_phrase
    }

    pub fn set_response_reason_phrase(&mut self, reason_phrase: String)
        ensures
            final(self).0 == (InnerContext {
                response: Response { reason_phrase, ..old(self).0.response },
                ..old(self).0
            }),
    {
        self.0.response.reason_phrase = reason_phrase;
    }

    /// The request body as text; ill-formed UTF-8 becomes U+FFFD.
    pub fn get_request_body_string(&self) -> (r: String)
        ensures
            r@ == lossy_text_of(self.0.request.body@),
    {
        lossy_text(self.0.request.body.as_slice())
    }

    /// The response body as text; ill-formed UTF-8 becomes U+FFFD.
    pub fn get_response_body_string(&self) -> (r: String)
        ensures
            r@ == lossy_text_of(self.0.response.body@),
    {
        lossy_text(self.0.response.body.as_slice())
    }

    /// The whole request as text, as it would be sent.
    pub fn get_request_string(&self) -> (r: String)
        ensures
            r@ == lossy_text_of(encode_request(self.0.request)),
    {
        let bytes = self.0.request.to_bytes();
        lossy_text(bytes.as_slice())
    }

    /// The whole response as text, as it would be sent.
    pub fn get_response_string(&self) -> (r: String)
        ensures
            r@ == lossy_text_of(encode_response(self.0.response)),
    {
        let bytes = self.0.response.to_bytes();
        lossy_text(bytes.as_slice())
    }

    /// Whether the current request opened a WebSocket session.
    pub fn inner_is_websocket(&self) -> (r: bool)
        ensures
            r == (self.0.request.upgrade_type == UpgradeType::WebSocket),
    {
        self.0.request.upgrade_type.is_websocket()
    }

    /// Sets status and body and gives the response bytes to write. Refused
    /// without a transport, and, unless `handle_websocket`, on a WebSocket
    /// session; a refusal changes nothing.
    pub fn inner_send_response(
        &mut self,
        status_code: usize,
        body: Vec<u8>,
        handle_websocket: bool,
    ) -> (r: Result<Vec<u8>, ResponseError>)
        ensures
            old(self).0.stream is None ==> r == Err::<Vec<u8>, ResponseError>(
                ResponseError::NotFoundStream,
            ) && final(self).0 == old(self).0,
            old(self).0.stream is Some && !handle_websocket && old(self).0.request.upgrade_type
                == UpgradeType::WebSocket ==> r == Err::<Vec<u8>, ResponseError>(
                ResponseError::NotSupportUseThisMethod,
            ) && final(self).0 == old(self).0,
            old(self).0.stream is Some && (handle_websocket || old(self).0.request.upgrade_type
                != UpgradeType::WebSocket) ==> final(self).0 == (InnerContext {
                response: Response { status_code, body, ..old(self).0.response },
                ..old(self).0
            }) && (r matches Ok(bytes) && bytes@ == encode_response(final(self).0.response)),
    {
        if self.0.stream.is_none() {
            return Err(ResponseError::NotFoundStream);
        }
        if !handle_websocket && self.inner_is_websocket() {
            return Err(ResponseError::NotSupportUseThisMethod);
        }
        self.0.response.body = body;
        self.0.response.status_code = status_code;
        Ok(self.0.response.to_bytes())
    }

    /// Sends a response with this status and body on a plain HTTP exchange.
    pub fn send_response(&mut self, status_code: usize, body: Vec<u8>) -> (r: Result<
        Vec<u8>,
        ResponseError,
    >)
        ensures
            old(self).0.stream is None ==> r == Err::<Vec<u8>, ResponseError>(
                ResponseError::NotFoundStream,
            ) && final(self).0 == old(self).0,
            old(self).0.stream is Some && old(self).0.request.upgrade_type
                == UpgradeType::WebSocket ==> r == Err::<Vec<u8>, ResponseError>(
                ResponseError::NotSupportUseThisMethod,
            ) && final(self).0 == old(self).0,
            old(self).0.stream is Some && old(self).0.request.upgrade_type
                != UpgradeType::WebSocket ==> final(self).0 == (InnerContext {
                response: Response { status_code, body, ..old(self).0.response },
                ..old(self).0
            }) && (r matches Ok(bytes) && bytes@ == encode_response(final(self).0.response)),
    {
        self.inner_send_response(status_code, body, false)
    }

    /// Sends the current response as it stands.
    pub fn send(&mut self) -> (r: Result<Vec<u8>, ResponseError>)
        ensures
            final(self).0 == (InnerContext {
                response: Response { body: final(self).0.response.body, ..old(self).0.response },
                ..old(self).0
            }),
            final(self).0.response.body@ == old(self).0.response.body@,
            old(self).0.stream is None ==> r == Err::<Vec<u8>, ResponseError>(
                ResponseError::NotFoundStream,
            ),
            old(self).0.stream is Some && old(self).0.request.upgrade_type
                == UpgradeType::WebSocket ==> r == Err::<Vec<u8>, ResponseError>(
                ResponseError::NotSupportUseThisMethod,
            ),
            old(self).0.stream is Some && old(self).0.request.upgrade_type
                != UpgradeType::WebSocket ==> (r matches Ok(bytes) && bytes@ == encode_response(
                final(self).0.response,
            )),
    {
        let body = copy_bytes(&self.0.response.body);
        let status_code = self.0.response.status_code;
        self.send_response(status_code, body)
    }

    /// Like `send_response`, and then ends the exchange: on success the
    /// context is closed and the caller closes the transport after writing.
    pub fn send_response_once(&mut self, status_code: usize, body: Vec<u8>) -> (r: Result<
        Vec<u8>,
        ResponseError,
    >)
        ensures
            old(self).0.stream is None ==> r == Err::<Vec<u8>, ResponseError>(
                ResponseError::NotFoundStream,
            ) && final(self).0 == old(self).0,
            old(self).0.stream is Some && old(self).0.request.upgrade_type
                == UpgradeType::WebSocket ==> r == Err::<Vec<u8>, ResponseError>(
                ResponseError::NotSupportUseThisMethod,
            ) && final(self).0 == old(self).0,
            old(self).0.stream is Some && old(self).0.request.upgrade_type
                != UpgradeType::WebSocket ==> final(self).0 == (InnerContext {
                response: Response { status_code, body, ..old(self).0.response },
                closed: true,
                ..old(self).0
            }) && (r matches Ok(bytes) && bytes@ == encode_response(final(self).0.response)),
    {
        let r = self.inner_send_response(status_code, body, false);
        if r.is_ok() {
            self.0.closed = true;
        }
        r
    }

    /// Sends the current response and ends the exchange.
    pub fn send_once(&mut self) -> (r: Result<Vec<u8>, ResponseError>)
        ensures
            final(self).0 == (InnerContext {
                response: Response { body: final(self).0.response.body, ..old(self).0.response },
                closed: final(self).0.closed,
                ..old(self).0
            }),
            final(self).0.response.body@ == old(self).0.response.body@,
            old(self).0.stream is None ==> r == Err::<Vec<u8>, ResponseError>(
                ResponseError::NotFoundStream,
            ) && final(self).0.closed == old(self).0.closed,
            old(self).0.stream is Some && old(self).0.request.upgrade_type
                == UpgradeType::WebSocket ==> r == Err::<Vec<u8>, ResponseError>(
                ResponseError::NotSupportUseThisMethod,
            ) && final(self).0.closed == old(self).0.closed,
            old(self).0.stream is Some && old(self).0.request.upgrade_type
                != UpgradeType::WebSocket ==> final(self).0.closed && (r matches Ok(bytes)
                && bytes@ == encode_response(final(self).0.response)),
    {
        let body = copy_bytes(&self.0.response.body);
        let status_code = self.0.response.status_code;
        self.send_response_once(status_code, body)
    }

    /// Sets the body and gives the bytes that carry it alone: one text frame
    /// on a WebSocket session, the raw body otherwise.
    pub fn send_response_body(&mut self, body: Vec<u8>) -> (r: Result<Vec<u8>, ResponseError>)
        ensures
            old(self).0.stream is None ==> r == Err::<Vec<u8>, ResponseError>(
                ResponseError::NotFoundStream,
            ) && final(self).0 == old(self).0,
            old(self).0.stream is Some ==> final(self).0 == (InnerContext {
                response: Response { body, ..old(self).0.response },
                ..old(self).0
            }) && (r matches Ok(bytes) && bytes@ == (if old(self).0.request.upgrade_type
                == UpgradeType::WebSocket {
                text_frame(body@)
            } else {
                body@
            })),
    {
        if self.0.stream.is_none() {
            return Err(ResponseError::NotFoundStream);
        }
        let bytes = if self.inner_is_websocket() {
            encode_text_frame(body.as_slice())
        } else {
            copy_bytes(&body)
        };
        self.0.response.body = body;
        Ok(bytes)
    }

    /// Sends the current body alone.
    pub fn send_body(&mut self) -> (r: Result<Vec<u8>, ResponseError>)
        ensures
            final(self).0 == (InnerContext {
                response: Response { body: final(self).0.response.body, ..old(self).0.response },
                ..old(self).0
            }),
            final(self).0.response.body@ == old(self).0.response.body@,
            old(self).0.stream is None ==> r == Err::<Vec<u8>, ResponseError>(
                ResponseError::NotFoundStream,
            ),
            old(self).0.stream is Some ==> (r matches Ok(bytes) && bytes@ == (if old(
                self,
            ).0.request.upgrade_type == UpgradeType::WebSocket {
                text_frame(old(self).0.response.body@)
            } else {
                old(self).0.response.body@
            })),
    {
        let body = copy_bytes(&self.0.response.body);
        self.send_response_body(body)
    }

    /// Ends the exchange. `Ok(true)` asks the caller to close the transport;
    /// a second close is a no-op that gives `Ok(false)`.
    pub fn close(&mut self) -> (r: Result<bool, ResponseError>)
        ensures
            (*final(self), r) == close_outcome(*old(self)),
    {
        if self.0.stream.is_none() {
            return Err(ResponseError::NotFoundStream);
        }
        let first = !self.0.closed;
        self.0.closed = true;
        Ok(first)
    }

    /// Whether a flush can go to the transport.
    pub fn flush(&self) -> (r: Result<(), ResponseError>)
        ensures
            self.0.stream is None ==> r == Err::<(), ResponseError>(ResponseError::NotFoundStream),
            self.0.stream is Some ==> r is Ok,
    {
        if self.0.stream.is_none() {
            return Err(ResponseError::NotFoundStream);
        }
        Ok(())
    }

    /// Whether the connection stays open after this request is answered.
    pub fn judge_enable_keep_alive(&self) -> (r: bool)
        ensures
            r == self.0.request.spec_keep_alive(),
    {
        self.0.request.is_enable_keep_alive()
    }

    pub fn judge_unenable_keep_alive(&self) -> (r: bool)
        ensures
            r == !self.0.request.spec_keep_alive(),
    {
        !self.judge_enable_keep_alive()
    }

    /// Whether the request asks to switch to WebSocket.
    pub fn judge_enable_websocket(&self) -> (r: bool)
        ensures
            r == websocket_requested(pairs_view(self.0.request.headers@)),
    {
        self.0.request.is_websocket_requested()
    }

    /// Answers an upgrade request whose accept key is `accept`: the response
    /// becomes `101 Switching Protocols` with `Upgrade: websocket`,
    /// `Connection: Upgrade` and `Sec-WebSocket-Accept: accept`, and its bytes
    /// are returned for the caller to write; the handshake then counts as done.
    /// It counts as done once the bytes are handed out, before they are
    /// written: a caller whose write fails closes the connection, so no frame
    /// is ever read on a session whose handshake did not reach the peer.
    pub fn respond_handshake(&mut self, accept: String, is_handshake: &mut bool) -> (r: Result<
        Vec<u8>,
        ResponseError,
    >)
        ensures
            pairs_view(final(self).0.response.headers@) == with_header(
                with_header(
                    with_header(
                        pairs_view(old(self).0.response.headers@),
                        "Upgrade"@,
                        "websocket"@,
                    ),
                    "Connection"@,
                    "Upgrade"@,
                ),
                "Sec-WebSocket-Accept"@,
                accept@,
            ),
            final(self).0.response.reason_phrase@ == "Switching Protocols"@,
            final(self).0.request == old(self).0.request,
            final(self).0.stream == old(self).0.stream,
            old(self).0.stream is None ==> r == Err::<Vec<u8>, ResponseError>(
                ResponseError::NotFoundStream,
            ) && *final(is_handshake) == *old(is_handshake),
            old(self).0.stream is Some ==> final(self).0.response.status_code == 101
                && final(self).0.response.body@.len() == 0 && *final(is_handshake) && (r matches Ok(
                bytes,
            ) && bytes@ == encode_response(final(self).0.response)),
    {
        set_header(
            &mut self.0.response.headers,
            String::from_str("Upgrade"),
            String::from_str("websocket"),
        );
        set_header(
            &mut self.0.response.headers,
            String::from_str("Connection"),
            String::from_str("Upgrade"),
        );
        set_header(&mut self.0.response.headers, String::from_str("Sec-WebSocket-Accept"), accept);
        self.0.response.reason_phrase = String::from_str("Switching Protocols");
        let r = self.inner_send_response(101, Vec::new(), true);
        if r.is_ok() {
            *is_handshake = true;
        }
        r
    }

    /// Performs the opening handshake once. When it is already done, nothing
    /// is sent. Otherwise the request must carry `Sec-WebSocket-Key`, and the
    /// handshake is answered with the accept key computed from it.
    pub fn handle_websocket(&mut self, is_handshake: &mut bool) -> (r: Result<
        Vec<u8>,
        ResponseError,
    >)
        ensures
            *old(is_handshake) ==> (r matches Ok(b) && b@.len() == 0) && *final(is_handshake)
                && final(self).0 == old(self).0,
            !*old(is_handshake) && header_value(
                pairs_view(old(self).0.request.headers@),
                "sec-websocket-key"@,
            ) is None ==> r == Err::<Vec<u8>, ResponseError>(
                ResponseError::WebSocketHandShakeError,
            ) && !*final(is_handshake) && final(self).0 == old(self).0,
            !*old(is_handshake) ==> (header_value(
                pairs_view(old(self).0.request.headers@),
                "sec-websocket-key"@,
            ) matches Some(key) ==> {
                &&& pairs_view(final(self).0.response.headers@) == with_header(
                    with_header(
                        with_header(
                            pairs_view(old(self).0.response.headers@),
                            "Upgrade"@,
                            "websocket"@,
                        ),
                        "Connection"@,
                        "Upgrade"@,
                    ),
                    "Sec-WebSocket-Accept"@,
                    accept_key_of(key),
                )
                &&& final(self).0.response.reason_phrase@ == "Switching Protocols"@
                &&& old(self).0.stream is None ==> r == Err::<Vec<u8>, ResponseError>(
                    ResponseError::NotFoundStream,
                ) && !*final(is_handshake)
                &&& old(self).0.stream is Some ==> final(self).0.response.status_code == 101
                    && final(self).0.response.body@.len() == 0 && *final(is_handshake)
                    && (r matches Ok(bytes) && bytes@ == encode_response(final(self).0.response))
            }),
    {
        if *is_handshake {
            return Ok(Vec::new());
        }
        match get_header(&self.0.request.headers, "sec-websocket-key") {
            None => Err(ResponseError::WebSocketHandShakeError),
            Some(key) => {
                let accept = generate_accept_key(key.as_str());
                self.respond_handshake(accept, is_handshake)
            },
        }
    }

    /// `host:port`, the address a listener binds.
    pub fn format_host_port(host: &str, port: &usize) -> (r: String)
        ensures
            r@ == host_port(host@, *port as nat),
    {
        let mut s = host.to_string();
        s.append(":");
        let p = decimal_string(*port);
        s.append(p.as_str());
        s
    }
}

/// What a handler of the single-phase API receives: transport, request and response.
pub struct InnerControllerData<S> {
    pub stream: Option<S>,
    pub request: Request,
    pub response: Response,
}

pub struct ControllerData<S>(pub InnerControllerData<S>);

impl<S> ControllerData<S> {
    /// No transport, the default request and the default response.
    pub fn new() -> (r: Self)
        ensures
            r.0.stream is None,
            is_default_request(r.0.request),
            is_default_response(r.0.response),
    {
        ControllerData(
            InnerControllerData {
                stream: None,
                request: Request::default(),
                response: Response::default(),
            },
        )
    }
}

/// Idempotence of `close`: closing a second time changes nothing and
/// reports no transport to close (or, without transport, the same error).
pub proof fn lemma_close_twice<S>(c: Context<S>)
    ensures
        close_outcome(close_outcome(c).0).0 == close_outcome(c).0,
        c.0.stream is Some ==> close_outcome(close_outcome(c).0).1 == Ok::<bool, ResponseError>(
            false,
        ),
        c.0.stream is None ==> close_outcome(close_outcome(c).0).1 == Err::<bool, ResponseError>(
            ResponseError::NotFoundStream,
        ),
{
}

} // verus!
