//! The server: its configuration, routes and middleware lists, and what a
//! connection reads from them.
use vstd::prelude::*;
use crate::config::{
    buffer_size_or_default, effective_buffer_size, ServerConfig, DEFAULT_LOG_FILE_SIZE,
    DISABLE_LOG_FILE_SIZE,
};
use crate::context::{host_port, Context};
use crate::error::RouteError;
use crate::http::{
    connection_decision_from, keep_alive_of, pairs_view, HttpVersion, PairsView, Request, UpgradeType,
};
use crate::pipeline::{conn_step, ConnAction, ConnEvent, ConnState, Pipeline};
use crate::route::{
    entry_pattern, has_param, has_param_segment, overlaps_any, pattern_lookup, pattern_of, table_lookup, with_route, HandlerId,
    Router,
};

verus! {

/// The server's state: configuration, routes, and the handlers to run
/// before and after dispatch, in registration order. Handlers are held by
/// the embedding runtime and named here by index.
pub struct Server {
    pub config: ServerConfig,
    pub router: Router,
    pub request_middleware: Vec<HandlerId>,
    pub response_middleware: Vec<HandlerId>,
}

impl Server {
    pub open spec fn wf(&self) -> bool {
        self.router.wf()
    }

    /// Routes and middleware lists are those of `other`.
    pub open spec fn same_routes_and_middleware(&self, other: &Server) -> bool {
        &&& self.router == other.router
        &&& self.request_middleware == other.request_middleware
        &&& self.response_middleware == other.response_middleware
    }

    /// A server with the default configuration, no routes and no middleware.
    pub fn new() -> (r: Self)
        ensures
            r.wf(),
            r.router.table.entries@.len() == 0,
            r.router.matcher.entries@.len() == 0,
            forall|p: Seq<char>| r.router.spec_resolve(p) is None,
            crate::config::is_default_config(r.config),
            r.request_middleware@.len() == 0,
            r.response_middleware@.len() == 0,
    {
        Server {
            config: ServerConfig::default(),
            router: Router::new(),
            request_middleware: Vec::new(),
            response_middleware: Vec::new(),
        }
    }

    pub fn host(&mut self, host: &str)
        ensures
            final(self).config.host@ == host@,
            final(self).config == (ServerConfig {
                host: final(self).config.host,
                ..old(self).config
            }),
            final(self).same_routes_and_middleware(old(self)),
    {
        self.config.host = host.to_string();
    }

    pub fn port(&mut self, port: usize)
        ensures
            final(self).config == (ServerConfig { port, ..old(self).config }),
            final(self).same_routes_and_middleware(old(self)),
    {
        self.config.port = port;
    }

    pub fn log_dir(&mut self, log_dir: &str)
        ensures
            final(self).config.log_dir@ == log_dir@,
            final(self).config == (ServerConfig {
                log_dir: final(self).config.log_dir,
                ..old(self).config
            }),
            final(self).same_routes_and_middleware(old(self)),
    {
        self.config.log_dir = log_dir.to_string();
    }

    pub fn log_size(&mut self, log_size: usize)
        ensures
            final(self).config == (ServerConfig { log_size, ..old(self).config }),
            final(self).same_routes_and_middleware(old(self)),
    {
        self.config.log_size = log_size;
    }

    /// Turns the log on at the default file size.
    pub fn enable_log(&mut self)
        ensures
            final(self).config == (ServerConfig {
                log_size: DEFAULT_LOG_FILE_SIZE,
                ..old(self).config
            }),
            final(self).same_routes_and_middleware(old(self)),
    {
        self.config.log_size = DEFAULT_LOG_FILE_SIZE;
    }

    /// Turns the log off (file size zero).
    pub fn disable_log(&mut self)
        ensures
            final(self).config == (ServerConfig {
                log_size: DISABLE_LOG_FILE_SIZE,
                ..old(self).config
            }),
            final(self).same_routes_and_middleware(old(self)),
    {
        self.config.log_size = DISABLE_LOG_FILE_SIZE;
    }

    /// Sets the line buffer size for reading HTTP; zero means the default.
    pub fn http_line_buffer_size(&mut self, buffer_size: usize)
        ensures
            final(self).config == (ServerConfig {
                http_line_buffer_size: effective_buffer_size(buffer_size),
                ..old(self).config
            }),
            final(self).same_routes_and_middleware(old(self)),
    {
        self.config.http_line_buffer_size = buffer_size_or_default(buffer_size);
    }

    /// Sets the buffer size for reading WebSocket frames; zero means the default.
    pub fn websocket_buffer_size(&mut self, buffer_size: usize)
        ensures
            final(self).config == (ServerConfig {
                websocket_buffer_size: effective_buffer_size(buffer_size),
                ..old(self).config
            }),
            final(self).same_routes_and_middleware(old(self)),
    {
        self.config.websocket_buffer_size = buffer_size_or_default(buffer_size);
    }

    pub fn inner_print(&mut self, print: bool)
        ensures
            final(self).config == (ServerConfig { inner_print: print, ..old(self).config }),
            final(self).same_routes_and_middleware(old(self)),
    {
        self.config.inner_print = print;
    }

    pub fn inner_log(&mut self, log: bool)
        ensures
            final(self).config == (ServerConfig { inner_log: log, ..old(self).config }),
            final(self).same_routes_and_middleware(old(self)),
    {
        self.config.inner_log = log;
    }

    pub fn enable_inner_print(&mut self)
        ensures
            final(self).config == (ServerConfig { inner_print: true, ..old(self).config }),
            final(self).same_routes_and_middleware(old(self)),
    {
        self.inner_print(true);
    }

    pub fn disable_inner_print(&mut self)
        ensures
            final(self).config == (ServerConfig { inner_print: false, ..old(self).config }),
            final(self).same_routes_and_middleware(old(self)),
    {
        self.inner_print(false);
    }

    pub fn enable_inner_log(&mut self)
        ensures
            final(self).config == (ServerConfig { inner_log: true, ..old(self).config }),
            final(self).same_routes_and_middleware(old(self)),
    {
        self.inner_log(true);
    }

    pub fn disable_inner_log(&mut self)
        ensures
            final(self).config == (ServerConfig { inner_log: false, ..old(self).config }),
            final(self).same_routes_and_middleware(old(self)),
    {
        self.inner_log(false);
    }

    pub fn set_nodelay(&mut self, nodelay: bool)
        ensures
            final(self).config == (ServerConfig { nodelay, ..old(self).config }),
            final(self).same_routes_and_middleware(old(self)),
    {
        self.config.nodelay = nodelay;
    }

    pub fn enable_nodelay(&mut self)
        ensures
            final(self).config == (ServerConfig { nodelay: true, ..old(self).config }),
            final(self).same_routes_and_middleware(old(self)),
    {
        self.set_nodelay(true);
    }

    pub fn disable_nodelay(&mut self)
        ensures
            final(self).config == (ServerConfig { nodelay: false, ..old(self).config }),
            final(self).same_routes_and_middleware(old(self)),
    {
        self.set_nodelay(false);
    }

    /// Sets the linger time in milliseconds, or none.
    pub fn set_linger(&mut self, linger: Option<u64>)
        ensures
            final(self).config == (ServerConfig { linger, ..old(self).config }),
            final(self).same_routes_and_middleware(old(self)),
    {
        self.config.linger = linger;
    }

    pub fn enable_linger(&mut self, linger: u64)
        ensures
            final(self).config == (ServerConfig { linger: Some(linger), ..old(self).config }),
            final(self).same_routes_and_middleware(old(self)),
    {
        self.set_linger(Some(linger));
    }

    pub fn disable_linger(&mut self)
        ensures
            final(self).config == (ServerConfig { linger: None, ..old(self).config }),
            final(self).same_routes_and_middleware(old(self)),
    {
        self.set_linger(None);
    }

    pub fn set_ttl(&mut self, ttl: u32)
        ensures
            final(self).config == (ServerConfig { ttl: Some(ttl), ..old(self).config }),
            final(self).same_routes_and_middleware(old(self)),
    {
        self.config.ttl = Some(ttl);
    }

    /// Registers handler `h` for `route`. A literal path (no `:name`
    /// segment) goes to the exact table: that always succeeds and replaces
    /// an earlier handler for the path, and it may coexist with patterns that
    /// match it, over which it takes precedence. A path with a parameter goes
    /// to the pattern matcher: one that overlaps a registered pattern is
    /// refused and nothing changes; startup is expected to stop on that error.
    pub fn route(&mut self, route: &str, h: HandlerId) -> (r: Result<(), RouteError>)
        requires
            old(self).wf(),
        ensures
            final(self).wf(),
            final(self).config == old(self).config,
            final(self).request_middleware == old(self).request_middleware,
            final(self).response_middleware == old(self).response_middleware,
            !has_param(pattern_of(route@)) ==> r is Ok && final(self).router.matcher
                == old(self).router.matcher && (exists|p: String|
                p@ == route@ && final(self).router.table.entries@ == with_route(
                    old(self).router.table.entries@,
                    p,
                    h,
                )) && table_lookup(final(self).router.table.entries@, route@) == Some(h)
                && final(self).router.spec_resolve(route@) == Some(
                (h, Seq::<(Seq<char>, Seq<char>)>::empty()),
            ),
            has_param(pattern_of(route@)) ==> {
                &&& final(self).router.table == old(self).router.table
                &&& r is Err <==> overlaps_any(
                    old(self).router.matcher.entries@,
                    pattern_of(route@),
                )
                &&& r matches Err(RouteError::DuplicatePattern(p)) ==> p@ == route@
                &&& r is Err ==> final(self).router.matcher.entries@
                    == old(self).router.matcher.entries@
                &&& r is Ok ==> final(self).router.matcher.entries@.len() == old(
                    self,
                ).router.matcher.entries@.len() + 1 && final(self).router.matcher.entries@.drop_last()
                    == old(self).router.matcher.entries@ && entry_pattern(
                    final(self).router.matcher.entries@.last(),
                ) == pattern_of(route@) && final(self).router.matcher.entries@.last().1 == h
            },
    {
        if has_param_segment(route) {
            self.router.register_pattern(route, h)
        } else {
            let ghost before = self.router.table.entries@;
            let path = route.to_string();
            let ghost pv = path;
            self.router.register_exact(path, h);
            proof {
                crate::route::lemma_with_route_lookup(before, pv, h);
            }
            Ok(())
        }
    }

    /// Appends a handler to run before dispatch.
    pub fn request_middleware(&mut self, h: HandlerId)
        ensures
            final(self).request_middleware@ == old(self).request_middleware@.push(h),
            final(self).response_middleware == old(self).response_middleware,
            final(self).router == old(self).router,
            final(self).config == old(self).config,
    {
        self.request_middleware.push(h);
    }

    /// Appends a handler to run after dispatch.
    pub fn response_middleware(&mut self, h: HandlerId)
        ensures
            final(self).response_middleware@ == old(self).response_middleware@.push(h),
            final(self).request_middleware == old(self).request_middleware,
            final(self).router == old(self).router,
            final(self).config == old(self).config,
    {
        self.response_middleware.push(h);
    }

    /// The address to bind: `host:port`.
    pub fn address(&self) -> (r: String)
        ensures
            r@ == host_port(self.config.host@, self.config.port as nat),
    {
        Context::<()>::format_host_port(self.config.host.as_str(), &self.config.port)
    }
}

/// What one connection reads from the server while it serves.
pub struct RequestHandlerImmutableParams<'a> {
    pub server: &'a Server,
    /// The read buffer size for this connection's protocol.
    pub buffer_size: usize,
}

impl<'a> RequestHandlerImmutableParams<'a> {
    pub fn new(server: &'a Server, buffer_size: usize) -> (r: Self)
        ensures
            r.server == server,
            r.buffer_size == buffer_size,
    {
        RequestHandlerImmutableParams { server, buffer_size }
    }

    /// A pipeline over the server's middleware, for one logical request.
    pub fn pipeline(&self) -> (r: Pipeline)
        ensures
            r == Pipeline::new_spec(
                self.server.request_middleware@.len() as usize,
                self.server.response_middleware@.len() as usize,
            ),
            r.wf(),
    {
        Pipeline::new(self.server.request_middleware.len(), self.server.response_middleware.len())
    }

    /// Resolves the route of the context's request: an exact route gives its
    /// handler; otherwise a matching pattern gives its handler and stores
    /// its captures as the route parameters. Nothing else changes.
    pub fn dispatch<S>(&self, ctx: &mut Context<S>) -> (r: Option<HandlerId>)
        ensures
            final(ctx).0.request == old(ctx).0.request,
            final(ctx).0.response == old(ctx).0.response,
            final(ctx).0.stream == old(ctx).0.stream,
            final(ctx).0.aborted == old(ctx).0.aborted,
            final(ctx).0.closed == old(ctx).0.closed,
            match table_lookup(self.server.router.table.entries@, old(ctx).0.request.path@) {
                Some(h) => r == Some(h) && final(ctx).0.route_params == old(ctx).0.route_params,
                None => match pattern_lookup(
                    self.server.router.matcher.entries@,
                    old(ctx).0.request.path@,
                ) {
                    Some((h, params)) => r == Some(h) && pairs_view(final(ctx).0.route_params@)
                        == params,
                    None => r is None && final(ctx).0.route_params == old(ctx).0.route_params,
                },
            },
    {
        let path = ctx.0.request.path.as_str();
        match self.server.router.table.get(path) {
            Some(h) => Some(h),
            None => match self.server.router.matcher.match_route(path) {
                Some((h, params)) => {
                    ctx.0.route_params = params;
                    Some(h)
                },
                None => None,
            },
        }
    }
}

/// Registering a parameter route again is refused and changes nothing:
/// after `route(p, h1)` succeeded for a `p` with a `:name` segment, a later `route(p, h2)` meets a matcher whose
/// last entry holds `p`'s pattern, so it fails with the duplicate-pattern
/// error and leaves the routes (and so `h1`) in place.
pub proof fn lemma_route_twice_rejected(s: Server, p: Seq<char>)
    requires
        s.router.matcher.entries@.len() > 0,
        entry_pattern(s.router.matcher.entries@.last()) == pattern_of(p),
    ensures
        overlaps_any(s.router.matcher.entries@, pattern_of(p)),
{
    crate::route::lemma_duplicate_pattern_rejected(s.router.matcher.entries@, p);
}

/// Keep-alive: an explicit `Connection: close` or `Connection: keep-alive`
/// header overrides the version's default, whatever the version and the
/// other headers. After an HTTP exchange the connection closes exactly when
/// the request does not keep it alive; otherwise it reads the next request
/// from the same transport and runs the pipeline on it.
pub proof fn lemma_connection_header_decides(h: PairsView, version: HttpVersion, b: bool)
    requires
        connection_decision_from(h, 0) == Some(b),
    ensures
        keep_alive_of(h, version) == b,
        conn_step(
            ConnState::PlainHttpExchange,
            ConnEvent::ExchangeDone { keep_alive: keep_alive_of(h, version) },
        ) == (if b {
            (ConnState::PlainHttpLoop, ConnAction::ReadHttpRequest)
        } else {
            (ConnState::Closed, ConnAction::CloseTransport)
        }),
{
}

/// One plain HTTP connection: the first request runs the pipeline once; if
/// it keeps the connection alive the next request is read and runs the
/// pipeline in turn, else the transport closes and nothing more is read.
pub proof fn lemma_keep_alive_exchange(first: Request, websocket_next: bool)
    requires
        first.upgrade_type != UpgradeType::WebSocket,
    ensures
        conn_step(
            ConnState::AwaitingFirstRequest,
            ConnEvent::RequestRead { websocket: first.upgrade_type == UpgradeType::WebSocket },
        ) == (ConnState::PlainHttpExchange, ConnAction::RunPipeline),
        !first.spec_keep_alive() ==> conn_step(
            ConnState::PlainHttpExchange,
            ConnEvent::ExchangeDone { keep_alive: first.spec_keep_alive() },
        ) == (ConnState::Closed, ConnAction::CloseTransport),
        first.spec_keep_alive() ==> conn_step(
            ConnState::PlainHttpExchange,
            ConnEvent::ExchangeDone { keep_alive: first.spec_keep_alive() },
        ) == (ConnState::PlainHttpLoop, ConnAction::ReadHttpRequest) && conn_step(
            ConnState::PlainHttpLoop,
            ConnEvent::RequestRead { websocket: websocket_next },
        ) == (ConnState::PlainHttpExchange, ConnAction::RunPipeline),
        forall|e: ConnEvent|
            #![auto]
            conn_step(ConnState::Closed, e) == (ConnState::Closed, ConnAction::Stop),
{
}

} // verus!
