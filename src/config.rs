//! Server configuration values.
use vstd::prelude::*;
use vstd::string::StringExecFns;

verus! {

pub const DEFAULT_WEB_PORT: usize = 60000;

pub const DEFAULT_BUFFER_SIZE: usize = 524288;

pub const DEFAULT_LOG_FILE_SIZE: usize = 1073741824;

/// A log size of zero turns the log off.
pub const DISABLE_LOG_FILE_SIZE: usize = 0;

pub const DEFAULT_LOG_INTERVAL_MILLIS: usize = 1000;

/// What the server is configured with before it serves.
#[derive(Clone, Debug)]
pub struct ServerConfig {
    pub host: String,
    pub port: usize,
    pub log_dir: String,
    pub log_size: usize,
    pub interval_millis: usize,
    pub inner_print: bool,
    pub inner_log: bool,
    pub websocket_buffer_size: usize,
    pub http_line_buffer_size: usize,
    pub nodelay: bool,
    /// Linger time in milliseconds, or none.
    pub linger: Option<u64>,
    pub ttl: Option<u32>,
}

/// Listens on `0.0.0.0` at the default port, logs to `./logs`, with
/// default buffer sizes and no socket options set.
pub open spec fn is_default_config(r: ServerConfig) -> bool {
    &&& r.host@ == "0.0.0.0"@
    &&& r.port == DEFAULT_WEB_PORT
    &&& r.log_dir@ == "./logs"@
    &&& r.log_size == DEFAULT_LOG_FILE_SIZE
    &&& r.interval_millis == DEFAULT_LOG_INTERVAL_MILLIS
    &&& r.inner_print
    &&& r.inner_log
    &&& r.websocket_buffer_size == DEFAULT_BUFFER_SIZE
    &&& r.http_line_buffer_size == DEFAULT_BUFFER_SIZE
    &&& !r.nodelay
    &&& r.linger is None
    &&& r.ttl is None
}

impl Default for ServerConfig {
    fn default() -> (r: Self)
        ensures
            is_default_config(r),
    {
        ServerConfig {
            host: String::from_str("0.0.0.0"),
            port: DEFAULT_WEB_PORT,
            log_dir: String::from_str("./logs"),
            log_size: DEFAULT_LOG_FILE_SIZE,
            interval_millis: DEFAULT_LOG_INTERVAL_MILLIS,
            inner_print: true,
            inner_log: true,
            websocket_buffer_size: DEFAULT_BUFFER_SIZE,
            http_line_buffer_size: DEFAULT_BUFFER_SIZE,
            nodelay: false,
            linger: None,
            ttl: None,
        }
    }
}

/// A buffer size of zero stands for the default.
pub open spec fn effective_buffer_size(n: usize) -> usize {
    if n == 0 {
        DEFAULT_BUFFER_SIZE
    } else {
        n
    }
}

pub fn buffer_size_or_default(n: usize) -> (r: usize)
    ensures
        r == effective_buffer_size(n),
{
    if n == 0 {
        DEFAULT_BUFFER_SIZE
    } else {
        n
    }
}

} // verus!
