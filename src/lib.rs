//! An embeddable HTTP/1.1 and WebSocket server core: route resolution,
//! the per-request context, the middleware pipeline and the per-connection
//! protocol state machine.
use vstd::prelude::*;

pub mod config;
pub mod context;
pub mod error;
pub mod http;
pub mod parse;
pub mod pipeline;
pub mod route;
pub mod server;
pub mod text;
pub mod websocket;

pub use config::ServerConfig;
pub use context::{Context, ControllerData, InnerContext, InnerControllerData};
pub use error::{ResponseError, RouteError, ServerError};
pub use http::{HttpVersion, Request, Response, UpgradeType};
pub use pipeline::{ConnAction, ConnEvent, ConnState, Connection, Phase, Pipeline, PipelineAction};
pub use route::{HandlerId, RouteMatcher, RouteTable, Router};
pub use server::{RequestHandlerImmutableParams, Server};

verus! {

} // verus!
