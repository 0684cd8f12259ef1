//! The decisions of the per-request middleware pipeline and of the
//! per-connection protocol loop, as step functions from state and event to
//! next state and action. The runtime performs each action (running a
//! middleware, reading from the transport) and feeds back what happened.
use vstd::prelude::*;

verus! {

/// Where one logical request stands in the pipeline.
#[derive(Clone, Copy, Debug, PartialEq, Eq, Structural)]
pub enum Phase {
    /// Request middleware `i` runs next (dispatch once all have run).
    Request(usize),
    /// Response middleware `i` runs next.
    Response(usize),
    /// Nothing more runs for this request.
    Done,
}

/// What the runtime does next for one logical request.
#[derive(Clone, Copy, Debug, PartialEq, Eq, Structural)]
pub enum PipelineAction {
    RunRequestMiddleware(usize),
    /// Resolve the route and run its handler, if any.
    Dispatch,
    RunResponseMiddleware(usize),
    /// The request is finished; the keep-alive decision follows.
    Finish,
}

/// One step of the pipeline. `aborted` is the context's abort flag as the
/// previous action left it. An abort skips everything that would follow.
pub open spec fn pipeline_step(phase: Phase, aborted: bool, n_request: nat, n_response: nat) -> (
    Phase,
    PipelineAction,
) {
    match phase {
        Phase::Request(i) => if aborted {
            (Phase::Done, PipelineAction::Finish)
        } else if i < n_request {
            (Phase::Request((i + 1) as usize), PipelineAction::RunRequestMiddleware(i))
        } else {
            (Phase::Response(0), PipelineAction::Dispatch)
        },
        Phase::Response(i) => if aborted {
            (Phase::Done, PipelineAction::Finish)
        } else if i < n_response {
            (Phase::Response((i + 1) as usize), PipelineAction::RunResponseMiddleware(i))
        } else {
            (Phase::Done, PipelineAction::Finish)
        },
        Phase::Done => (Phase::Done, PipelineAction::Finish),
    }
}

/// The pipeline of one logical request, over the registered middleware.
#[derive(Clone, Copy, Debug)]
pub struct Pipeline {
    pub n_request: usize,
    pub n_response: usize,
    pub phase: Phase,
}

impl Pipeline {
    /// The next middleware index stays within its list.
    pub open spec fn wf(&self) -> bool {
        &&& self.phase matches Phase::Request(i) ==> i <= self.n_request
        &&& self.phase matches Phase::Response(i) ==> i <= self.n_response
    }

    pub open spec fn new_spec(n_request: usize, n_response: usize) -> Pipeline {
        Pipeline { n_request, n_response, phase: Phase::Request(0) }
    }

    /// A pipeline that has run nothing yet.
    pub fn new(n_request: usize, n_response: usize) -> (r: Self)
        ensures
            r == Pipeline::new_spec(n_request, n_response),
            r.wf(),
    {
        Pipeline { n_request, n_response, phase: Phase::Request(0) }
    }

    /// Decides what runs next, given the abort flag as it now stands.
    pub fn step(&mut self, aborted: bool) -> (r: PipelineAction)
        requires
            old(self).wf(),
        ensures
            (final(self).phase, r) == pipeline_step(
                old(self).phase,
                aborted,
                old(self).n_request as nat,
                old(self).n_response as nat,
            ),
            final(self).n_request == old(self).n_request,
            final(self).n_response == old(self).n_response,
            final(self).wf(),
    {
        let (phase, action) = match self.phase {
            Phase::Request(i) => if aborted {
                (Phase::Done, PipelineAction::Finish)
            } else if i < self.n_request {
                (Phase::Request(i + 1), PipelineAction::RunRequestMiddleware(i))
            } else {
                (Phase::Response(0), PipelineAction::Dispatch)
            },
            Phase::Response(i) => if aborted {
                (Phase::Done, PipelineAction::Finish)
            } else if i < self.n_response {
                (Phase::Response(i + 1), PipelineAction::RunResponseMiddleware(i))
            } else {
                (Phase::Done, PipelineAction::Finish)
            },
            Phase::Done => (Phase::Done, PipelineAction::Finish),
        };
        self.phase = phase;
        action
    }
}

/// The actions taken when the abort flag reads `flags[0]`, `flags[1]`, ...
/// at successive steps from `phase`.
pub open spec fn pipeline_trace(phase: Phase, flags: Seq<bool>, n_request: nat, n_response: nat) -> Seq<
    PipelineAction,
>
    decreases flags.len(),
{
    if flags.len() == 0 {
        Seq::empty()
    } else {
        let (next, action) = pipeline_step(phase, flags[0], n_request, n_response);
        seq![action] + pipeline_trace(next, flags.drop_first(), n_request, n_response)
    }
}

/// Abort semantics: once a middleware (or the handler) has set the abort
/// flag, no further request middleware, no handler and no response
/// middleware run for that request, whatever the flag reads later; the
/// request only finishes, and the keep-alive decision follows.
pub proof fn lemma_abort_skips_rest(phase: Phase, flags: Seq<bool>, n_request: nat, n_response: nat)
    requires
        flags.len() > 0,
        flags[0],
    ensures
        forall|k: int|
            0 <= k < flags.len() ==> #[trigger] pipeline_trace(phase, flags, n_request, n_response)[k]
                == PipelineAction::Finish,
    decreases flags.len(),
{
    lemma_done_finishes(flags.drop_first(), n_request, n_response);
    let t = pipeline_trace(phase, flags, n_request, n_response);
    let rest = pipeline_trace(Phase::Done, flags.drop_first(), n_request, n_response);
    assert(pipeline_step(phase, true, n_request, n_response).0 == Phase::Done);
    assert(t == seq![PipelineAction::Finish] + rest);
    assert forall|k: int| 0 <= k < flags.len() implies #[trigger] t[k] == PipelineAction::Finish by {
        if k > 0 {
            assert(t[k] == rest[k - 1]);
        }
    }
}

/// From `Done`, every step only finishes.
pub proof fn lemma_done_finishes(flags: Seq<bool>, n_request: nat, n_response: nat)
    ensures
        pipeline_trace(Phase::Done, flags, n_request, n_response).len() == flags.len(),
        forall|k: int|
            0 <= k < flags.len() ==> #[trigger] pipeline_trace(
                Phase::Done,
                flags,
                n_request,
                n_response,
            )[k] == PipelineAction::Finish,
    decreases flags.len(),
{
    if flags.len() > 0 {
        lemma_done_finishes(flags.drop_first(), n_request, n_response);
        let t = pipeline_trace(Phase::Done, flags, n_request, n_response);
        let rest = pipeline_trace(Phase::Done, flags.drop_first(), n_request, n_response);
        assert(t == seq![PipelineAction::Finish] + rest);
        assert forall|k: int| 0 <= k < flags.len() implies #[trigger] t[k]
            == PipelineAction::Finish by {
            if k > 0 {
                assert(t[k] == rest[k - 1]);
            }
        }
    }
}

/// Where one connection stands.
#[derive(Clone, Copy, Debug, PartialEq, Eq, Structural)]
pub enum ConnState {
    /// Reading the connection's first request.
    AwaitingFirstRequest,
    /// The first request asked for WebSocket; the handshake is under way.
    Handshaking,
    /// Reading the next WebSocket frame.
    WebSocketLoop,
    /// A frame's logical request is in the pipeline.
    WebSocketExchange,
    /// Reading the next HTTP request on a kept-alive connection.
    PlainHttpLoop,
    /// An HTTP request is in the pipeline.
    PlainHttpExchange,
    Closed,
}

/// What the runtime reports back.
#[derive(Clone, Copy, Debug, PartialEq, Eq, Structural)]
pub enum ConnEvent {
    /// A request (or frame) was read; `websocket` tells whether it asks to upgrade.
    RequestRead { websocket: bool },
    /// Reading failed: peer gone, malformed input.
    ReadFailed,
    /// The handshake response was sent (`true`) or could not be (`false`).
    HandshakeDone(bool),
    /// The pipeline finished a logical request; `keep_alive` is its decision.
    ExchangeDone { keep_alive: bool },
}

/// What the runtime does next for a connection.
#[derive(Clone, Copy, Debug, PartialEq, Eq, Structural)]
pub enum ConnAction {
    ReadHttpRequest,
    /// Answer the upgrade request with the handshake response.
    Handshake,
    ReadWebSocketFrame,
    /// Run the pipeline on the request read last.
    RunPipeline,
    /// Close the transport, best effort.
    CloseTransport,
    /// Nothing more to do.
    Stop,
}

/// The connection protocol: the first request decides between the
/// WebSocket loop and the HTTP keep-alive loop; a read failure, a failed
/// handshake or a request that does not keep the connection alive closes
/// it. An event that cannot occur in a state closes the connection too.
pub open spec fn conn_step(s: ConnState, e: ConnEvent) -> (ConnState, ConnAction) {
    match (s, e) {
        (ConnState::Closed, _) => (ConnState::Closed, ConnAction::Stop),
        (ConnState::AwaitingFirstRequest, ConnEvent::RequestRead { websocket }) => if websocket {
            (ConnState::Handshaking, ConnAction::Handshake)
        } else {
            (ConnState::PlainHttpExchange, ConnAction::RunPipeline)
        },
        (ConnState::Handshaking, ConnEvent::HandshakeDone(ok)) => if ok {
            (ConnState::WebSocketLoop, ConnAction::ReadWebSocketFrame)
        } else {
            (ConnState::Closed, ConnAction::CloseTransport)
        },
        (ConnState::WebSocketLoop, ConnEvent::RequestRead { .. }) => (
            ConnState::WebSocketExchange,
            ConnAction::RunPipeline,
        ),
        (ConnState::WebSocketExchange, ConnEvent::ExchangeDone { .. }) => (
            ConnState::WebSocketLoop,
            ConnAction::ReadWebSocketFrame,
        ),
        (ConnState::PlainHttpLoop, ConnEvent::RequestRead { .. }) => (
            ConnState::PlainHttpExchange,
            ConnAction::RunPipeline,
        ),
        (ConnState::PlainHttpExchange, ConnEvent::ExchangeDone { keep_alive }) => if keep_alive {
            (ConnState::PlainHttpLoop, ConnAction::ReadHttpRequest)
        } else {
            (ConnState::Closed, ConnAction::CloseTransport)
        },
        _ => (ConnState::Closed, ConnAction::CloseTransport),
    }
}

/// One connection's loop state.
#[derive(Clone, Copy, Debug)]
pub struct Connection {
    pub state: ConnState,
}

impl Connection {
    /// A new connection; its first action is to read a request.
    pub fn new() -> (r: (Self, ConnAction))
        ensures
            r.0.state == ConnState::AwaitingFirstRequest,
            r.1 == ConnAction::ReadHttpRequest,
    {
        (Connection { state: ConnState::AwaitingFirstRequest }, ConnAction::ReadHttpRequest)
    }

    /// Takes in what happened and decides the next action.
    pub fn step(&mut self, e: ConnEvent) -> (r: ConnAction)
        ensures
            (final(self).state, r) == conn_step(old(self).state, e),
    {
        let (s, a) = match (self.state, e) {
            (ConnState::Closed, _) => (ConnState::Closed, ConnAction::Stop),
            (ConnState::AwaitingFirstRequest, ConnEvent::RequestRead { websocket }) => if websocket {
                (ConnState::Handshaking, ConnAction::Handshake)
            } else {
                (ConnState::PlainHttpExchange, ConnAction::RunPipeline)
            },
            (ConnState::Handshaking, ConnEvent::HandshakeDone(ok)) => if ok {
                (ConnState::WebSocketLoop, ConnAction::ReadWebSocketFrame)
            } else {
                (ConnState::Closed, ConnAction::CloseTransport)
            },
            (ConnState::WebSocketLoop, ConnEvent::RequestRead { .. }) => (
                ConnState::WebSocketExchange,
                ConnAction::RunPipeline,
            ),
            (ConnState::WebSocketExchange, ConnEvent::ExchangeDone { .. }) => (
                ConnState::WebSocketLoop,
                ConnAction::ReadWebSocketFrame,
            ),
            (ConnState::PlainHttpLoop, ConnEvent::RequestRead { .. }) => (
                ConnState::PlainHttpExchange,
                ConnAction::RunPipeline,
            ),
            (ConnState::PlainHttpExchange, ConnEvent::ExchangeDone { keep_alive }) => if keep_alive {
                (ConnState::PlainHttpLoop, ConnAction::ReadHttpRequest)
            } else {
                (ConnState::Closed, ConnAction::CloseTransport)
            },
            _ => (ConnState::Closed, ConnAction::CloseTransport),
        };
        self.state = s;
        a
    }
}

/// Every way into `Closed` closes the transport exactly once: the step that
/// enters it asks for the close, and a closed connection only stops.
pub proof fn lemma_close_once(s: ConnState, e: ConnEvent)
    ensures
        s != ConnState::Closed && conn_step(s, e).0 == ConnState::Closed ==> conn_step(s, e).1
            == ConnAction::CloseTransport,
        s == ConnState::Closed ==> conn_step(s, e) == (ConnState::Closed, ConnAction::Stop),
        conn_step(s, e).1 == ConnAction::CloseTransport ==> conn_step(s, e).0 == ConnState::Closed,
{
}

} // verus!
