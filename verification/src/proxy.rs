//! The forwarding engine: from an inbound request to the request that goes
//! to the upstream, and from what the upstream did to the answer for the
//! caller. The engine decides; the caller of this module moves the bytes.

use vstd::prelude::*;
use vstd::string::*;
use crate::dispatch::{dispatch, fits_template, remainder_of, route_of};
use crate::error::{answers, ErrorResponse, ErrorView, LogEvent, LuminaError, Severity};
use crate::header::{
    filter_request_headers, filter_response_headers, filtered, is_hop_by_hop, is_host,
    lemma_filtered_passes, views,
    Direction, Header,
};
use crate::route::RouteTable;

verus! {

/// What the engine is built with: the route table.
pub struct ProxyState {
    pub upstreams: RouteTable,
}

/// The head of an inbound request. The body stays with the connection.
#[derive(Debug, Clone)]
pub struct InboundRequest {
    pub method: String,
    pub path: String,
    pub query: Option<String>,
    pub headers: Vec<Header>,
}

/// The head of the request that goes to the upstream.
#[derive(Debug, Clone)]
pub struct OutboundRequest {
    pub method: String,
    pub url: String,
    pub headers: Vec<Header>,
    pub timeout_ms: Option<u64>,
}

/// The head of the upstream's response.
#[derive(Debug, Clone)]
pub struct UpstreamResponse {
    pub status: u16,
    pub headers: Vec<Header>,
}

/// The head of the response that goes back to the caller.
#[derive(Debug, Clone)]
pub struct OutboundResponse {
    pub status: u16,
    pub headers: Vec<Header>,
}

/// How the exchange with the upstream ended.
#[derive(Debug, Clone)]
pub enum UpstreamOutcome {
    /// The upstream answered.
    Responded(UpstreamResponse),
    /// Connection refused, timeout, reset: any failure of the network.
    NetworkFailure(String),
    /// The inbound body could not be read while it was forwarded.
    BodyReadFailure(String),
    /// The response for the caller could not be put together.
    ResponseBuildFailure(String),
}

/// What to do with an inbound request.
#[derive(Debug, Clone)]
pub enum ProxyAction {
    /// Send this request to the upstream, with the inbound body as its body.
    Send(OutboundRequest),
    /// Answer the caller with this error; contact nobody.
    Respond(ErrorResponse),
    /// The path is none of the proxy's: answer with a plain 404.
    Unrouted,
}

/// What to do once the exchange with the upstream has ended.
#[derive(Debug, Clone)]
pub enum RelayAction {
    /// Stream the upstream's body back under this head.
    Relay(OutboundResponse),
    /// Answer the caller with this error.
    Respond(ErrorResponse),
}

/// The query of a request as plain values.
pub open spec fn query_view(query: Option<&str>) -> Option<Seq<char>> {
    match query {
        Some(q) => Some(q@),
        None => None,
    }
}

/// The query of a request as plain values.
pub open spec fn owned_query_view(query: Option<String>) -> Option<Seq<char>> {
    match query {
        Some(q) => Some(q@),
        None => None,
    }
}

/// The address of the outbound request: the upstream base, the remainder
/// path, and the query behind a `?` where the inbound request had one.
pub open spec fn target_url(
    upstream_base: Seq<char>,
    remainder_path: Seq<char>,
    query: Option<Seq<char>>,
) -> Seq<char> {
    match query {
        Some(q) => upstream_base + remainder_path + seq!['?'] + q,
        None => upstream_base + remainder_path,
    }
}

/// Puts the outbound address together.
pub fn build_target_url(upstream_base: &str, remainder_path: &str, query: Option<&str>) -> (url:
    String)
    ensures
        url@ == target_url(upstream_base@, remainder_path@, query_view(query)),
{
    let mut url = String::from_str(upstream_base);
    url.append(remainder_path);
    match query {
        Some(q) => {
            proof {
                reveal_strlit("?");
                assert("?"@ =~= seq!['?']);
            }
            url.append("?");
            url.append(q);
        },
        None => {},
    }
    url
}

/// `out` is the request that forwarding makes of its inputs, for the route
/// that the table holds under `route_name`.
pub open spec fn forwards(
    out: OutboundRequest,
    state: ProxyState,
    route_name: Seq<char>,
    method: Seq<char>,
    remainder_path: Seq<char>,
    query: Option<Seq<char>>,
    headers: Seq<Header>,
) -> bool {
    &&& out.method@ == method
    &&& out.url@ == target_url(state.upstreams@[route_name].upstream_base, remainder_path, query)
    &&& views(out.headers@) == filtered(Direction::Request, views(headers))
    &&& out.timeout_ms == state.upstreams@[route_name].timeout_ms
}

impl ProxyState {
    /// Builds the engine around a route table.
    pub fn new(upstreams: RouteTable) -> (state: ProxyState)
        ensures
            state.upstreams == upstreams,
    {
        ProxyState { upstreams }
    }

    /// Resolves the route and builds the outbound request.
    ///
    /// A name that the table does not hold ends the request with
    /// `RouteNotFound`: no outbound request exists then. Otherwise the
    /// outbound request has the inbound method, the address made of the
    /// route's upstream base, the remainder path and the query, the inbound
    /// headers without `Host`, and the route's timeout.
    pub fn forward(
        &self,
        route_name: &str,
        method: &str,
        remainder_path: &str,
        query: Option<&str>,
        headers: &Vec<Header>,
    ) -> (forwarded: Result<OutboundRequest, LuminaError>)
        ensures
            forwarded is Ok <==> self.upstreams@.contains_key(route_name@),
            forwarded matches Ok(out) ==> {
                &&& forwards(
                    out,
                    *self,
                    route_name@,
                    method@,
                    remainder_path@,
                    query_view(query),
                    headers@,
                )
                &&& forall|i: int|
                    0 <= i < out.headers.len() ==> !is_host(#[trigger] out.headers[i].name@)
            },
            forwarded matches Err(e) ==> e@ == ErrorView::RouteNotFound(route_name@),
    {
        match self.upstreams.lookup(route_name) {
            None => Err(LuminaError::RouteNotFound(String::from_str(route_name))),
            Some(route) => {
                let url = build_target_url(route.upstream_base.as_str(), remainder_path, query);
                let kept = filter_request_headers(headers);
                Ok(
                    OutboundRequest {
                        method: String::from_str(method),
                        url,
                        headers: kept,
                        timeout_ms: route.timeout_ms,
                    },
                )
            },
        }
    }
}

/// No outbound request carries a `Host` header, whatever the inbound
/// headers were.
pub proof fn lemma_outbound_has_no_host(
    out: OutboundRequest,
    state: ProxyState,
    route_name: Seq<char>,
    method: Seq<char>,
    remainder_path: Seq<char>,
    query: Option<Seq<char>>,
    headers: Seq<Header>,
)
    requires
        forwards(out, state, route_name, method, remainder_path, query, headers),
    ensures
        forall|i: int| 0 <= i < out.headers.len() ==> !is_host(#[trigger] out.headers[i].name@),
{
    lemma_filtered_passes(Direction::Request, views(headers));
    assert forall|i: int| 0 <= i < out.headers.len() implies !is_host(
        #[trigger] out.headers[i].name@,
    ) by {
        assert(views(out.headers@)[i] == out.headers[i]@);
    }
}

/// `action` is what the proxy does with `request`.
pub open spec fn proxy_decision(
    action: ProxyAction,
    state: ProxyState,
    request: InboundRequest,
) -> bool {
    let path = request.path@;
    if !fits_template(path) {
        action is Unrouted
    } else if !state.upstreams@.contains_key(route_of(path)) {
        action matches ProxyAction::Respond(response) && answers(
            response,
            ErrorView::RouteNotFound(route_of(path)),
        )
    } else {
        action matches ProxyAction::Send(out) && forwards(
            out,
            state,
            route_of(path),
            request.method@,
            remainder_of(path),
            owned_query_view(request.query),
            request.headers@,
        )
    }
}

/// Decides what to do with an inbound request.
///
/// A path that does not fit `/api/{route}/{remainder...}` is none of the
/// proxy's. A path that fits is forwarded to the route it names; where the
/// table holds no such route the caller is answered with the mapped
/// `RouteNotFound`, and nothing is sent. The path is read as it stands on
/// the wire, percent-escapes unresolved.
pub fn handle_proxy(state: &ProxyState, request: &InboundRequest) -> (action: ProxyAction)
    ensures
        proxy_decision(action, *state, *request),
{
    match dispatch(request.path.as_str()) {
        None => ProxyAction::Unrouted,
        Some(parts) => {
            let query: Option<&str> = match &request.query {
                Some(q) => Some(q.as_str()),
                None => None,
            };
            match state.forward(
                parts.route.as_str(),
                request.method.as_str(),
                parts.remainder_path.as_str(),
                query,
                &request.headers,
            ) {
                Ok(out) => ProxyAction::Send(out),
                Err(e) => ProxyAction::Respond(e.into_response()),
            }
        },
    }
}

/// The error that an outcome of the upstream exchange stands for, if any.
pub open spec fn outcome_error(outcome: UpstreamOutcome) -> Option<ErrorView> {
    match outcome {
        UpstreamOutcome::Responded(_) => None,
        UpstreamOutcome::NetworkFailure(cause) => Some(ErrorView::UpstreamUnreachable(cause@)),
        UpstreamOutcome::BodyReadFailure(cause) => Some(ErrorView::BodyReadFailure(cause@)),
        UpstreamOutcome::ResponseBuildFailure(cause) => Some(
            ErrorView::ResponseBuildFailure(cause@),
        ),
    }
}

/// Classifies the outcome of the upstream exchange: the response where the
/// upstream answered, else the one error that the failure stands for.
pub fn classify(outcome: UpstreamOutcome) -> (classified: Result<UpstreamResponse, LuminaError>)
    ensures
        classified is Ok <==> outcome is Responded,
        classified matches Ok(response) ==> outcome == UpstreamOutcome::Responded(response),
        classified matches Err(e) ==> outcome_error(outcome) == Some(e@),
{
    match outcome {
        UpstreamOutcome::Responded(response) => Ok(response),
        UpstreamOutcome::NetworkFailure(cause) => Err(LuminaError::UpstreamUnreachable(cause)),
        UpstreamOutcome::BodyReadFailure(cause) => Err(LuminaError::BodyReadFailure(cause)),
        UpstreamOutcome::ResponseBuildFailure(cause) => Err(
            LuminaError::ResponseBuildFailure(cause),
        ),
    }
}

/// Builds the head of the response for the caller: the upstream's status,
/// and its headers without the hop-by-hop ones.
pub fn relay_response(response: &UpstreamResponse) -> (out: OutboundResponse)
    ensures
        out.status == response.status,
        views(out.headers@) == filtered(Direction::Response, views(response.headers@)),
        forall|i: int|
            0 <= i < out.headers.len() ==> !is_hop_by_hop(#[trigger] out.headers[i].name@),
{
    OutboundResponse {
        status: response.status,
        headers: filter_response_headers(&response.headers),
    }
}

/// Decides what to do once the exchange with the upstream has ended.
///
/// An answer of the upstream is relayed under its status with filtered
/// headers. Every failure is answered with its mapped error; nothing is
/// sent again.
pub fn handle_upstream(outcome: UpstreamOutcome) -> (action: RelayAction)
    ensures
        match outcome {
            UpstreamOutcome::Responded(response) => action matches RelayAction::Relay(out) && {
                &&& out.status == response.status
                &&& views(out.headers@) == filtered(Direction::Response, views(response.headers@))
            },
            _ => action matches RelayAction::Respond(response) && outcome_error(outcome)
                matches Some(error) && answers(response, error),
        },
{
    match classify(outcome) {
        Ok(response) => RelayAction::Relay(relay_response(&response)),
        Err(e) => RelayAction::Respond(e.into_response()),
    }
}

/// Records that the upstream dropped the response body in mid-transfer.
///
/// The outbound stream ends early; nothing is sent again. The event for the
/// log is of severity `Error` and holds the cause.
pub fn handle_stream_failure(cause: &str) -> (event: LogEvent)
    ensures
        event.severity == Severity::Error,
        event.message@ == "Response stream interrupted"@,
        event.context@ == cause@,
{
    LogEvent {
        severity: Severity::Error,
        message: String::from_str("Response stream interrupted"),
        context: String::from_str(cause),
    }
}

} // verus!
