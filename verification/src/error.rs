//! The error mapper: every failure of a request becomes one status code, one
//! message for the caller and one event for the log.

use vstd::prelude::*;
use vstd::string::*;

verus! {

/// Why a list of route records was refused.
#[derive(Debug, Clone)]
pub enum ConfigError {
    /// The named route was declared more than once.
    DuplicateRoute(String),
    /// The upstream address of the named route is no absolute URL with a host.
    InvalidUpstream(String),
}

/// A configuration error as plain values.
pub ghost enum ConfigErrorView {
    DuplicateRoute(Seq<char>),
    InvalidUpstream(Seq<char>),
}

impl View for ConfigError {
    type V = ConfigErrorView;

    open spec fn view(&self) -> ConfigErrorView {
        match self {
            ConfigError::DuplicateRoute(name) => ConfigErrorView::DuplicateRoute(name@),
            ConfigError::InvalidUpstream(name) => ConfigErrorView::InvalidUpstream(name@),
        }
    }
}

/// The failure conditions of the gateway.
#[derive(Debug, Clone)]
pub enum LuminaError {
    /// The configuration was refused; fatal at startup.
    ConfigError(ConfigError),
    /// The request named a route that the table does not hold.
    RouteNotFound(String),
    /// The upstream could not be reached; holds the network error's text.
    UpstreamUnreachable(String),
    /// The inbound body could not be read; holds the cause.
    BodyReadFailure(String),
    /// The outbound response could not be put together; holds the cause.
    ResponseBuildFailure(String),
}

/// A failure condition as plain values.
pub ghost enum ErrorView {
    ConfigError(ConfigErrorView),
    RouteNotFound(Seq<char>),
    UpstreamUnreachable(Seq<char>),
    BodyReadFailure(Seq<char>),
    ResponseBuildFailure(Seq<char>),
}

impl View for LuminaError {
    type V = ErrorView;

    open spec fn view(&self) -> ErrorView {
        match self {
            LuminaError::ConfigError(e) => ErrorView::ConfigError(e@),
            LuminaError::RouteNotFound(route) => ErrorView::RouteNotFound(route@),
            LuminaError::UpstreamUnreachable(cause) => ErrorView::UpstreamUnreachable(cause@),
            LuminaError::BodyReadFailure(cause) => ErrorView::BodyReadFailure(cause@),
            LuminaError::ResponseBuildFailure(cause) => ErrorView::ResponseBuildFailure(cause@),
        }
    }
}

/// How grave a log event is.
#[derive(Debug, Clone, Copy, PartialEq, Eq, Structural)]
pub enum Severity {
    Info,
    Warning,
    Error,
}

/// One event for the logging collaborator.
#[derive(Debug, Clone)]
pub struct LogEvent {
    pub severity: Severity,
    pub message: String,
    pub context: String,
}

/// The body of an error response, before it is written as JSON.
#[derive(Debug, Clone)]
pub struct ErrorBody {
    pub error: String,
    pub status: u16,
}

/// What the error mapper hands back: the answer for the caller and the
/// event for the log.
#[derive(Debug, Clone)]
pub struct ErrorResponse {
    pub status: u16,
    pub body: ErrorBody,
    pub log: LogEvent,
}

impl ConfigErrorView {
    /// The text that describes the error in the log.
    pub open spec fn describe(self) -> Seq<char> {
        match self {
            ConfigErrorView::DuplicateRoute(name) => "duplicate route '"@ + name + "'"@,
            ConfigErrorView::InvalidUpstream(name) => "invalid upstream for route '"@ + name
                + "'"@,
        }
    }
}

impl ConfigError {
    /// Describes the error in words.
    pub fn describe(&self) -> (text: String)
        ensures
            text@ == self@.describe(),
    {
        match self {
            ConfigError::DuplicateRoute(name) => {
                let mut text = String::from_str("duplicate route '");
                text.append(name.as_str());
                text.append("'");
                text
            },
            ConfigError::InvalidUpstream(name) => {
                let mut text = String::from_str("invalid upstream for route '");
                text.append(name.as_str());
                text.append("'");
                text
            },
        }
    }
}

impl ErrorView {
    /// The HTTP status that answers this error: 404 for a missing route, 502
    /// for an unreachable upstream, 500 for everything else.
    pub open spec fn status(self) -> u16 {
        match self {
            ErrorView::RouteNotFound(_) => 404,
            ErrorView::UpstreamUnreachable(_) => 502,
            _ => 500,
        }
    }

    /// The message that the caller sees. It never holds the internal cause.
    pub open spec fn public_message(self) -> Seq<char> {
        match self {
            ErrorView::ConfigError(_) => "Configuration error"@,
            ErrorView::RouteNotFound(route) => "No upstream configured for route '"@ + route
                + "'"@,
            ErrorView::UpstreamUnreachable(_) => "Upstream error"@,
            ErrorView::BodyReadFailure(_) => "Internal server error"@,
            ErrorView::ResponseBuildFailure(_) => "Internal server error"@,
        }
    }

    /// The full description for the log, internal cause included.
    pub open spec fn detail(self) -> Seq<char> {
        match self {
            ErrorView::ConfigError(e) => "Configuration error: "@ + e.describe(),
            ErrorView::RouteNotFound(_) => "Invalid route mapping: "@ + self.public_message(),
            ErrorView::UpstreamUnreachable(cause) => "Upstream service unreachable: "@ + cause,
            ErrorView::BodyReadFailure(cause) => "Internal Server Error: Failed to read body: "@
                + cause,
            ErrorView::ResponseBuildFailure(cause) =>
                "Internal Server Error: Failed to build response: "@ + cause,
        }
    }
}

/// `response` is the answer to `error`: its status, the body with the
/// message for the caller and the same status, and one log event of severity
/// `Error` whose context is the full description.
pub open spec fn answers(response: ErrorResponse, error: ErrorView) -> bool {
    &&& response.status == error.status()
    &&& response.body.status == error.status()
    &&& response.body.error@ == error.public_message()
    &&& response.log.severity == Severity::Error
    &&& response.log.message@ == "Request failed"@
    &&& response.log.context@ == error.detail()
}

/// What the caller sees of a failure does not depend on its internal cause:
/// two errors of one kind are answered with the same status and message,
/// but for a missing route, whose message names the route that was asked.
pub proof fn lemma_cause_stays_internal(a: ErrorView, b: ErrorView)
    requires
        (a is ConfigError && b is ConfigError) || (a is UpstreamUnreachable
            && b is UpstreamUnreachable) || (a is BodyReadFailure && b is BodyReadFailure) || (a
            is ResponseBuildFailure && b is ResponseBuildFailure),
    ensures
        a.status() == b.status(),
        a.public_message() == b.public_message(),
{
}

impl LuminaError {
    /// The HTTP status that answers this error.
    pub fn status_code(&self) -> (code: u16)
        ensures
            code == self@.status(),
    {
        match self {
            LuminaError::RouteNotFound(_) => 404,
            LuminaError::UpstreamUnreachable(_) => 502,
            _ => 500,
        }
    }

    /// The message that the caller sees.
    pub fn message(&self) -> (text: String)
        ensures
            text@ == self@.public_message(),
    {
        match self {
            LuminaError::ConfigError(_) => String::from_str("Configuration error"),
            LuminaError::RouteNotFound(route) => {
                let mut text = String::from_str("No upstream configured for route '");
                text.append(route.as_str());
                text.append("'");
                text
            },
            LuminaError::UpstreamUnreachable(_) => String::from_str("Upstream error"),
            LuminaError::BodyReadFailure(_) => String::from_str("Internal server error"),
            LuminaError::ResponseBuildFailure(_) => String::from_str("Internal server error"),
        }
    }

    /// The full description for the log.
    pub fn to_string(&self) -> (text: String)
        ensures
            text@ == self@.detail(),
    {
        match self {
            LuminaError::ConfigError(e) => {
                let mut text = String::from_str("Configuration error: ");
                let described = e.describe();
                text.append(described.as_str());
                text
            },
            LuminaError::RouteNotFound(_) => {
                let mut text = String::from_str("Invalid route mapping: ");
                let shown = self.message();
                text.append(shown.as_str());
                text
            },
            LuminaError::UpstreamUnreachable(cause) => {
                let mut text = String::from_str("Upstream service unreachable: ");
                text.append(cause.as_str());
                text
            },
            LuminaError::BodyReadFailure(cause) => {
                let mut text = String::from_str("Internal Server Error: Failed to read body: ");
                text.append(cause.as_str());
                text
            },
            LuminaError::ResponseBuildFailure(cause) => {
                let mut text = String::from_str(
                    "Internal Server Error: Failed to build response: ",
                );
                text.append(cause.as_str());
                text
            },
        }
    }

    /// Maps the error to its answer for the caller and its event for the log.
    pub fn into_response(self) -> (response: ErrorResponse)
        ensures
            answers(response, self@),
    {
        let status = self.status_code();
        let error = self.message();
        let context = self.to_string();
        ErrorResponse {
            status,
            body: ErrorBody { error, status },
            log: LogEvent {
                severity: Severity::Error,
                message: String::from_str("Request failed"),
                context,
            },
        }
    }
}

} // verus!
