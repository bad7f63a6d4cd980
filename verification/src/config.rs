//! Configuration records handed to the gateway at startup.

use vstd::prelude::*;

verus! {

/// Address the gateway listens on.
#[derive(Debug, Clone)]
pub struct ServerConfig {
    pub host: String,
    pub port: u16,
}

/// One configured route: requests for `path` are forwarded to `upstream`.
#[derive(Debug, Clone)]
pub struct RouteConfig {
    pub path: String,
    pub upstream: String,
    pub timeout_ms: Option<u64>,
}

/// The whole configuration: the server binding and the routes in the order
/// in which they were declared.
#[derive(Debug, Clone)]
pub struct AppConfig {
    pub server: ServerConfig,
    pub routes: Vec<RouteConfig>,
}

} // verus!
