//! Routing and forwarding core of a single-hop HTTP reverse proxy.
//!
//! The crate holds the decisions of the gateway: which upstream a route name
//! resolves to, what the outbound request looks like, which headers cross the
//! proxy, and which status a failure is answered with. Sockets, the runtime
//! and the configuration file are the caller's business.

pub mod config;
pub mod upstream_url;
pub mod route;
pub mod header;
pub mod dispatch;
pub mod error;
pub mod json;
pub mod proxy;
pub mod metrics;
