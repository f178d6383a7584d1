//! Routing decisions of a Kubernetes Gateway API gateway: which HTTPRoute
//! serves a request (hostnames, attachment to a listening Gateway, path,
//! header, query and method matches), which backends it picks, the server
//! configuration, and the registration of the Gateway API definitions.
pub mod text;
pub mod pattern;
pub mod query;
pub mod model;
pub mod matcher;
pub mod gateway;
pub mod route;
pub mod config;
pub mod proxy;
pub mod crd;
