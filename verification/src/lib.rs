//! Xfiles: a Plan 9-inspired agent communication hub.
//!
//! This crate holds the hub's decision logic: the per-endpoint circuit
//! breaker, the token-bucket rate limiter, the virtual filesystem, the
//! content plumber, the delivery queue, the registries and the routing
//! stages, each with its contract proved by Verus.
use vstd::prelude::*;

pub mod clock;
pub mod config;
pub mod tables;
pub mod circuit;
pub mod text;
pub mod assoc;
pub mod json;
pub mod fs;
pub mod message;
pub mod plumber;
pub mod ratelimit;
pub mod queue;
pub mod agent;
pub mod ai;
pub mod auth;
pub mod tls;
pub mod grpc;
pub mod namespace;
pub mod event;
pub mod mcp;
pub mod router;
pub mod proxy;
pub mod dispatch;
pub mod session;

verus! {

} // verus!
