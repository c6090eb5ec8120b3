//! Core routing and monitoring logic of a reverse-proxy load balancer.
//!
//! The library covers the backend pool with its round-robin dispatch
//! policy, the request-forwarding outcome mapping, the retry state
//! machine of the API health checker, the classification rules of the
//! backend health monitor and the connection monitor, and the
//! validation of configuration values.  All I/O (HTTP, database,
//! terminal, OS queries) lives outside the library and hands it plain
//! values.

pub mod config;
pub mod forward;
pub mod monitor;
pub mod pool;
pub mod probe;
pub mod validate;
