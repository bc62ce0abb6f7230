//! Concurrency and lifecycle core of a TLS-terminating server: a bounded
//! content cache, a registry of single-use tokens, and the state machines
//! that drive connections, maintenance and shutdown.

pub mod assoc;
pub mod cache;
pub mod error;
pub mod lifecycle;
pub mod registry;
pub mod server;
pub mod server_state;
