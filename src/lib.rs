//! A SOCKS version 5 proxy core: a resumable handshake decoder, the reply
//! encoder, a backpressure-aware byte relay and the per-connection state
//! machine that ties them together. Sockets and the readiness loop live
//! outside this library; it is driven by plain values.

pub mod cursor;
pub mod handshake;
pub mod relay;
pub mod connection;
pub mod server;
