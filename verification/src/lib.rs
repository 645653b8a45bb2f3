//! The control protocol of a tunnel that makes a service behind NAT
//! reachable under a public hostname.
//!
//! * `ids`: stream ids, client ids, reconnect tokens, sub-domain names.
//! * `wire`: byte-level helpers of the wire formats.
//! * `signature`: the signature authority.
//! * `reconnect_token`: the signed, expiring claim with which a client
//!   resumes its session.
//! * `packet`: the control packet codec.
//! * `error`: the client's failures, and which of them are retried.
//! * `handshake`: the client's side of the handshake.
//! * `streams`: the registry of the live streams of a connection.
//! * `mux`: the stream multiplexer and its outbound queue.
//! * `session`: the decisions of the loop that keeps a session alive.
//! * `registry`: the server's routing registry.
//! * `server_handshake`: the server's side of the handshake.
//! * `query`: the read-only host query.
//!
//! Nothing in this crate performs I/O or draws a random number: what the
//! protocol decides is decided here, on values that the caller hands in,
//! and what it asks for is handed back to be done. The one function that
//! reads the clock, `ReconnectTokenPayload::verify`, stands beside
//! `verify_at`, which is told the time.

pub mod error;
pub mod handshake;
pub mod ids;
pub mod mux;
pub mod packet;
pub mod query;
pub mod reconnect_token;
pub mod registry;
pub mod server_handshake;
pub mod session;
pub mod signature;
pub mod streams;
pub mod wire;
