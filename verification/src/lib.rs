//! A session-gated live-update feed.
//!
//! The library holds the verified core of a small web front end to a
//! job-control RPC service: the expiring session store with random secrets,
//! the cookie encoding of those secrets, the long-poll diff loop that turns
//! polling and change notifications into a stream of snapshot events, the
//! streaming gzip transform for event-stream responses, and the byte-level
//! pieces of the Unix-socket listener setup.  The surrounding application
//! supplies the HTTP plumbing and performs the I/O.

pub mod config;
pub mod cookie_codec;
pub mod handlers;
pub mod listing;
pub mod middleware;
pub mod session;
pub mod stream_diff;
pub mod text;
pub mod transmission;
pub mod unix_sock;
