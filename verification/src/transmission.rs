//! The upstream job-control service: its message shapes and the verified
//! parts of the RPC conversation.

pub mod rpc;
pub mod types;
