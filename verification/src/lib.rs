//! Streaming chat relay core: the binary wire protocol between client and
//! server, the per-connection busy gate, the adapter that turns an upstream
//! completion stream into ordered chat fragments, and the connection handler
//! that ties them together.

pub mod adapter;
pub mod codec;
pub mod protocol;
pub mod relay;
pub mod request;
pub mod session;
