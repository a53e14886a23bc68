//! A multi-client text-chat broker library.
//!
//! Clients exchange discrete messages framed by a length-prefixed binary
//! protocol. This crate holds the verified core: the wire codec, the
//! per-connection frame-reader state machine, and the connection registry
//! that decides how every event is answered. The network I/O that feeds
//! these components lives outside the library.

pub mod message;
pub mod reader;
pub mod registry;
pub mod text;
pub mod wire;
