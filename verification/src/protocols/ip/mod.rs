//! The Internet Protocol.

pub mod proto;

pub use proto::IpProtocol;
