//! The Address Resolution Protocol.

pub mod enums;
pub mod packet;

pub use enums::{HardwareAddress, Htype, Operation, ProtocolAddress};
pub use packet::Packet;
