//! Ethernet: the type/length code and the frame.

pub mod ethertype;
pub mod frame;

pub use ethertype::EtherType;
pub use frame::Frame;
