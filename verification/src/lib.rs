//! A network protocol stack in user space.
//!
//! The library encodes and decodes Ethernet frames, ARP packets and IPv4
//! headers, bit for bit, and holds the rules by which layered services pass
//! what they receive on to one another. It does no input or output: it
//! takes bytes and gives bytes, and says what is to be sent where.
//!
//! Every function is verified: what it returns is stated over plain
//! sequences of bytes, and that serialising and deserialising undo one
//! another, that the IPv4 checksum catches a changed bit and that the first
//! rule that applies decides are proved, not tested.

pub mod checksum;
pub mod common;
pub mod ethernet;
pub mod ipv4;
pub mod netservice;
pub mod protocols;
pub mod responder;
