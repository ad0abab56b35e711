//! What every protocol shares: the serialisation contract, big-endian
//! integers, addresses and the traits of a protocol data unit.

pub mod address;
pub mod endian;
pub mod ip;
pub mod layer;
pub mod mac;
pub mod pdu;
pub mod serialise;
pub mod text;

pub use address::Address;
pub use ip::{Ipv4Address, Ipv6Address};
pub use layer::Layer;
pub use mac::MacAddress;
pub use pdu::{Pdu, Wrapper};
pub use serialise::{DeserialiseError, Fault, Serialise};
