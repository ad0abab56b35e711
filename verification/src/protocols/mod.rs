//! The protocols: Ethernet, ARP and IP.

pub mod arp;
pub mod ethernet;
pub mod ip;
