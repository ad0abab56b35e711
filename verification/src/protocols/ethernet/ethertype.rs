//! The type/length code of an Ethernet frame.

use crate::common::endian::{
    be_bytes, lemma_be_bytes_len, lemma_be_value_bound, lemma_radix_values, read_be, write_be,
};
use crate::common::serialise::{
    decode_uint, lemma_uint_decoded, lemma_uint_round_trip, DeserialiseError, Fault, Serialise,
};
use crate::common::text::{append_decimal, append_hex, decimal, hex};
use vstd::prelude::*;
use vstd::std_specs::convert::FromSpecImpl;

verus! {

/// The code that follows the addresses of an Ethernet frame.
///
/// Up to 1500 it is the length of the payload; above that it names the
/// protocol of the payload, or says that a VLAN tag comes first. A code
/// without a name is kept as it is, so that no code is lost.
#[derive(PartialEq, Eq, Structural, Clone, Copy, Debug)]
pub enum EtherType {
    /// The length of the payload in bytes, at most 1500.
    PayloadLength(u16),
    /// A code above 1500 that has no name here.
    Unknown(u16),
    /// Internet Protocol, version 4.
    Ipv4,
    /// Address Resolution Protocol.
    Arp,
    /// Wake-on-LAN.
    WakeOnLan,
    /// A customer VLAN tag follows (IEEE 802.1Q).
    VlanTaggedFrame,
    /// Internet Protocol, version 6.
    Ipv6,
    /// A service VLAN tag follows (IEEE 802.1ad).
    ServiceVlanTag,
}

impl View for EtherType {
    type V = EtherType;

    open spec fn view(&self) -> EtherType {
        *self
    }
}

impl EtherType {
    /// The value that stands for a code.
    pub open spec fn of_code(code: u16) -> EtherType {
        if code <= 1500 {
            EtherType::PayloadLength(code)
        } else if code == 0x0800 {
            EtherType::Ipv4
        } else if code == 0x0806 {
            EtherType::Arp
        } else if code == 0x0842 {
            EtherType::WakeOnLan
        } else if code == 0x8100 {
            EtherType::VlanTaggedFrame
        } else if code == 0x86dd {
            EtherType::Ipv6
        } else if code == 0x88a8 {
            EtherType::ServiceVlanTag
        } else {
            EtherType::Unknown(code)
        }
    }

    /// The code that a value stands for.
    pub open spec fn code(self) -> u16 {
        match self {
            EtherType::PayloadLength(length) => length,
            EtherType::Ipv4 => 0x0800,
            EtherType::Arp => 0x0806,
            EtherType::WakeOnLan => 0x0842,
            EtherType::VlanTaggedFrame => 0x8100,
            EtherType::Ipv6 => 0x86dd,
            EtherType::ServiceVlanTag => 0x88a8,
            EtherType::Unknown(code) => code,
        }
    }

    /// Whether the value is the one that stands for its code: a length is
    /// at most 1500, and a code that has a name or is a length is not
    /// written as `Unknown`.
    pub open spec fn canonical(self) -> bool {
        EtherType::of_code(self.code()) == self
    }

    /// Whether the value says that a VLAN tag comes before the type code.
    pub open spec fn is_vlan_tag(self) -> bool {
        self == EtherType::VlanTaggedFrame || self == EtherType::ServiceVlanTag
    }

    /// The text of a value: its name, with its number in brackets where it
    /// holds one, a length in decimal and an unknown code in four
    /// hexadecimal digits.
    pub open spec fn text(self) -> Seq<char> {
        match self {
            EtherType::PayloadLength(length) => "PayloadLength("@ + decimal(length as int) + ")"@,
            EtherType::Ipv4 => "Ipv4"@,
            EtherType::Arp => "Arp"@,
            EtherType::WakeOnLan => "WakeOnLan"@,
            EtherType::VlanTaggedFrame => "VlanTaggedFrame"@,
            EtherType::Ipv6 => "Ipv6"@,
            EtherType::ServiceVlanTag => "ServiceVlanTag"@,
            EtherType::Unknown(code) => "Unknown("@ + hex(code as int, 4) + ")"@,
        }
    }

    /// The bytes that stand for the value on the wire: its code, the most
    /// significant byte first.
    pub open spec fn wire(self) -> Seq<u8> {
        be_bytes(self.code() as nat, 2)
    }

    /// The value that the front of a buffer stands for.
    pub open spec fn decode(buf: Seq<u8>) -> Result<EtherType, Fault> {
        match decode_uint("EtherType"@, 2, buf) {
            Ok(code) => Ok(EtherType::of_code(code as u16)),
            Err(e) => Err(e),
        }
    }

    /// Whether the value says that a VLAN tag comes before the type code.
    pub fn tags_vlan(&self) -> (tag: bool)
        ensures
            tag == self.is_vlan_tag(),
    {
        match self {
            EtherType::VlanTaggedFrame | EtherType::ServiceVlanTag => true,
            _ => false,
        }
    }

    /// The value as text.
    pub fn to_string(&self) -> (s: String)
        ensures
            s@ == self.text(),
    {
        match self {
            EtherType::PayloadLength(length) => {
                let mut s = String::from_str("PayloadLength(");
                append_decimal(&mut s, *length as u128);
                s.append(")");
                s
            },
            EtherType::Unknown(code) => {
                let mut s = String::from_str("Unknown(");
                append_hex(&mut s, *code as u32, 4);
                s.append(")");
                s
            },
            EtherType::Ipv4 => String::from_str("Ipv4"),
            EtherType::Arp => String::from_str("Arp"),
            EtherType::WakeOnLan => String::from_str("WakeOnLan"),
            EtherType::VlanTaggedFrame => String::from_str("VlanTaggedFrame"),
            EtherType::Ipv6 => String::from_str("Ipv6"),
            EtherType::ServiceVlanTag => String::from_str("ServiceVlanTag"),
        }
    }
}

impl From<u16> for EtherType {
    fn from(value: u16) -> (r: EtherType) {
        if value <= 1500 {
            EtherType::PayloadLength(value)
        } else {
            match value {
                0x0800 => EtherType::Ipv4,
                0x0806 => EtherType::Arp,
                0x0842 => EtherType::WakeOnLan,
                0x8100 => EtherType::VlanTaggedFrame,
                0x86dd => EtherType::Ipv6,
                0x88a8 => EtherType::ServiceVlanTag,
                code => EtherType::Unknown(code),
            }
        }
    }
}

impl FromSpecImpl<u16> for EtherType {
    open spec fn obeys_from_spec() -> bool {
        true
    }

    open spec fn from_spec(value: u16) -> EtherType {
        EtherType::of_code(value)
    }
}

impl From<[u8; 2]> for EtherType {
    fn from(value: [u8; 2]) -> (r: EtherType) {
        EtherType::from(value[0] as u16 * 256 + value[1] as u16)
    }
}

impl FromSpecImpl<[u8; 2]> for EtherType {
    open spec fn obeys_from_spec() -> bool {
        true
    }

    open spec fn from_spec(value: [u8; 2]) -> EtherType {
        EtherType::of_code((value[0] * 256 + value[1]) as u16)
    }
}

impl From<&EtherType> for u16 {
    fn from(value: &EtherType) -> (code: u16) {
        match value {
            EtherType::PayloadLength(length) => *length,
            EtherType::Ipv4 => 0x0800,
            EtherType::Arp => 0x0806,
            EtherType::WakeOnLan => 0x0842,
            EtherType::VlanTaggedFrame => 0x8100,
            EtherType::Ipv6 => 0x86dd,
            EtherType::ServiceVlanTag => 0x88a8,
            EtherType::Unknown(code) => *code,
        }
    }
}

impl FromSpecImpl<&EtherType> for u16 {
    open spec fn obeys_from_spec() -> bool {
        true
    }

    open spec fn from_spec(value: &EtherType) -> u16 {
        value.code()
    }
}

impl From<&EtherType> for [u8; 2] {
    fn from(value: &EtherType) -> (bytes: [u8; 2]) {
        let code = u16::from(value);
        let bytes = [(code / 256) as u8, (code % 256) as u8];
        assert(bytes =~= [(value.code() / 256) as u8, (value.code() % 256) as u8]);
        bytes
    }
}

impl FromSpecImpl<&EtherType> for [u8; 2] {
    open spec fn obeys_from_spec() -> bool {
        true
    }

    open spec fn from_spec(value: &EtherType) -> [u8; 2] {
        [(value.code() / 256) as u8, (value.code() % 256) as u8]
    }
}

impl Serialise for EtherType {
    open spec fn encoding(v: EtherType) -> Seq<u8> {
        v.wire()
    }

    open spec fn decoding(buf: Seq<u8>) -> Result<EtherType, Fault> {
        EtherType::decode(buf)
    }

    fn byte_length(&self) -> (n: usize)
        ensures
            n == 2,
    {
        proof {
            lemma_be_bytes_len(self.code() as nat, 2);
        }
        2
    }

    fn serialise(&self, buf: &mut [u8]) -> (n: usize)
        ensures
            n == 2,
    {
        proof {
            lemma_be_bytes_len(self.code() as nat, 2);
        }
        write_be(buf, u16::from(self) as u128, 2);
        2
    }

    fn deserialise(buf: &[u8]) -> (r: Result<EtherType, DeserialiseError>) {
        if buf.len() < 2 {
            Err(DeserialiseError::BufferTooSmall("EtherType", 2, buf.len()))
        } else {
            proof {
                lemma_be_value_bound(buf@.take(2));
                lemma_radix_values();
            }
            Ok(EtherType::from(read_be(buf, 2) as u16))
        }
    }
}

impl EtherType {
    /// A value that stands for its code, serialised and deserialised,
    /// whatever follows it in the buffer, is as it was.
    pub proof fn lemma_round_trip(self, rest: Seq<u8>)
        requires
            self.canonical(),
        ensures
            self.wire().len() == 2,
            EtherType::decode(self.wire() + rest) == Ok::<EtherType, Fault>(self),
            EtherType::decoding(EtherType::encoding(self) + rest) == Ok::<EtherType, Fault>(self),
    {
        lemma_radix_values();
        lemma_uint_round_trip("EtherType"@, self.code() as nat, 2, rest);
    }

    /// What is read from a buffer stands for its code, and its bytes are
    /// the front of the buffer.
    pub proof fn lemma_decoded(buf: Seq<u8>)
        requires
            EtherType::decode(buf) is Ok,
        ensures
            EtherType::decode(buf)->Ok_0.canonical(),
            EtherType::decode(buf)->Ok_0.wire() == buf.take(2),
    {
        lemma_radix_values();
        lemma_uint_decoded("EtherType"@, 2, buf);
        let code = decode_uint("EtherType"@, 2, buf)->Ok_0;
        EtherType::lemma_code_round_trip(code as u16);
    }

    /// From a code to its value and back, the code is as it was.
    pub proof fn lemma_code_round_trip(code: u16)
        ensures
            EtherType::of_code(code).code() == code,
            EtherType::of_code(code).canonical(),
            code <= 1500 <==> EtherType::of_code(code) is PayloadLength,
    {
    }
}

} // verus!
