//! The codes of ARP, and the addresses that its packets carry.

use crate::common::endian::{
    be_bytes, lemma_be_bytes_len, lemma_be_value_bound, lemma_radix_values, read_be, write_be,
};
use crate::common::address::decode_address;
use crate::common::ip::{ipv4_text, ipv6_text, Ipv4Address, Ipv6Address};
use crate::common::mac::{mac_text, MacAddress};
use crate::common::serialise::{
    decode_uint, lemma_uint_decoded, lemma_uint_round_trip, DeserialiseError, Fault, Serialise,
};
use crate::protocols::ethernet::EtherType;
use crate::common::text::{append_decimal, decimal};
use vstd::prelude::*;
use vstd::std_specs::convert::FromSpecImpl;

verus! {

/// The kind of link that a hardware address of an ARP packet belongs to.
///
/// A code without a name is kept as it is, so that no code is lost.
#[derive(PartialEq, Eq, Structural, Clone, Copy, Debug)]
pub enum Htype {
    /// A code that has no name here.
    Unknown(u16),
    /// Ethernet.
    Ethernet,
    /// IEEE 802 networks.
    IEEE802,
    /// ARCNET.
    Arcnet,
    /// Frame Relay.
    FrameRelay,
    /// Asynchronous Transfer Mode, code 16.
    Atm16,
    /// HDLC.
    Hdlc,
    /// Fibre Channel.
    FibreChannel,
    /// Asynchronous Transfer Mode, code 19.
    Atm19,
    /// Serial line.
    SerialLine,
}

impl View for Htype {
    type V = Htype;

    open spec fn view(&self) -> Htype {
        *self
    }
}

impl Htype {
    /// The value that stands for a code.
    pub open spec fn of_code(code: u16) -> Htype {
        if code == 1 {
            Htype::Ethernet
        } else if code == 6 {
            Htype::IEEE802
        } else if code == 7 {
            Htype::Arcnet
        } else if code == 15 {
            Htype::FrameRelay
        } else if code == 16 {
            Htype::Atm16
        } else if code == 17 {
            Htype::Hdlc
        } else if code == 18 {
            Htype::FibreChannel
        } else if code == 19 {
            Htype::Atm19
        } else if code == 20 {
            Htype::SerialLine
        } else {
            Htype::Unknown(code)
        }
    }

    /// The code that a value stands for.
    pub open spec fn code(self) -> u16 {
        match self {
            Htype::Ethernet => 1,
            Htype::IEEE802 => 6,
            Htype::Arcnet => 7,
            Htype::FrameRelay => 15,
            Htype::Atm16 => 16,
            Htype::Hdlc => 17,
            Htype::FibreChannel => 18,
            Htype::Atm19 => 19,
            Htype::SerialLine => 20,
            Htype::Unknown(code) => code,
        }
    }

    /// Whether the value is the one that stands for its code: a code that
    /// has a name is not written as `Unknown`.
    pub open spec fn canonical(self) -> bool {
        Htype::of_code(self.code()) == self
    }

    /// The text of a value: its name, or its code in decimal where it has
    /// none.
    pub open spec fn text(self) -> Seq<char> {
        match self {
            Htype::Ethernet => "Ethernet"@,
            Htype::IEEE802 => "IEEE802"@,
            Htype::Arcnet => "Arcnet"@,
            Htype::FrameRelay => "FrameRelay"@,
            Htype::Atm16 => "Atm16"@,
            Htype::Hdlc => "Hdlc"@,
            Htype::FibreChannel => "FibreChannel"@,
            Htype::Atm19 => "Atm19"@,
            Htype::SerialLine => "SerialLine"@,
            Htype::Unknown(code) => Htype::code_text(code),
        }
    }

    /// The text of a code that has no name: the code in decimal.
    pub open spec fn code_text(code: u16) -> Seq<char> {
        decimal(code as int)
    }

    /// The bytes that stand for the value on the wire: its code, the most
    /// significant byte first.
    pub open spec fn wire(self) -> Seq<u8> {
        be_bytes(self.code() as nat, 2)
    }

    /// The value that the front of a buffer stands for.
    pub open spec fn decode(buf: Seq<u8>) -> Result<Htype, Fault> {
        match decode_uint("Htype"@, 2, buf) {
            Ok(code) => Ok(Htype::of_code(code as u16)),
            Err(e) => Err(e),
        }
    }

    /// The value as text: its name, or its code in decimal where it has
    /// none.
    pub fn to_string(&self) -> (s: String)
        ensures
            s@ == self.text(),
    {
        match self {
            Htype::Unknown(code) => {
                let mut s = String::new();
                append_decimal(&mut s, *code as u128);
                assert(s@ =~= decimal(*code as int));
                s
            },
            _ => String::from_str(self.name()),
        }
    }

    /// The name of a value that has one.
    fn name(&self) -> (s: &'static str)
        requires
            !(self is Unknown),
        ensures
            s@ == self.text(),
    {
        match self {
            Htype::Ethernet => "Ethernet",
            Htype::IEEE802 => "IEEE802",
            Htype::Arcnet => "Arcnet",
            Htype::FrameRelay => "FrameRelay",
            Htype::Atm16 => "Atm16",
            Htype::Hdlc => "Hdlc",
            Htype::FibreChannel => "FibreChannel",
            Htype::Atm19 => "Atm19",
            Htype::SerialLine => "SerialLine",
            Htype::Unknown(_) => "",
        }
    }
}

impl From<u16> for Htype {
    fn from(value: u16) -> (r: Htype) {
        match value {
            1 => Htype::Ethernet,
            6 => Htype::IEEE802,
            7 => Htype::Arcnet,
            15 => Htype::FrameRelay,
            16 => Htype::Atm16,
            17 => Htype::Hdlc,
            18 => Htype::FibreChannel,
            19 => Htype::Atm19,
            20 => Htype::SerialLine,
            code => Htype::Unknown(code),
        }
    }
}

impl FromSpecImpl<u16> for Htype {
    open spec fn obeys_from_spec() -> bool {
        true
    }

    open spec fn from_spec(value: u16) -> Htype {
        Htype::of_code(value)
    }
}

impl From<[u8; 2]> for Htype {
    fn from(value: [u8; 2]) -> (r: Htype) {
        Htype::from(value[0] as u16 * 256 + value[1] as u16)
    }
}

impl FromSpecImpl<[u8; 2]> for Htype {
    open spec fn obeys_from_spec() -> bool {
        true
    }

    open spec fn from_spec(value: [u8; 2]) -> Htype {
        Htype::of_code((value[0] * 256 + value[1]) as u16)
    }
}

impl From<Htype> for u16 {
    fn from(value: Htype) -> (code: u16) {
        match value {
            Htype::Ethernet => 1,
            Htype::IEEE802 => 6,
            Htype::Arcnet => 7,
            Htype::FrameRelay => 15,
            Htype::Atm16 => 16,
            Htype::Hdlc => 17,
            Htype::FibreChannel => 18,
            Htype::Atm19 => 19,
            Htype::SerialLine => 20,
            Htype::Unknown(code) => code,
        }
    }
}

impl FromSpecImpl<Htype> for u16 {
    open spec fn obeys_from_spec() -> bool {
        true
    }

    open spec fn from_spec(value: Htype) -> u16 {
        value.code()
    }
}

impl From<Htype> for [u8; 2] {
    fn from(value: Htype) -> (bytes: [u8; 2]) {
        let code = u16::from(value);
        let bytes = [(code / 256) as u8, (code % 256) as u8];
        assert(bytes =~= [(value.code() / 256) as u8, (value.code() % 256) as u8]);
        bytes
    }
}

impl FromSpecImpl<Htype> for [u8; 2] {
    open spec fn obeys_from_spec() -> bool {
        true
    }

    open spec fn from_spec(value: Htype) -> [u8; 2] {
        [(value.code() / 256) as u8, (value.code() % 256) as u8]
    }
}

impl Serialise for Htype {
    open spec fn encoding(v: Htype) -> Seq<u8> {
        v.wire()
    }

    open spec fn decoding(buf: Seq<u8>) -> Result<Htype, Fault> {
        Htype::decode(buf)
    }

    fn byte_length(&self) -> (n: usize)
        ensures
            n == 2,
    {
        proof {
            lemma_be_bytes_len(self.code() as nat, 2);
        }
        2
    }

    fn serialise(&self, buf: &mut [u8]) -> (n: usize)
        ensures
            n == 2,
    {
        proof {
            lemma_be_bytes_len(self.code() as nat, 2);
        }
        write_be(buf, u16::from(*self) as u128, 2);
        2
    }

    fn deserialise(buf: &[u8]) -> (r: Result<Htype, DeserialiseError>) {
        if buf.len() < 2 {
            Err(DeserialiseError::BufferTooSmall("Htype", 2, buf.len()))
        } else {
            proof {
                lemma_be_value_bound(buf@.take(2));
                lemma_radix_values();
            }
            Ok(Htype::from(read_be(buf, 2) as u16))
        }
    }
}

/// What an ARP packet asks for or tells.
///
/// A code without a name is kept as it is, so that no code is lost.
#[derive(PartialEq, Eq, Structural, Clone, Copy, Debug)]
pub enum Operation {
    /// A code that has no name here.
    Unknown(u16),
    /// A question: who has this protocol address?
    Request,
    /// The answer to a request.
    Response,
}

impl View for Operation {
    type V = Operation;

    open spec fn view(&self) -> Operation {
        *self
    }
}

impl Operation {
    /// The value that stands for a code.
    pub open spec fn of_code(code: u16) -> Operation {
        if code == 1 {
            Operation::Request
        } else if code == 2 {
            Operation::Response
        } else {
            Operation::Unknown(code)
        }
    }

    /// The code that a value stands for.
    pub open spec fn code(self) -> u16 {
        match self {
            Operation::Request => 1,
            Operation::Response => 2,
            Operation::Unknown(code) => code,
        }
    }

    /// Whether the value is the one that stands for its code: a code that
    /// has a name is not written as `Unknown`.
    pub open spec fn canonical(self) -> bool {
        Operation::of_code(self.code()) == self
    }

    /// The text of a value: its name, or its code in decimal where it has
    /// none.
    pub open spec fn text(self) -> Seq<char> {
        match self {
            Operation::Request => "Request"@,
            Operation::Response => "Response"@,
            Operation::Unknown(code) => Operation::code_text(code),
        }
    }

    /// The text of a code that has no name: the code in decimal.
    pub open spec fn code_text(code: u16) -> Seq<char> {
        decimal(code as int)
    }

    /// The bytes that stand for the value on the wire: its code, the most
    /// significant byte first.
    pub open spec fn wire(self) -> Seq<u8> {
        be_bytes(self.code() as nat, 2)
    }

    /// The value that the front of a buffer stands for.
    pub open spec fn decode(buf: Seq<u8>) -> Result<Operation, Fault> {
        match decode_uint("Operation"@, 2, buf) {
            Ok(code) => Ok(Operation::of_code(code as u16)),
            Err(e) => Err(e),
        }
    }

    /// The value as text: its name, or its code in decimal where it has
    /// none.
    pub fn to_string(&self) -> (s: String)
        ensures
            s@ == self.text(),
    {
        match self {
            Operation::Unknown(code) => {
                let mut s = String::new();
                append_decimal(&mut s, *code as u128);
                assert(s@ =~= decimal(*code as int));
                s
            },
            _ => String::from_str(self.name()),
        }
    }

    /// The name of a value that has one.
    fn name(&self) -> (s: &'static str)
        requires
            !(self is Unknown),
        ensures
            s@ == self.text(),
    {
        match self {
            Operation::Request => "Request",
            Operation::Response => "Response",
            Operation::Unknown(_) => "",
        }
    }
}

impl From<u16> for Operation {
    fn from(value: u16) -> (r: Operation) {
        match value {
            1 => Operation::Request,
            2 => Operation::Response,
            code => Operation::Unknown(code),
        }
    }
}

impl FromSpecImpl<u16> for Operation {
    open spec fn obeys_from_spec() -> bool {
        true
    }

    open spec fn from_spec(value: u16) -> Operation {
        Operation::of_code(value)
    }
}

impl From<[u8; 2]> for Operation {
    fn from(value: [u8; 2]) -> (r: Operation) {
        Operation::from(value[0] as u16 * 256 + value[1] as u16)
    }
}

impl FromSpecImpl<[u8; 2]> for Operation {
    open spec fn obeys_from_spec() -> bool {
        true
    }

    open spec fn from_spec(value: [u8; 2]) -> Operation {
        Operation::of_code((value[0] * 256 + value[1]) as u16)
    }
}

impl From<Operation> for u16 {
    fn from(value: Operation) -> (code: u16) {
        match value {
            Operation::Request => 1,
            Operation::Response => 2,
            Operation::Unknown(code) => code,
        }
    }
}

impl FromSpecImpl<Operation> for u16 {
    open spec fn obeys_from_spec() -> bool {
        true
    }

    open spec fn from_spec(value: Operation) -> u16 {
        value.code()
    }
}

impl From<Operation> for [u8; 2] {
    fn from(value: Operation) -> (bytes: [u8; 2]) {
        let code = u16::from(value);
        let bytes = [(code / 256) as u8, (code % 256) as u8];
        assert(bytes =~= [(value.code() / 256) as u8, (value.code() % 256) as u8]);
        bytes
    }
}

impl FromSpecImpl<Operation> for [u8; 2] {
    open spec fn obeys_from_spec() -> bool {
        true
    }

    open spec fn from_spec(value: Operation) -> [u8; 2] {
        [(value.code() / 256) as u8, (value.code() % 256) as u8]
    }
}

impl Serialise for Operation {
    open spec fn encoding(v: Operation) -> Seq<u8> {
        v.wire()
    }

    open spec fn decoding(buf: Seq<u8>) -> Result<Operation, Fault> {
        Operation::decode(buf)
    }

    fn byte_length(&self) -> (n: usize)
        ensures
            n == 2,
    {
        proof {
            lemma_be_bytes_len(self.code() as nat, 2);
        }
        2
    }

    fn serialise(&self, buf: &mut [u8]) -> (n: usize)
        ensures
            n == 2,
    {
        proof {
            lemma_be_bytes_len(self.code() as nat, 2);
        }
        write_be(buf, u16::from(*self) as u128, 2);
        2
    }

    fn deserialise(buf: &[u8]) -> (r: Result<Operation, DeserialiseError>) {
        if buf.len() < 2 {
            Err(DeserialiseError::BufferTooSmall("Operation", 2, buf.len()))
        } else {
            proof {
                lemma_be_value_bound(buf@.take(2));
                lemma_radix_values();
            }
            Ok(Operation::from(read_be(buf, 2) as u16))
        }
    }
}

/// The fault of reading an address on its own: which kind of address a
/// buffer holds is told by a type code, which `from_bytes` takes.
pub open spec fn untyped_address_fault() -> Fault {
    Fault::Static("an address is read by its type code"@)
}

/// The fault of an address type that has no address here.
pub open spec fn unsupported_address_fault() -> Fault {
    Fault::Static("address type not yet supported"@)
}

/// A hardware address of an ARP packet, of the kind that its type code
/// names. Its view is that code and the bytes of the address.
#[derive(Debug, Copy, Clone)]
pub enum HardwareAddress {
    /// A link-layer address, for `Htype::Ethernet`.
    MacAddress(MacAddress),
}

impl View for HardwareAddress {
    type V = (Htype, Seq<u8>);

    open spec fn view(&self) -> (Htype, Seq<u8>) {
        match self {
            HardwareAddress::MacAddress(addr) => (Htype::Ethernet, addr@),
        }
    }
}

impl HardwareAddress {
    /// The number of bytes of a hardware address of the given type, if the
    /// type has an address here.
    pub open spec fn width(addr_type: Htype) -> Option<nat> {
        if addr_type == Htype::Ethernet {
            Some(6nat)
        } else {
            None
        }
    }

    /// Whether a type code and bytes are the view of a hardware address.
    pub open spec fn valid(v: (Htype, Seq<u8>)) -> bool {
        HardwareAddress::width(v.0) == Some(v.1.len())
    }

    /// The address of the given type that the front of a buffer holds.
    pub open spec fn decode(addr_type: Htype, buf: Seq<u8>) -> Result<(Htype, Seq<u8>), Fault> {
        if addr_type == Htype::Ethernet {
            match decode_address("MacAddress"@, 6, buf) {
                Ok(bytes) => Ok((Htype::Ethernet, bytes)),
                Err(e) => Err(e),
            }
        } else {
            Err(unsupported_address_fault())
        }
    }

    /// The text of an address.
    pub open spec fn text(v: (Htype, Seq<u8>)) -> Seq<char> {
        mac_text(v.1)
    }

    /// Reads the address of the given type from the front of `bytes`.
    pub fn from_bytes(addr_type: Htype, bytes: &[u8]) -> (r: Result<
        HardwareAddress,
        DeserialiseError,
    >)
        ensures
            match r {
                Ok(addr) => HardwareAddress::decode(addr_type, bytes@) == Ok::<
                    (Htype, Seq<u8>),
                    Fault,
                >(addr@),
                Err(e) => HardwareAddress::decode(addr_type, bytes@) == Err::<
                    (Htype, Seq<u8>),
                    Fault,
                >(e@),
            },
    {
        match addr_type {
            Htype::Ethernet => match MacAddress::deserialise(bytes) {
                Ok(addr) => Ok(HardwareAddress::MacAddress(addr)),
                Err(e) => Err(e),
            },
            _ => Err(DeserialiseError::Static("address type not yet supported")),
        }
    }

    /// The type code of the address.
    pub fn addr_type(&self) -> (addr_type: Htype)
        ensures
            addr_type == self@.0,
    {
        match self {
            HardwareAddress::MacAddress(_) => Htype::Ethernet,
        }
    }

    /// The address as text.
    pub fn to_string(&self) -> (s: String)
        ensures
            s@ == HardwareAddress::text(self@),
    {
        match self {
            HardwareAddress::MacAddress(addr) => addr.to_string(),
        }
    }
}

impl From<MacAddress> for HardwareAddress {
    fn from(value: MacAddress) -> (addr: HardwareAddress) {
        HardwareAddress::MacAddress(value)
    }
}

impl FromSpecImpl<MacAddress> for HardwareAddress {
    open spec fn obeys_from_spec() -> bool {
        true
    }

    open spec fn from_spec(value: MacAddress) -> HardwareAddress {
        HardwareAddress::MacAddress(value)
    }
}

impl Serialise for HardwareAddress {
    open spec fn encoding(v: (Htype, Seq<u8>)) -> Seq<u8> {
        v.1
    }

    open spec fn decoding(buf: Seq<u8>) -> Result<(Htype, Seq<u8>), Fault> {
        Err(untyped_address_fault())
    }

    fn byte_length(&self) -> (n: usize) {
        match self {
            HardwareAddress::MacAddress(addr) => addr.byte_length(),
        }
    }

    fn serialise(&self, buf: &mut [u8]) -> (n: usize) {
        match self {
            HardwareAddress::MacAddress(addr) => addr.serialise(buf),
        }
    }

    fn deserialise(buf: &[u8]) -> (r: Result<HardwareAddress, DeserialiseError>) {
        Err(DeserialiseError::Static("an address is read by its type code"))
    }
}

/// A protocol address of an ARP packet, of the kind that its type code
/// names. Its view is that code and the bytes of the address.
#[derive(Debug, Copy, Clone)]
pub enum ProtocolAddress {
    /// An IPv4 address, for `EtherType::Ipv4`.
    Ipv4Address(Ipv4Address),
    /// An IPv6 address, for `EtherType::Ipv6`.
    Ipv6Address(Ipv6Address),
}

impl View for ProtocolAddress {
    type V = (EtherType, Seq<u8>);

    open spec fn view(&self) -> (EtherType, Seq<u8>) {
        match self {
            ProtocolAddress::Ipv4Address(addr) => (EtherType::Ipv4, addr@),
            ProtocolAddress::Ipv6Address(addr) => (EtherType::Ipv6, addr@),
        }
    }
}

impl ProtocolAddress {
    /// The number of bytes of a protocol address of the given type, if the
    /// type has an address here.
    pub open spec fn width(addr_type: EtherType) -> Option<nat> {
        if addr_type == EtherType::Ipv4 {
            Some(4nat)
        } else if addr_type == EtherType::Ipv6 {
            Some(16nat)
        } else {
            None
        }
    }

    /// Whether a type code and bytes are the view of a protocol address.
    pub open spec fn valid(v: (EtherType, Seq<u8>)) -> bool {
        ProtocolAddress::width(v.0) == Some(v.1.len())
    }

    /// The address of the given type that the front of a buffer holds.
    pub open spec fn decode(addr_type: EtherType, buf: Seq<u8>) -> Result<
        (EtherType, Seq<u8>),
        Fault,
    > {
        if addr_type == EtherType::Ipv4 {
            match decode_address("Ipv4Address"@, 4, buf) {
                Ok(bytes) => Ok((EtherType::Ipv4, bytes)),
                Err(e) => Err(e),
            }
        } else if addr_type == EtherType::Ipv6 {
            match decode_address("Ipv6Address"@, 16, buf) {
                Ok(bytes) => Ok((EtherType::Ipv6, bytes)),
                Err(e) => Err(e),
            }
        } else {
            Err(unsupported_address_fault())
        }
    }

    /// The text of an address.
    pub open spec fn text(v: (EtherType, Seq<u8>)) -> Seq<char> {
        if v.0 == EtherType::Ipv4 {
            ipv4_text(v.1)
        } else {
            ipv6_text(v.1)
        }
    }

    /// Reads the address of the given type from the front of `bytes`.
    pub fn from_bytes(addr_type: EtherType, bytes: &[u8]) -> (r: Result<
        ProtocolAddress,
        DeserialiseError,
    >)
        ensures
            match r {
                Ok(addr) => ProtocolAddress::decode(addr_type, bytes@) == Ok::<
                    (EtherType, Seq<u8>),
                    Fault,
                >(addr@),
                Err(e) => ProtocolAddress::decode(addr_type, bytes@) == Err::<
                    (EtherType, Seq<u8>),
                    Fault,
                >(e@),
            },
    {
        match addr_type {
            EtherType::Ipv4 => match Ipv4Address::deserialise(bytes) {
                Ok(addr) => Ok(ProtocolAddress::Ipv4Address(addr)),
                Err(e) => Err(e),
            },
            EtherType::Ipv6 => match Ipv6Address::deserialise(bytes) {
                Ok(addr) => Ok(ProtocolAddress::Ipv6Address(addr)),
                Err(e) => Err(e),
            },
            _ => Err(DeserialiseError::Static("address type not yet supported")),
        }
    }

    /// The type code of the address.
    pub fn addr_type(&self) -> (addr_type: EtherType)
        ensures
            addr_type == self@.0,
    {
        match self {
            ProtocolAddress::Ipv4Address(_) => EtherType::Ipv4,
            ProtocolAddress::Ipv6Address(_) => EtherType::Ipv6,
        }
    }

    /// The address as text.
    pub fn to_string(&self) -> (s: String)
        ensures
            s@ == ProtocolAddress::text(self@),
    {
        match self {
            ProtocolAddress::Ipv4Address(addr) => addr.to_string(),
            ProtocolAddress::Ipv6Address(addr) => addr.to_string(),
        }
    }
}

impl From<Ipv4Address> for ProtocolAddress {
    fn from(value: Ipv4Address) -> (addr: ProtocolAddress) {
        ProtocolAddress::Ipv4Address(value)
    }
}

impl FromSpecImpl<Ipv4Address> for ProtocolAddress {
    open spec fn obeys_from_spec() -> bool {
        true
    }

    open spec fn from_spec(value: Ipv4Address) -> ProtocolAddress {
        ProtocolAddress::Ipv4Address(value)
    }
}

impl From<Ipv6Address> for ProtocolAddress {
    fn from(value: Ipv6Address) -> (addr: ProtocolAddress) {
        ProtocolAddress::Ipv6Address(value)
    }
}

impl FromSpecImpl<Ipv6Address> for ProtocolAddress {
    open spec fn obeys_from_spec() -> bool {
        true
    }

    open spec fn from_spec(value: Ipv6Address) -> ProtocolAddress {
        ProtocolAddress::Ipv6Address(value)
    }
}

impl Serialise for ProtocolAddress {
    open spec fn encoding(v: (EtherType, Seq<u8>)) -> Seq<u8> {
        v.1
    }

    open spec fn decoding(buf: Seq<u8>) -> Result<(EtherType, Seq<u8>), Fault> {
        Err(untyped_address_fault())
    }

    fn byte_length(&self) -> (n: usize) {
        match self {
            ProtocolAddress::Ipv4Address(addr) => addr.byte_length(),
            ProtocolAddress::Ipv6Address(addr) => addr.byte_length(),
        }
    }

    fn serialise(&self, buf: &mut [u8]) -> (n: usize) {
        match self {
            ProtocolAddress::Ipv4Address(addr) => addr.serialise(buf),
            ProtocolAddress::Ipv6Address(addr) => addr.serialise(buf),
        }
    }

    fn deserialise(buf: &[u8]) -> (r: Result<ProtocolAddress, DeserialiseError>) {
        Err(DeserialiseError::Static("an address is read by its type code"))
    }
}

impl Htype {
    /// A value that stands for its code, serialised and deserialised,
    /// whatever follows it in the buffer, is as it was.
    pub proof fn lemma_round_trip(self, rest: Seq<u8>)
        requires
            self.canonical(),
        ensures
            self.wire().len() == 2,
            Htype::decode(self.wire() + rest) == Ok::<Htype, Fault>(self),
            Htype::decoding(Htype::encoding(self) + rest) == Ok::<Htype, Fault>(self),
    {
        lemma_radix_values();
        lemma_uint_round_trip("Htype"@, self.code() as nat, 2, rest);
    }

    /// What is read from a buffer stands for its code, and its bytes are
    /// the front of the buffer.
    pub proof fn lemma_decoded(buf: Seq<u8>)
        requires
            Htype::decode(buf) is Ok,
        ensures
            Htype::decode(buf)->Ok_0.canonical(),
            Htype::decode(buf)->Ok_0.wire() == buf.take(2),
    {
        lemma_radix_values();
        lemma_uint_decoded("Htype"@, 2, buf);
        let code = decode_uint("Htype"@, 2, buf)->Ok_0;
        Htype::lemma_code_round_trip(code as u16);
    }

    /// From a code to its value and back, the code is as it was.
    pub proof fn lemma_code_round_trip(code: u16)
        ensures
            Htype::of_code(code).code() == code,
            Htype::of_code(code).canonical(),
    {
    }
}

impl Operation {
    /// A value that stands for its code, serialised and deserialised,
    /// whatever follows it in the buffer, is as it was.
    pub proof fn lemma_round_trip(self, rest: Seq<u8>)
        requires
            self.canonical(),
        ensures
            self.wire().len() == 2,
            Operation::decode(self.wire() + rest) == Ok::<Operation, Fault>(self),
            Operation::decoding(Operation::encoding(self) + rest) == Ok::<Operation, Fault>(self),
    {
        lemma_radix_values();
        lemma_uint_round_trip("Operation"@, self.code() as nat, 2, rest);
    }

    /// What is read from a buffer stands for its code, and its bytes are
    /// the front of the buffer.
    pub proof fn lemma_decoded(buf: Seq<u8>)
        requires
            Operation::decode(buf) is Ok,
        ensures
            Operation::decode(buf)->Ok_0.canonical(),
            Operation::decode(buf)->Ok_0.wire() == buf.take(2),
    {
        lemma_radix_values();
        lemma_uint_decoded("Operation"@, 2, buf);
        let code = decode_uint("Operation"@, 2, buf)->Ok_0;
        Operation::lemma_code_round_trip(code as u16);
    }

    /// From a code to its value and back, the code is as it was.
    pub proof fn lemma_code_round_trip(code: u16)
        ensures
            Operation::of_code(code).code() == code,
            Operation::of_code(code).canonical(),
    {
    }
}

impl HardwareAddress {
    /// The view of an address is valid.
    pub proof fn lemma_valid(self)
        ensures
            HardwareAddress::valid(self@),
    {
        match self {
            HardwareAddress::MacAddress(addr) => addr.lemma_len(),
        }
    }
}

impl ProtocolAddress {
    /// The view of an address is valid.
    pub proof fn lemma_valid(self)
        ensures
            ProtocolAddress::valid(self@),
    {
        match self {
            ProtocolAddress::Ipv4Address(addr) => addr.lemma_len(),
            ProtocolAddress::Ipv6Address(addr) => addr.lemma_len(),
        }
    }
}

} // verus!
