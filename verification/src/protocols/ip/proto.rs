//! The codes of the protocols that IP carries.

use crate::common::endian::{
    be_bytes, lemma_be_bytes_len, lemma_be_value_bound, lemma_radix_values, read_be, write_be,
};
use crate::common::serialise::{
    decode_uint, lemma_uint_decoded, lemma_uint_round_trip, DeserialiseError, Fault, Serialise,
};
use crate::common::text::{append_decimal, decimal};
use vstd::prelude::*;
use vstd::std_specs::convert::FromSpecImpl;

verus! {

/// The protocol that an IP datagram carries.
///
/// A code without a name is kept as it is, so that no code is lost.
#[derive(PartialEq, Eq, Structural, Clone, Copy, Debug)]
pub enum IpProtocol {
    /// A code that has no name here.
    Unknown(u8),
    /// Internet Control Message Protocol.
    Icmp,
    /// Transmission Control Protocol.
    Tcp,
    /// User Datagram Protocol.
    Udp,
    /// ICMP for IPv6.
    Ipv6Icmp,
    /// No next header, for IPv6.
    Ipv6NoNxt,
    /// Destination options, for IPv6.
    Ipv6Opts,
}

impl View for IpProtocol {
    type V = IpProtocol;

    open spec fn view(&self) -> IpProtocol {
        *self
    }
}

impl IpProtocol {
    /// The value that stands for a code.
    pub open spec fn of_code(code: u8) -> IpProtocol {
        if code == 1 {
            IpProtocol::Icmp
        } else if code == 6 {
            IpProtocol::Tcp
        } else if code == 17 {
            IpProtocol::Udp
        } else if code == 58 {
            IpProtocol::Ipv6Icmp
        } else if code == 59 {
            IpProtocol::Ipv6NoNxt
        } else if code == 60 {
            IpProtocol::Ipv6Opts
        } else {
            IpProtocol::Unknown(code)
        }
    }

    /// The code that a value stands for.
    pub open spec fn code(self) -> u8 {
        match self {
            IpProtocol::Icmp => 1,
            IpProtocol::Tcp => 6,
            IpProtocol::Udp => 17,
            IpProtocol::Ipv6Icmp => 58,
            IpProtocol::Ipv6NoNxt => 59,
            IpProtocol::Ipv6Opts => 60,
            IpProtocol::Unknown(code) => code,
        }
    }

    /// Whether the value is the one that stands for its code: a code that
    /// has a name is not written as `Unknown`.
    pub open spec fn canonical(self) -> bool {
        IpProtocol::of_code(self.code()) == self
    }

    /// The text of a value: its name, or its code in decimal where it has
    /// none.
    pub open spec fn text(self) -> Seq<char> {
        match self {
            IpProtocol::Icmp => "Icmp"@,
            IpProtocol::Tcp => "Tcp"@,
            IpProtocol::Udp => "Udp"@,
            IpProtocol::Ipv6Icmp => "Ipv6Icmp"@,
            IpProtocol::Ipv6NoNxt => "Ipv6NoNxt"@,
            IpProtocol::Ipv6Opts => "Ipv6Opts"@,
            IpProtocol::Unknown(code) => IpProtocol::code_text(code),
        }
    }

    /// The text of a code that has no name: the code in decimal.
    pub open spec fn code_text(code: u8) -> Seq<char> {
        decimal(code as int)
    }

    /// The bytes that stand for the value on the wire: its code, the most
    /// significant byte first.
    pub open spec fn wire(self) -> Seq<u8> {
        be_bytes(self.code() as nat, 1)
    }

    /// The value that the front of a buffer stands for.
    pub open spec fn decode(buf: Seq<u8>) -> Result<IpProtocol, Fault> {
        match decode_uint("IpProtocol"@, 1, buf) {
            Ok(code) => Ok(IpProtocol::of_code(code as u8)),
            Err(e) => Err(e),
        }
    }

    /// The value as text: its name, or its code in decimal where it has
    /// none.
    pub fn to_string(&self) -> (s: String)
        ensures
            s@ == self.text(),
    {
        match self {
            IpProtocol::Unknown(code) => {
                let mut s = String::new();
                append_decimal(&mut s, *code as u128);
                assert(s@ =~= decimal(*code as int));
                s
            },
            _ => String::from_str(self.name()),
        }
    }

    /// The name of a value that has one.
    fn name(&self) -> (s: &'static str)
        requires
            !(self is Unknown),
        ensures
            s@ == self.text(),
    {
        match self {
            IpProtocol::Icmp => "Icmp",
            IpProtocol::Tcp => "Tcp",
            IpProtocol::Udp => "Udp",
            IpProtocol::Ipv6Icmp => "Ipv6Icmp",
            IpProtocol::Ipv6NoNxt => "Ipv6NoNxt",
            IpProtocol::Ipv6Opts => "Ipv6Opts",
            IpProtocol::Unknown(_) => "",
        }
    }
}

impl From<u8> for IpProtocol {
    fn from(value: u8) -> (r: IpProtocol) {
        match value {
            1 => IpProtocol::Icmp,
            6 => IpProtocol::Tcp,
            17 => IpProtocol::Udp,
            58 => IpProtocol::Ipv6Icmp,
            59 => IpProtocol::Ipv6NoNxt,
            60 => IpProtocol::Ipv6Opts,
            code => IpProtocol::Unknown(code),
        }
    }
}

impl FromSpecImpl<u8> for IpProtocol {
    open spec fn obeys_from_spec() -> bool {
        true
    }

    open spec fn from_spec(value: u8) -> IpProtocol {
        IpProtocol::of_code(value)
    }
}

impl From<[u8; 1]> for IpProtocol {
    fn from(value: [u8; 1]) -> (r: IpProtocol) {
        IpProtocol::from(value[0])
    }
}

impl FromSpecImpl<[u8; 1]> for IpProtocol {
    open spec fn obeys_from_spec() -> bool {
        true
    }

    open spec fn from_spec(value: [u8; 1]) -> IpProtocol {
        IpProtocol::of_code(value[0])
    }
}

impl From<IpProtocol> for u8 {
    fn from(value: IpProtocol) -> (code: u8) {
        match value {
            IpProtocol::Icmp => 1,
            IpProtocol::Tcp => 6,
            IpProtocol::Udp => 17,
            IpProtocol::Ipv6Icmp => 58,
            IpProtocol::Ipv6NoNxt => 59,
            IpProtocol::Ipv6Opts => 60,
            IpProtocol::Unknown(code) => code,
        }
    }
}

impl FromSpecImpl<IpProtocol> for u8 {
    open spec fn obeys_from_spec() -> bool {
        true
    }

    open spec fn from_spec(value: IpProtocol) -> u8 {
        value.code()
    }
}

impl From<IpProtocol> for [u8; 1] {
    fn from(value: IpProtocol) -> (bytes: [u8; 1]) {
        let code = u8::from(value);
        let bytes = [code];
        assert(bytes =~= [value.code()]);
        bytes
    }
}

impl FromSpecImpl<IpProtocol> for [u8; 1] {
    open spec fn obeys_from_spec() -> bool {
        true
    }

    open spec fn from_spec(value: IpProtocol) -> [u8; 1] {
        [value.code()]
    }
}

impl Serialise for IpProtocol {
    open spec fn encoding(v: IpProtocol) -> Seq<u8> {
        v.wire()
    }

    open spec fn decoding(buf: Seq<u8>) -> Result<IpProtocol, Fault> {
        IpProtocol::decode(buf)
    }

    fn byte_length(&self) -> (n: usize)
        ensures
            n == 1,
    {
        proof {
            lemma_be_bytes_len(self.code() as nat, 1);
        }
        1
    }

    fn serialise(&self, buf: &mut [u8]) -> (n: usize)
        ensures
            n == 1,
    {
        proof {
            lemma_be_bytes_len(self.code() as nat, 1);
        }
        write_be(buf, u8::from(*self) as u128, 1);
        1
    }

    fn deserialise(buf: &[u8]) -> (r: Result<IpProtocol, DeserialiseError>) {
        if buf.len() < 1 {
            Err(DeserialiseError::BufferTooSmall("IpProtocol", 1, buf.len()))
        } else {
            proof {
                lemma_be_value_bound(buf@.take(1));
                lemma_radix_values();
            }
            Ok(IpProtocol::from(read_be(buf, 1) as u8))
        }
    }
}

impl IpProtocol {
    /// A value that stands for its code, serialised and deserialised,
    /// whatever follows it in the buffer, is as it was.
    pub proof fn lemma_round_trip(self, rest: Seq<u8>)
        requires
            self.canonical(),
        ensures
            self.wire().len() == 1,
            IpProtocol::decode(self.wire() + rest) == Ok::<IpProtocol, Fault>(self),
            IpProtocol::decoding(IpProtocol::encoding(self) + rest) == Ok::<IpProtocol, Fault>(
                self,
            ),
    {
        lemma_radix_values();
        lemma_uint_round_trip("IpProtocol"@, self.code() as nat, 1, rest);
    }

    /// What is read from a buffer stands for its code, and its bytes are
    /// the front of the buffer.
    pub proof fn lemma_decoded(buf: Seq<u8>)
        requires
            IpProtocol::decode(buf) is Ok,
        ensures
            IpProtocol::decode(buf)->Ok_0.canonical(),
            IpProtocol::decode(buf)->Ok_0.wire() == buf.take(1),
    {
        lemma_radix_values();
        lemma_uint_decoded("IpProtocol"@, 1, buf);
        let code = decode_uint("IpProtocol"@, 1, buf)->Ok_0;
        IpProtocol::lemma_code_round_trip(code as u8);
    }

    /// From a code to its value and back, the code is as it was.
    pub proof fn lemma_code_round_trip(code: u8)
        ensures
            IpProtocol::of_code(code).code() == code,
            IpProtocol::of_code(code).canonical(),
    {
    }
}

} // verus!
