//! Network-layer addresses: IPv4 of four bytes, IPv6 of sixteen.

use super::address::{decode_address, Address};
use super::endian::{
    be_bytes, be_value, lemma_be_bytes_len, lemma_be_bytes_of_value, lemma_be_value_bound,
    lemma_be_value_of_bytes, lemma_radix_values, radix, read_be, write_be,
};
use super::serialise::{copy_bytes, DeserialiseError, Fault, Serialise};
use super::text::{append_decimal, append_hex, decimal, hex};
use vstd::prelude::*;
use vstd::std_specs::cmp::PartialEqSpecImpl;
use vstd::std_specs::convert::FromSpecImpl;

verus! {

/// An IPv4 address. Its view is its four bytes.
#[derive(Eq, Clone, Copy, Debug)]
pub struct Ipv4Address {
    bytes: [u8; 4],
}

impl View for Ipv4Address {
    type V = Seq<u8>;

    closed spec fn view(&self) -> Seq<u8> {
        self.bytes@
    }
}

impl PartialEq for Ipv4Address {
    fn eq(&self, other: &Ipv4Address) -> (equal: bool) {
        let mut i: usize = 0;
        while i < 4
            invariant
                i <= 4,
                forall|j: int| 0 <= j < i ==> self.bytes@[j] == other.bytes@[j],
            decreases 4 - i,
        {
            if self.bytes[i] != other.bytes[i] {
                return false;
            }
            i += 1;
        }
        assert(self.bytes@ =~= other.bytes@);
        true
    }
}

impl PartialEqSpecImpl for Ipv4Address {
    open spec fn obeys_eq_spec() -> bool {
        true
    }

    open spec fn eq_spec(&self, other: &Ipv4Address) -> bool {
        self@ == other@
    }
}

impl Default for Ipv4Address {
    fn default() -> (addr: Ipv4Address)
        ensures
            addr@ == Seq::new(4, |i: int| 0u8),
    {
        let addr = Ipv4Address { bytes: [0u8; 4] };
        assert(addr@ =~= Seq::new(4, |i: int| 0u8));
        addr
    }
}

impl Serialise for Ipv4Address {
    open spec fn encoding(v: Seq<u8>) -> Seq<u8> {
        v
    }

    open spec fn decoding(buf: Seq<u8>) -> Result<Seq<u8>, Fault> {
        Ipv4Address::decode(buf)
    }

    fn byte_length(&self) -> (n: usize)
        ensures
            n == 4,
    {
        proof {
            self.lemma_len();
        }
        4
    }

    fn serialise(&self, buf: &mut [u8]) -> (n: usize)
        ensures
            n == 4,
    {
        copy_bytes(self.bytes.as_slice(), buf)
    }

    fn deserialise(buf: &[u8]) -> (r: Result<Ipv4Address, DeserialiseError>) {
        if buf.len() < 4 {
            Err(DeserialiseError::BufferTooSmall("Ipv4Address", 4, buf.len()))
        } else {
            let mut bytes = [0u8; 4];
            let mut i: usize = 0;
            while i < 4
                invariant
                    i <= 4 <= buf@.len(),
                    forall|j: int| 0 <= j < i ==> bytes@[j] == buf@[j],
                decreases 4 - i,
            {
                bytes[i] = buf[i];
                i += 1;
            }
            let addr = Ipv4Address { bytes };
            assert(addr@ =~= buf@.take(4));
            Ok(addr)
        }
    }
}

impl Address for Ipv4Address {
    const BYTE_LENGTH: usize = 4;

    fn bytes(&self) -> (b: &[u8]) {
        self.bytes.as_slice()
    }
}

impl From<[u8; 4]> for Ipv4Address {
    fn from(value: [u8; 4]) -> (addr: Ipv4Address)
        ensures
            addr@ == value@,
    {
        Ipv4Address { bytes: value }
    }
}

impl FromSpecImpl<[u8; 4]> for Ipv4Address {
    open spec fn obeys_from_spec() -> bool {
        true
    }

    closed spec fn from_spec(value: [u8; 4]) -> Ipv4Address {
        Ipv4Address { bytes: value }
    }
}

impl From<Ipv4Address> for [u8; 4] {
    fn from(value: Ipv4Address) -> (bytes: [u8; 4])
        ensures
            bytes@ == value@,
    {
        value.bytes
    }
}

impl FromSpecImpl<Ipv4Address> for [u8; 4] {
    open spec fn obeys_from_spec() -> bool {
        true
    }

    closed spec fn from_spec(value: Ipv4Address) -> [u8; 4] {
        value.bytes
    }
}

impl From<u32> for Ipv4Address {
    /// The address whose bytes are the bytes of `value`, the most
    /// significant of them first.
    fn from(value: u32) -> (addr: Ipv4Address)
        ensures
            addr@ == be_bytes(value as nat, 4),
    {
        let mut bytes = [0u8; 4];
        write_be(&mut bytes, value as u128, 4);
        let addr = Ipv4Address { bytes };
        proof {
            lemma_be_bytes_len(value as nat, 4);
            assert(addr@ =~= be_bytes(value as nat, 4));
            let spec_addr = Ipv4Address::of_number(value as nat);
            assert(spec_addr.bytes =~= addr.bytes);
        }
        addr
    }
}

impl FromSpecImpl<u32> for Ipv4Address {
    open spec fn obeys_from_spec() -> bool {
        true
    }

    open spec fn from_spec(value: u32) -> Ipv4Address {
        Ipv4Address::of_number(value as nat)
    }
}

impl From<Ipv4Address> for u32 {
    /// The number that the bytes of the address stand for.
    fn from(value: Ipv4Address) -> (number: u32)
        ensures
            number == be_value(value@),
    {
        proof {
            lemma_be_value_bound(value@);
            lemma_radix_values();
            assert(value@.take(4) =~= value@);
        }
        read_be(value.bytes.as_slice(), 4) as u32
    }
}

impl FromSpecImpl<Ipv4Address> for u32 {
    open spec fn obeys_from_spec() -> bool {
        true
    }

    open spec fn from_spec(value: Ipv4Address) -> u32 {
        be_value(value@) as u32
    }
}

/// The text of an IPv4 address: its four bytes in decimal, with dots
/// between them.
pub open spec fn ipv4_text(bytes: Seq<u8>) -> Seq<char> {
    decimal(bytes[0] as int) + seq!['.'] + decimal(bytes[1] as int) + seq!['.'] + decimal(
        bytes[2] as int,
    ) + seq!['.'] + decimal(bytes[3] as int)
}

impl Ipv4Address {
    /// The bytes of the IPv4 address that a buffer holds at its front.
    pub open spec fn decode(buf: Seq<u8>) -> Result<Seq<u8>, Fault> {
        decode_address("Ipv4Address"@, 4, buf)
    }

    /// The address whose bytes are the four low bytes of `value`, the most
    /// significant of them first.
    pub closed spec fn of_number(value: nat) -> Ipv4Address {
        choose|addr: Ipv4Address| addr@ == be_bytes(value, 4)
    }

    /// The address in dotted decimal.
    pub fn to_string(&self) -> (s: String)
        ensures
            s@ == ipv4_text(self@),
    {
        let mut s = String::new();
        proof {
            reveal_strlit(".");
        }
        append_decimal(&mut s, self.bytes[0] as u128);
        s.append(".");
        append_decimal(&mut s, self.bytes[1] as u128);
        s.append(".");
        append_decimal(&mut s, self.bytes[2] as u128);
        s.append(".");
        append_decimal(&mut s, self.bytes[3] as u128);
        assert("."@ =~= seq!['.']);
        assert(s@ =~= ipv4_text(self@));
        s
    }
}

/// An IPv6 address. Its view is its sixteen bytes.
#[derive(Eq, Clone, Copy, Debug)]
pub struct Ipv6Address {
    bytes: [u8; 16],
}

impl View for Ipv6Address {
    type V = Seq<u8>;

    closed spec fn view(&self) -> Seq<u8> {
        self.bytes@
    }
}

impl PartialEq for Ipv6Address {
    fn eq(&self, other: &Ipv6Address) -> (equal: bool) {
        let mut i: usize = 0;
        while i < 16
            invariant
                i <= 16,
                forall|j: int| 0 <= j < i ==> self.bytes@[j] == other.bytes@[j],
            decreases 16 - i,
        {
            if self.bytes[i] != other.bytes[i] {
                return false;
            }
            i += 1;
        }
        assert(self.bytes@ =~= other.bytes@);
        true
    }
}

impl PartialEqSpecImpl for Ipv6Address {
    open spec fn obeys_eq_spec() -> bool {
        true
    }

    open spec fn eq_spec(&self, other: &Ipv6Address) -> bool {
        self@ == other@
    }
}

impl Default for Ipv6Address {
    fn default() -> (addr: Ipv6Address)
        ensures
            addr@ == Seq::new(16, |i: int| 0u8),
    {
        let addr = Ipv6Address { bytes: [0u8; 16] };
        assert(addr@ =~= Seq::new(16, |i: int| 0u8));
        addr
    }
}

impl Serialise for Ipv6Address {
    open spec fn encoding(v: Seq<u8>) -> Seq<u8> {
        v
    }

    open spec fn decoding(buf: Seq<u8>) -> Result<Seq<u8>, Fault> {
        Ipv6Address::decode(buf)
    }

    fn byte_length(&self) -> (n: usize)
        ensures
            n == 16,
    {
        proof {
            self.lemma_len();
        }
        16
    }

    fn serialise(&self, buf: &mut [u8]) -> (n: usize)
        ensures
            n == 16,
    {
        copy_bytes(self.bytes.as_slice(), buf)
    }

    fn deserialise(buf: &[u8]) -> (r: Result<Ipv6Address, DeserialiseError>) {
        if buf.len() < 16 {
            Err(DeserialiseError::BufferTooSmall("Ipv6Address", 16, buf.len()))
        } else {
            let mut bytes = [0u8; 16];
            let mut i: usize = 0;
            while i < 16
                invariant
                    i <= 16 <= buf@.len(),
                    forall|j: int| 0 <= j < i ==> bytes@[j] == buf@[j],
                decreases 16 - i,
            {
                bytes[i] = buf[i];
                i += 1;
            }
            let addr = Ipv6Address { bytes };
            assert(addr@ =~= buf@.take(16));
            Ok(addr)
        }
    }
}

impl Address for Ipv6Address {
    const BYTE_LENGTH: usize = 16;

    fn bytes(&self) -> (b: &[u8]) {
        self.bytes.as_slice()
    }
}

impl From<[u8; 16]> for Ipv6Address {
    fn from(value: [u8; 16]) -> (addr: Ipv6Address)
        ensures
            addr@ == value@,
    {
        Ipv6Address { bytes: value }
    }
}

impl FromSpecImpl<[u8; 16]> for Ipv6Address {
    open spec fn obeys_from_spec() -> bool {
        true
    }

    closed spec fn from_spec(value: [u8; 16]) -> Ipv6Address {
        Ipv6Address { bytes: value }
    }
}

impl From<Ipv6Address> for [u8; 16] {
    fn from(value: Ipv6Address) -> (bytes: [u8; 16])
        ensures
            bytes@ == value@,
    {
        value.bytes
    }
}

impl FromSpecImpl<Ipv6Address> for [u8; 16] {
    open spec fn obeys_from_spec() -> bool {
        true
    }

    closed spec fn from_spec(value: Ipv6Address) -> [u8; 16] {
        value.bytes
    }
}

impl From<u128> for Ipv6Address {
    /// The address whose bytes are the bytes of `value`, the most
    /// significant of them first.
    fn from(value: u128) -> (addr: Ipv6Address)
        ensures
            addr@ == be_bytes(value as nat, 16),
    {
        let mut bytes = [0u8; 16];
        write_be(&mut bytes, value, 16);
        let addr = Ipv6Address { bytes };
        proof {
            lemma_be_bytes_len(value as nat, 16);
            assert(addr@ =~= be_bytes(value as nat, 16));
            let spec_addr = Ipv6Address::of_number(value as nat);
            assert(spec_addr.bytes =~= addr.bytes);
        }
        addr
    }
}

impl FromSpecImpl<u128> for Ipv6Address {
    open spec fn obeys_from_spec() -> bool {
        true
    }

    open spec fn from_spec(value: u128) -> Ipv6Address {
        Ipv6Address::of_number(value as nat)
    }
}

impl From<Ipv6Address> for u128 {
    /// The number that the bytes of the address stand for.
    fn from(value: Ipv6Address) -> (number: u128)
        ensures
            number == be_value(value@),
    {
        proof {
            lemma_be_value_bound(value@);
            lemma_radix_values();
            assert(value@.take(16) =~= value@);
        }
        read_be(value.bytes.as_slice(), 16)
    }
}

impl FromSpecImpl<Ipv6Address> for u128 {
    open spec fn obeys_from_spec() -> bool {
        true
    }

    open spec fn from_spec(value: Ipv6Address) -> u128 {
        be_value(value@) as u128
    }
}

/// The group of four hexadecimal digits that two bytes of an IPv6 address
/// make, from `at` on.
pub open spec fn group_text(bytes: Seq<u8>, at: int) -> Seq<char> {
    hex(bytes[at] as int, 2) + hex(bytes[at + 1] as int, 2)
}

/// The first `groups` groups of an IPv6 address, with colons between them.
pub open spec fn groups_text(bytes: Seq<u8>, groups: nat) -> Seq<char>
    decreases groups,
{
    if groups == 0 {
        Seq::empty()
    } else if groups == 1 {
        group_text(bytes, 0)
    } else {
        groups_text(bytes, (groups - 1) as nat) + seq![':'] + group_text(bytes, 2 * groups - 2)
    }
}

/// The text of an IPv6 address: eight groups of four hexadecimal digits,
/// with colons between them and nothing left out.
pub open spec fn ipv6_text(bytes: Seq<u8>) -> Seq<char> {
    groups_text(bytes, 8)
}

impl Ipv6Address {
    /// The bytes of the IPv6 address that a buffer holds at its front.
    pub open spec fn decode(buf: Seq<u8>) -> Result<Seq<u8>, Fault> {
        decode_address("Ipv6Address"@, 16, buf)
    }

    /// The address whose bytes are the sixteen bytes of `value`, the most
    /// significant of them first.
    pub closed spec fn of_number(value: nat) -> Ipv6Address {
        choose|addr: Ipv6Address| addr@ == be_bytes(value, 16)
    }

    /// The address as eight groups of four hexadecimal digits.
    pub fn to_string(&self) -> (s: String)
        ensures
            s@ == ipv6_text(self@),
    {
        let mut s = String::new();
        proof {
            reveal_strlit(":");
        }
        let mut group: usize = 0;
        while group < 8
            invariant
                group <= 8,
                ":"@ == seq![':'],
                s@ == groups_text(self@, group as nat),
            decreases 8 - group,
        {
            let ghost before = s@;
            if group > 0 {
                s.append(":");
            }
            append_hex(&mut s, self.bytes[2 * group] as u32, 2);
            append_hex(&mut s, self.bytes[2 * group + 1] as u32, 2);
            proof {
                assert(s@ =~= groups_text(self@, (group + 1) as nat));
            }
            group += 1;
        }
        s
    }
}

impl Ipv4Address {
    /// Every IPv4 address has four bytes.
    pub proof fn lemma_len(self)
        ensures
            self@.len() == 4,
    {
    }

    /// An address that is serialised and deserialised, whatever follows it
    /// in the buffer, is as it was.
    pub proof fn lemma_round_trip(self, rest: Seq<u8>)
        ensures
            Ipv4Address::decoding(Ipv4Address::encoding(self@) + rest) == Ok::<Seq<u8>, Fault>(
                self@,
            ),
    {
        self.lemma_len();
        assert((self@ + rest).take(4) =~= self@);
    }

    /// An address that is turned into a number and back is as it was, and
    /// a number that is turned into an address and back is as it was, as
    /// far as the bytes of an address hold it.
    pub proof fn lemma_number_round_trip(self, number: u32)
        ensures
            Ipv4Address::of_number(be_value(self@))@ == self@,
            Ipv4Address::of_number(number as nat)@ == be_bytes(number as nat, 4),
            be_value(be_bytes(number as nat, 4)) == number as nat % radix(4),
    {
        self.lemma_len();
        lemma_be_bytes_of_value(self@);
        lemma_be_value_of_bytes(number as nat, 4);
        Ipv4Address::lemma_of_number(number as nat);
        Ipv4Address::lemma_of_number(be_value(self@));
    }

    /// The address of a number has the low bytes of the number.
    proof fn lemma_of_number(value: nat)
        ensures
            Ipv4Address::of_number(value)@ == be_bytes(value, 4),
    {
        lemma_be_bytes_len(value, 4);
        let bytes = be_bytes(value, 4);
        let witness = Ipv4Address { bytes: Ipv4Address::array_of(bytes) };
        assert(witness@ =~= bytes);
    }

    /// The array that holds the first bytes of `bytes`.
    spec fn array_of(bytes: Seq<u8>) -> [u8; 4] {
        [bytes[0], bytes[1], bytes[2], bytes[3]]
    }
}

impl Ipv6Address {
    /// Every IPv6 address has sixteen bytes.
    pub proof fn lemma_len(self)
        ensures
            self@.len() == 16,
    {
    }

    /// An address that is serialised and deserialised, whatever follows it
    /// in the buffer, is as it was.
    pub proof fn lemma_round_trip(self, rest: Seq<u8>)
        ensures
            Ipv6Address::decoding(Ipv6Address::encoding(self@) + rest) == Ok::<Seq<u8>, Fault>(
                self@,
            ),
    {
        self.lemma_len();
        assert((self@ + rest).take(16) =~= self@);
    }

    /// An address that is turned into a number and back is as it was, and
    /// a number that is turned into an address and back is as it was, as
    /// far as the bytes of an address hold it.
    pub proof fn lemma_number_round_trip(self, number: u128)
        ensures
            Ipv6Address::of_number(be_value(self@))@ == self@,
            Ipv6Address::of_number(number as nat)@ == be_bytes(number as nat, 16),
            be_value(be_bytes(number as nat, 16)) == number as nat % radix(16),
    {
        self.lemma_len();
        lemma_be_bytes_of_value(self@);
        lemma_be_value_of_bytes(number as nat, 16);
        Ipv6Address::lemma_of_number(number as nat);
        Ipv6Address::lemma_of_number(be_value(self@));
    }

    /// The address of a number has the low bytes of the number.
    proof fn lemma_of_number(value: nat)
        ensures
            Ipv6Address::of_number(value)@ == be_bytes(value, 16),
    {
        lemma_be_bytes_len(value, 16);
        let bytes = be_bytes(value, 16);
        let witness = Ipv6Address { bytes: Ipv6Address::array_of(bytes) };
        assert(witness@ =~= bytes);
    }

    /// The array that holds the first bytes of `bytes`.
    spec fn array_of(bytes: Seq<u8>) -> [u8; 16] {
        [
            bytes[0], bytes[1], bytes[2], bytes[3], bytes[4], bytes[5], bytes[6], bytes[7],
            bytes[8], bytes[9], bytes[10], bytes[11], bytes[12], bytes[13], bytes[14], bytes[15],
        ]
    }
}

} // verus!
