//! Link-layer addresses of six bytes.

use super::address::{decode_address, Address};
use super::endian::{
    be_bytes, be_value, lemma_be_bytes_len, lemma_be_bytes_of_value, lemma_be_value_bound,
    lemma_be_value_of_bytes, lemma_radix_values, radix, read_be, write_be,
};
use super::serialise::{copy_bytes, DeserialiseError, Fault, Serialise};
use super::text::{
    append_hex, hex, hex_digit, hex_digit_value, hex_value, lemma_hex_byte,
    lemma_hex_value_of_digit,
};
use vstd::prelude::*;
use vstd::std_specs::cmp::PartialEqSpecImpl;
use vstd::std_specs::convert::FromSpecImpl;

verus! {

/// A link-layer address. Its view is its six bytes.
#[derive(Eq, Clone, Copy, Debug)]
pub struct MacAddress {
    bytes: [u8; 6],
}

impl View for MacAddress {
    type V = Seq<u8>;

    closed spec fn view(&self) -> Seq<u8> {
        self.bytes@
    }
}

impl PartialEq for MacAddress {
    fn eq(&self, other: &MacAddress) -> (equal: bool) {
        let mut i: usize = 0;
        while i < 6
            invariant
                i <= 6,
                forall|j: int| 0 <= j < i ==> self.bytes@[j] == other.bytes@[j],
            decreases 6 - i,
        {
            if self.bytes[i] != other.bytes[i] {
                return false;
            }
            i += 1;
        }
        assert(self.bytes@ =~= other.bytes@);
        true
    }
}

impl PartialEqSpecImpl for MacAddress {
    open spec fn obeys_eq_spec() -> bool {
        true
    }

    open spec fn eq_spec(&self, other: &MacAddress) -> bool {
        self@ == other@
    }
}

impl Default for MacAddress {
    fn default() -> (addr: MacAddress)
        ensures
            addr@ == Seq::new(6, |i: int| 0u8),
    {
        let addr = MacAddress { bytes: [0u8; 6] };
        assert(addr@ =~= Seq::new(6, |i: int| 0u8));
        addr
    }
}

/// The octet that two hexadecimal digits of `text` write, from `at` on.
pub open spec fn octet_at(text: Seq<char>, at: int) -> Option<u8> {
    match (hex_value(text[at]), hex_value(text[at + 1])) {
        (Some(high), Some(low)) => Some((high * 16 + low) as u8),
        _ => None,
    }
}

/// Whether `text` writes a link-layer address: six octets of two
/// hexadecimal digits each, with a colon between one and the next.
pub open spec fn is_mac_text(text: Seq<char>) -> bool {
    &&& text.len() == 17
    &&& forall|k: int| 0 <= k < 6 ==> (#[trigger] octet_at(text, 3 * k)) is Some
    &&& forall|k: int| 1 <= k < 6 ==> #[trigger] text[3 * k - 1] == ':'
}

/// The address that `text` writes, if it writes one.
pub open spec fn parse_mac(text: Seq<char>) -> Option<Seq<u8>> {
    if is_mac_text(text) {
        Some(Seq::new(6, |k: int| octet_at(text, 3 * k)->0))
    } else {
        None
    }
}

/// The text of a link-layer address: its octets in two lower-case
/// hexadecimal digits each, with colons between them.
pub open spec fn mac_text(bytes: Seq<u8>) -> Seq<char> {
    hex(bytes[0] as int, 2) + seq![':'] + hex(bytes[1] as int, 2) + seq![':'] + hex(
        bytes[2] as int,
        2,
    ) + seq![':'] + hex(bytes[3] as int, 2) + seq![':'] + hex(bytes[4] as int, 2) + seq![':']
        + hex(bytes[5] as int, 2)
}

/// The text of an address is read back as the address.
pub proof fn lemma_mac_text_round_trip(bytes: Seq<u8>)
    requires
        bytes.len() == 6,
    ensures
        is_mac_text(mac_text(bytes)),
        parse_mac(mac_text(bytes)) == Some(bytes),
{
    let text = mac_text(bytes);
    assert forall|k: int| 0 <= k < 6 implies hex(bytes[k] as int, 2) == seq![
        hex_digit(bytes[k] as int / 16),
        hex_digit(bytes[k] as int % 16),
    ] by {
        lemma_hex_byte(bytes[k]);
    }
    assert(text.len() == 17);
    assert forall|k: int| 0 <= k < 6 implies text[3 * k] == hex_digit(bytes[k] as int / 16)
        && text[3 * k + 1] == hex_digit(bytes[k] as int % 16) by {}
    assert forall|k: int| 0 <= k < 6 implies #[trigger] octet_at(text, 3 * k) == Some(
        bytes[k],
    ) by {
        lemma_hex_value_of_digit(bytes[k] as int / 16);
        lemma_hex_value_of_digit(bytes[k] as int % 16);
    }
    assert forall|k: int| 1 <= k < 6 implies #[trigger] text[3 * k - 1] == ':' by {}
    assert(parse_mac(text)->0 =~= bytes);
}

impl MacAddress {
    /// The bytes of the link-layer address that a buffer holds at its front.
    pub open spec fn decode(buf: Seq<u8>) -> Result<Seq<u8>, Fault> {
        decode_address("MacAddress"@, 6, buf)
    }

    /// The address whose bytes are the six low bytes of `value`, the most
    /// significant of them first.
    pub closed spec fn of_number(value: nat) -> MacAddress {
        choose|addr: MacAddress| addr@ == be_bytes(value, 6)
    }

    /// Reads an address from its text: six octets of two hexadecimal digits
    /// each, with a colon between one and the next.
    pub fn from_hex(s: &str) -> (r: Option<MacAddress>)
        ensures
            match r {
                Some(addr) => parse_mac(s@) == Some(addr@),
                None => parse_mac(s@) is None,
            },
    {
        if s.unicode_len() != 17 {
            return None;
        }
        let mut bytes = [0u8; 6];
        let mut i: usize = 0;
        while i < 6
            invariant
                i <= 6,
                s@.len() == 17,
                forall|k: int| 0 <= k < i ==> (#[trigger] octet_at(s@, 3 * k)) == Some(bytes@[k]),
                forall|k: int| 1 <= k < i ==> #[trigger] s@[3 * k - 1] == ':',
            decreases 6 - i,
        {
            if i > 0 && s.get_char(3 * i - 1) != ':' {
                assert(s@[3 * (i as int) - 1] != ':');
                return None;
            }
            let high = hex_digit_value(s.get_char(3 * i));
            let low = hex_digit_value(s.get_char(3 * i + 1));
            match (high, low) {
                (Some(h), Some(l)) => {
                    bytes[i] = h * 16 + l;
                },
                _ => {
                    assert(octet_at(s@, 3 * (i as int)) is None);
                    return None;
                },
            }
            i += 1;
        }
        let addr = MacAddress { bytes };
        assert(addr@ =~= Seq::new(6, |k: int| octet_at(s@, 3 * k)->0));
        Some(addr)
    }

    /// The address as text: its octets in two lower-case hexadecimal digits
    /// each, with colons between them.
    pub fn to_string(&self) -> (s: String)
        ensures
            s@ == mac_text(self@),
    {
        let mut s = String::new();
        proof {
            reveal_strlit(":");
        }
        append_hex(&mut s, self.bytes[0] as u32, 2);
        s.append(":");
        append_hex(&mut s, self.bytes[1] as u32, 2);
        s.append(":");
        append_hex(&mut s, self.bytes[2] as u32, 2);
        s.append(":");
        append_hex(&mut s, self.bytes[3] as u32, 2);
        s.append(":");
        append_hex(&mut s, self.bytes[4] as u32, 2);
        s.append(":");
        append_hex(&mut s, self.bytes[5] as u32, 2);
        assert(":"@ =~= seq![':']);
        assert(s@ =~= mac_text(self@));
        s
    }
}

impl Serialise for MacAddress {
    open spec fn encoding(v: Seq<u8>) -> Seq<u8> {
        v
    }

    open spec fn decoding(buf: Seq<u8>) -> Result<Seq<u8>, Fault> {
        MacAddress::decode(buf)
    }

    fn byte_length(&self) -> (n: usize)
        ensures
            n == 6,
    {
        proof {
            self.lemma_len();
        }
        6
    }

    fn serialise(&self, buf: &mut [u8]) -> (n: usize)
        ensures
            n == 6,
    {
        copy_bytes(self.bytes.as_slice(), buf)
    }

    fn deserialise(buf: &[u8]) -> (r: Result<MacAddress, DeserialiseError>) {
        if buf.len() < 6 {
            Err(DeserialiseError::BufferTooSmall("MacAddress", 6, buf.len()))
        } else {
            let mut bytes = [0u8; 6];
            let mut i: usize = 0;
            while i < 6
                invariant
                    i <= 6 <= buf@.len(),
                    forall|j: int| 0 <= j < i ==> bytes@[j] == buf@[j],
                decreases 6 - i,
            {
                bytes[i] = buf[i];
                i += 1;
            }
            let addr = MacAddress { bytes };
            assert(addr@ =~= buf@.take(6));
            Ok(addr)
        }
    }
}

impl Address for MacAddress {
    const BYTE_LENGTH: usize = 6;

    fn bytes(&self) -> (b: &[u8]) {
        self.bytes.as_slice()
    }
}

impl From<[u8; 6]> for MacAddress {
    fn from(value: [u8; 6]) -> (addr: MacAddress)
        ensures
            addr@ == value@,
    {
        MacAddress { bytes: value }
    }
}

impl FromSpecImpl<[u8; 6]> for MacAddress {
    open spec fn obeys_from_spec() -> bool {
        true
    }

    closed spec fn from_spec(value: [u8; 6]) -> MacAddress {
        MacAddress { bytes: value }
    }
}

impl From<MacAddress> for [u8; 6] {
    fn from(value: MacAddress) -> (bytes: [u8; 6])
        ensures
            bytes@ == value@,
    {
        value.bytes
    }
}

impl FromSpecImpl<MacAddress> for [u8; 6] {
    open spec fn obeys_from_spec() -> bool {
        true
    }

    closed spec fn from_spec(value: MacAddress) -> [u8; 6] {
        value.bytes
    }
}

impl From<u64> for MacAddress {
    /// The address whose bytes are the six low bytes of `value`, the most
    /// significant of them first.
    fn from(value: u64) -> (addr: MacAddress)
        ensures
            addr@ == be_bytes(value as nat, 6),
    {
        let mut bytes = [0u8; 6];
        write_be(&mut bytes, value as u128, 6);
        let addr = MacAddress { bytes };
        proof {
            lemma_be_bytes_len(value as nat, 6);
            assert(addr@ =~= be_bytes(value as nat, 6));
            let spec_addr = MacAddress::of_number(value as nat);
            assert(spec_addr.bytes =~= addr.bytes);
        }
        addr
    }
}

impl FromSpecImpl<u64> for MacAddress {
    open spec fn obeys_from_spec() -> bool {
        true
    }

    open spec fn from_spec(value: u64) -> MacAddress {
        MacAddress::of_number(value as nat)
    }
}

impl From<MacAddress> for u64 {
    /// The number that the six bytes of the address stand for.
    fn from(value: MacAddress) -> (number: u64)
        ensures
            number == be_value(value@),
    {
        proof {
            lemma_be_value_bound(value@);
            lemma_radix_values();
            assert(value@.take(6) =~= value@);
        }
        read_be(value.bytes.as_slice(), 6) as u64
    }
}

impl FromSpecImpl<MacAddress> for u64 {
    open spec fn obeys_from_spec() -> bool {
        true
    }

    open spec fn from_spec(value: MacAddress) -> u64 {
        be_value(value@) as u64
    }
}

impl MacAddress {
    /// Every link-layer address has six bytes.
    pub proof fn lemma_len(self)
        ensures
            self@.len() == 6,
    {
    }

    /// An address that is serialised and deserialised, whatever follows it
    /// in the buffer, is as it was.
    pub proof fn lemma_round_trip(self, rest: Seq<u8>)
        ensures
            MacAddress::decoding(MacAddress::encoding(self@) + rest) == Ok::<Seq<u8>, Fault>(self@),
    {
        self.lemma_len();
        assert((self@ + rest).take(6) =~= self@);
    }

    /// An address that is turned into a number and back is as it was, and
    /// a number that is turned into an address and back is as it was, as
    /// far as the bytes of an address hold it.
    pub proof fn lemma_number_round_trip(self, number: u64)
        ensures
            MacAddress::of_number(be_value(self@))@ == self@,
            MacAddress::of_number(number as nat)@ == be_bytes(number as nat, 6),
            be_value(be_bytes(number as nat, 6)) == number as nat % radix(6),
    {
        self.lemma_len();
        lemma_be_bytes_of_value(self@);
        lemma_be_value_of_bytes(number as nat, 6);
        MacAddress::lemma_of_number(number as nat);
        MacAddress::lemma_of_number(be_value(self@));
    }

    /// The address of a number has the low bytes of the number.
    proof fn lemma_of_number(value: nat)
        ensures
            MacAddress::of_number(value)@ == be_bytes(value, 6),
    {
        lemma_be_bytes_len(value, 6);
        let bytes = be_bytes(value, 6);
        let witness = MacAddress { bytes: MacAddress::array_of(bytes) };
        assert(witness@ =~= bytes);
    }

    /// The array that holds the first bytes of `bytes`.
    spec fn array_of(bytes: Seq<u8>) -> [u8; 6] {
        [bytes[0], bytes[1], bytes[2], bytes[3], bytes[4], bytes[5]]
    }
}

} // verus!
