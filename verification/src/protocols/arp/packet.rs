//! The ARP packet.

use super::enums::{HardwareAddress, Htype, Operation, ProtocolAddress};
use crate::common::endian::{be_bytes, lemma_be_bytes_len, lemma_radix_values};
use crate::common::pdu::Pdu;
use crate::common::serialise::{
    decode_u8, lemma_uint_decoded, lemma_uint_round_trip, serialise_field, tail, tail_of,
    DeserialiseError, Fault, Serialise,
};
use crate::common::text::{append_decimal, decimal};
use crate::protocols::ethernet::EtherType;
use vstd::prelude::*;

verus! {

/// The fields of an ARP packet. An address is its type code and its bytes.
pub struct PacketView {
    pub htype: Htype,
    pub ptype: EtherType,
    pub hlen: u8,
    pub plen: u8,
    pub operation: Operation,
    pub sha: (Htype, Seq<u8>),
    pub spa: (EtherType, Seq<u8>),
    pub tha: (Htype, Seq<u8>),
    pub tpa: (EtherType, Seq<u8>),
}

/// The first five fields of an ARP packet: the two type codes, the two
/// lengths and the operation.
pub struct PacketHead {
    pub htype: Htype,
    pub ptype: EtherType,
    pub hlen: u8,
    pub plen: u8,
    pub operation: Operation,
}

/// The fault of an operation code that is neither request nor response.
pub open spec fn unknown_operation_fault(code: u16) -> Fault {
    Fault::Heap("unknown operation: "@ + decimal(code as int))
}

/// The fault of a length field that is not the length of the addresses of
/// the packet's type.
pub open spec fn address_length_fault() -> Fault {
    Fault::Static("address length disagrees with the address type"@)
}

impl PacketView {
    /// The packet that `request` and `response` make of an operation and
    /// four addresses: types and lengths are those of the sender's
    /// addresses.
    pub open spec fn of(
        operation: Operation,
        sha: (Htype, Seq<u8>),
        spa: (EtherType, Seq<u8>),
        tha: (Htype, Seq<u8>),
        tpa: (EtherType, Seq<u8>),
    ) -> PacketView {
        PacketView {
            htype: sha.0,
            ptype: spa.0,
            hlen: sha.1.len() as u8,
            plen: spa.1.len() as u8,
            operation,
            sha,
            spa,
            tha,
            tpa,
        }
    }

    /// The operation is a request or a response; sender and target
    /// addresses are of one family, that of the packet's type codes; and
    /// the length fields give the lengths of the addresses.
    pub open spec fn valid(self) -> bool {
        &&& self.operation == Operation::Request || self.operation == Operation::Response
        &&& HardwareAddress::valid(self.sha)
        &&& HardwareAddress::valid(self.tha)
        &&& ProtocolAddress::valid(self.spa)
        &&& ProtocolAddress::valid(self.tpa)
        &&& self.sha.0 == self.htype
        &&& self.tha.0 == self.htype
        &&& self.spa.0 == self.ptype
        &&& self.tpa.0 == self.ptype
        &&& self.hlen == self.sha.1.len()
        &&& self.plen == self.spa.1.len()
    }

    /// The first five fields that the front of a buffer holds.
    pub open spec fn decode_head(buf: Seq<u8>) -> Result<PacketHead, Fault> {
        match Htype::decode(buf) {
            Err(e) => Err(e),
            Ok(htype) => match EtherType::decode(tail(buf, 2)) {
                Err(e) => Err(e),
                Ok(ptype) => match decode_u8(tail(buf, 4)) {
                    Err(e) => Err(e),
                    Ok(hlen) => match decode_u8(tail(buf, 5)) {
                        Err(e) => Err(e),
                        Ok(plen) => match Operation::decode(tail(buf, 6)) {
                            Err(e) => Err(e),
                            Ok(operation) => match operation {
                                Operation::Unknown(code) => Err(unknown_operation_fault(code)),
                                _ => Ok(PacketHead { htype, ptype, hlen, plen, operation }),
                            },
                        },
                    },
                },
            },
        }
    }

    /// The packet that a buffer holds, given its first five fields: the
    /// sender's addresses from byte 8 on, the target's after them.
    pub open spec fn decode_addresses(head: PacketHead, buf: Seq<u8>) -> Result<PacketView, Fault> {
        match HardwareAddress::decode(head.htype, tail(buf, 8)) {
            Err(e) => Err(e),
            Ok(sha) => match ProtocolAddress::decode(
                head.ptype,
                tail(buf, 8 + sha.1.len() as int),
            ) {
                Err(e) => Err(e),
                Ok(spa) => if head.hlen != sha.1.len() || head.plen != spa.1.len() {
                    Err(address_length_fault())
                } else {
                    match HardwareAddress::decode(
                        head.htype,
                        tail(buf, 8 + head.hlen + head.plen),
                    ) {
                        Err(e) => Err(e),
                        Ok(tha) => match ProtocolAddress::decode(
                            head.ptype,
                            tail(buf, 8 + head.hlen + head.plen + sha.1.len()),
                        ) {
                            Err(e) => Err(e),
                            Ok(tpa) => Ok(
                                PacketView {
                                    htype: head.htype,
                                    ptype: head.ptype,
                                    hlen: head.hlen,
                                    plen: head.plen,
                                    operation: head.operation,
                                    sha,
                                    spa,
                                    tha,
                                    tpa,
                                },
                            ),
                        },
                    }
                },
            },
        }
    }

    /// The packet that a buffer holds at its front, or what is wrong with
    /// the buffer.
    pub open spec fn decode(buf: Seq<u8>) -> Result<PacketView, Fault> {
        match PacketView::decode_head(buf) {
            Err(e) => Err(e),
            Ok(head) => PacketView::decode_addresses(head, buf),
        }
    }

    /// The packet on the wire: the two type codes, the two lengths, the
    /// operation, then the sender's two addresses and the target's.
    pub open spec fn wire(self) -> Seq<u8> {
        self.htype.wire() + self.ptype.wire() + be_bytes(self.hlen as nat, 1) + be_bytes(
            self.plen as nat,
            1,
        ) + self.operation.wire() + self.sha.1 + self.spa.1 + self.tha.1 + self.tpa.1
    }

    /// The text of a packet.
    pub open spec fn text(self) -> Seq<char> {
        "ARP "@ + self.operation.text() + " (Hardware: "@ + self.htype.text() + ", Protocol: "@
            + self.ptype.text() + ") - SHA: "@ + HardwareAddress::text(self.sha) + ", SPA: "@
            + ProtocolAddress::text(self.spa) + ", THA: "@ + HardwareAddress::text(self.tha)
            + ", TPA: "@ + ProtocolAddress::text(self.tpa)
    }
}

/// The length of a valid packet on the wire: eight bytes, then two hardware
/// and two protocol addresses.
pub proof fn lemma_encoding_len(v: PacketView)
    requires
        v.valid(),
    ensures
        v.htype.wire().len() == 2,
        v.ptype.wire().len() == 2,
        be_bytes(v.hlen as nat, 1).len() == 1,
        be_bytes(v.plen as nat, 1).len() == 1,
        v.operation.wire().len() == 2,
        v.wire().len() == 8 + 2 * v.hlen + 2 * v.plen,
        v.hlen == 6,
        v.plen == 4 || v.plen == 16,
{
    lemma_be_bytes_len(v.htype.code() as nat, 2);
    lemma_be_bytes_len(v.ptype.code() as nat, 2);
    lemma_be_bytes_len(v.hlen as nat, 1);
    lemma_be_bytes_len(v.plen as nat, 1);
    lemma_be_bytes_len(v.operation.code() as nat, 2);
}

/// An ARP packet: a request for the hardware address that goes with a
/// protocol address, or the response to one.
#[derive(Debug)]
pub struct Packet {
    htype: Htype,
    ptype: EtherType,
    hlen: u8,
    plen: u8,
    operation: Operation,
    sha: HardwareAddress,
    spa: ProtocolAddress,
    tha: HardwareAddress,
    tpa: ProtocolAddress,
}

impl View for Packet {
    type V = PacketView;

    closed spec fn view(&self) -> PacketView {
        PacketView {
            htype: self.htype,
            ptype: self.ptype,
            hlen: self.hlen,
            plen: self.plen,
            operation: self.operation,
            sha: self.sha@,
            spa: self.spa@,
            tha: self.tha@,
            tpa: self.tpa@,
        }
    }
}

impl Packet {
    /// Every packet that there is is valid.
    #[verifier::type_invariant]
    spec fn well_formed(&self) -> bool {
        self@.valid()
    }

    /// A packet with the given operation, where sender and target addresses
    /// are of one family.
    fn new(
        operation: Operation,
        sha: HardwareAddress,
        spa: ProtocolAddress,
        tha: HardwareAddress,
        tpa: ProtocolAddress,
    ) -> (r: Option<Packet>)
        requires
            operation == Operation::Request || operation == Operation::Response,
        ensures
            r is Some <==> sha@.0 == tha@.0 && spa@.0 == tpa@.0,
            r matches Some(packet) ==> packet@ == PacketView::of(operation, sha@, spa@, tha@, tpa@)
                && packet@.valid(),
    {
        proof {
            sha.lemma_valid();
            spa.lemma_valid();
            tha.lemma_valid();
            tpa.lemma_valid();
        }
        if sha.addr_type() != tha.addr_type() || spa.addr_type() != tpa.addr_type() {
            None
        } else {
            Some(
                Packet {
                    htype: sha.addr_type(),
                    ptype: spa.addr_type(),
                    hlen: sha.byte_length() as u8,
                    plen: spa.byte_length() as u8,
                    operation,
                    sha,
                    spa,
                    tha,
                    tpa,
                },
            )
        }
    }

    /// A request from the sender `sha`, `spa` about the target `tha`, `tpa`,
    /// where sender and target addresses are of one family.
    pub fn request(
        sha: HardwareAddress,
        spa: ProtocolAddress,
        tha: HardwareAddress,
        tpa: ProtocolAddress,
    ) -> (r: Option<Packet>)
        ensures
            r is Some <==> sha@.0 == tha@.0 && spa@.0 == tpa@.0,
            r matches Some(packet) ==> packet@ == PacketView::of(
                Operation::Request,
                sha@,
                spa@,
                tha@,
                tpa@,
            ) && packet@.valid(),
    {
        Packet::new(Operation::Request, sha, spa, tha, tpa)
    }

    /// A response from the sender `sha`, `spa` to the target `tha`, `tpa`,
    /// where sender and target addresses are of one family.
    pub fn response(
        sha: HardwareAddress,
        spa: ProtocolAddress,
        tha: HardwareAddress,
        tpa: ProtocolAddress,
    ) -> (r: Option<Packet>)
        ensures
            r is Some <==> sha@.0 == tha@.0 && spa@.0 == tpa@.0,
            r matches Some(packet) ==> packet@ == PacketView::of(
                Operation::Response,
                sha@,
                spa@,
                tha@,
                tpa@,
            ) && packet@.valid(),
    {
        Packet::new(Operation::Response, sha, spa, tha, tpa)
    }

    /// The type of the hardware addresses.
    pub fn htype(&self) -> (r: Htype)
        ensures
            r == self@.htype,
            self@.valid(),
    {
        proof {
            use_type_invariant(self);
        }
        self.htype
    }

    /// The type of the protocol addresses.
    pub fn ptype(&self) -> (r: EtherType)
        ensures
            r == self@.ptype,
    {
        self.ptype
    }

    /// The length of a hardware address in bytes.
    pub fn hlen(&self) -> (r: u8)
        ensures
            r == self@.hlen,
    {
        self.hlen
    }

    /// The length of a protocol address in bytes.
    pub fn plen(&self) -> (r: u8)
        ensures
            r == self@.plen,
    {
        self.plen
    }

    /// Whether the packet asks or answers.
    pub fn operation(&self) -> (r: Operation)
        ensures
            r == self@.operation,
            r == Operation::Request || r == Operation::Response,
    {
        proof {
            use_type_invariant(self);
        }
        self.operation
    }

    /// The hardware address of the sender.
    pub fn sha(&self) -> (r: HardwareAddress)
        ensures
            r@ == self@.sha,
            self@.valid(),
    {
        proof {
            use_type_invariant(self);
        }
        self.sha
    }

    /// The protocol address of the sender.
    pub fn spa(&self) -> (r: ProtocolAddress)
        ensures
            r@ == self@.spa,
            self@.valid(),
    {
        proof {
            use_type_invariant(self);
        }
        self.spa
    }

    /// The hardware address of the target.
    pub fn tha(&self) -> (r: HardwareAddress)
        ensures
            r@ == self@.tha,
            self@.valid(),
    {
        proof {
            use_type_invariant(self);
        }
        self.tha
    }

    /// The protocol address of the target.
    pub fn tpa(&self) -> (r: ProtocolAddress)
        ensures
            r@ == self@.tpa,
            self@.valid(),
    {
        proof {
            use_type_invariant(self);
        }
        self.tpa
    }

    /// The packet as text.
    pub fn to_string(&self) -> (s: String)
        ensures
            s@ == self@.text(),
    {
        let mut s = String::from_str("ARP ");
        s.append(self.operation.to_string().as_str());
        s.append(" (Hardware: ");
        s.append(self.htype.to_string().as_str());
        s.append(", Protocol: ");
        s.append(self.ptype.to_string().as_str());
        s.append(") - SHA: ");
        s.append(self.sha.to_string().as_str());
        s.append(", SPA: ");
        s.append(self.spa.to_string().as_str());
        s.append(", THA: ");
        s.append(self.tha.to_string().as_str());
        s.append(", TPA: ");
        s.append(self.tpa.to_string().as_str());
        s
    }
}

impl Serialise for Packet {
    open spec fn encoding(v: PacketView) -> Seq<u8> {
        v.wire()
    }

    open spec fn decoding(buf: Seq<u8>) -> Result<PacketView, Fault> {
        PacketView::decode(buf)
    }

    fn byte_length(&self) -> (n: usize)
        ensures
            n == 8 + 2 * self@.hlen + 2 * self@.plen,
    {
        proof {
            use_type_invariant(self);
            lemma_encoding_len(self@);
        }
        self.htype.byte_length() + self.ptype.byte_length() + self.hlen.byte_length()
            + self.plen.byte_length() + self.operation.byte_length() + (self.hlen as usize) * 2
            + (self.plen as usize) * 2
    }

    #[verifier::rlimit(40)]
    fn serialise(&self, buf: &mut [u8]) -> (n: usize) {
        proof {
            use_type_invariant(self);
            lemma_encoding_len(self@);
        }
        let ghost v = self@;
        let index = serialise_field(&self.htype, 0, buf);
        let ghost done = v.htype.wire();
        assert(buf@ =~= done + old(buf)@.skip(index as int));
        let ghost before = buf@;
        let index = serialise_field(&self.ptype, index, buf);
        proof {
            assert(before.take(done.len() as int) =~= done);
            done = done + v.ptype.wire();
            assert(buf@ =~= done + old(buf)@.skip(index as int));
            before = buf@;
        }
        let index = serialise_field(&self.hlen, index, buf);
        proof {
            assert(before.take(done.len() as int) =~= done);
            done = done + be_bytes(v.hlen as nat, 1);
            assert(buf@ =~= done + old(buf)@.skip(index as int));
            before = buf@;
        }
        let index = serialise_field(&self.plen, index, buf);
        proof {
            assert(before.take(done.len() as int) =~= done);
            done = done + be_bytes(v.plen as nat, 1);
            assert(buf@ =~= done + old(buf)@.skip(index as int));
            before = buf@;
        }
        let index = serialise_field(&self.operation, index, buf);
        proof {
            assert(before.take(done.len() as int) =~= done);
            done = done + v.operation.wire();
            assert(buf@ =~= done + old(buf)@.skip(index as int));
            before = buf@;
        }
        let index = serialise_field(&self.sha, index, buf);
        proof {
            assert(before.take(done.len() as int) =~= done);
            done = done + v.sha.1;
            assert(buf@ =~= done + old(buf)@.skip(index as int));
            before = buf@;
        }
        let index = serialise_field(&self.spa, index, buf);
        proof {
            assert(before.take(done.len() as int) =~= done);
            done = done + v.spa.1;
            assert(buf@ =~= done + old(buf)@.skip(index as int));
            before = buf@;
        }
        let index = serialise_field(&self.tha, index, buf);
        proof {
            assert(before.take(done.len() as int) =~= done);
            done = done + v.tha.1;
            assert(buf@ =~= done + old(buf)@.skip(index as int));
            before = buf@;
        }
        let index = serialise_field(&self.tpa, index, buf);
        proof {
            assert(before.take(done.len() as int) =~= done);
            done = done + v.tpa.1;
            assert(buf@ =~= done + old(buf)@.skip(index as int));
        }
        index
    }

    #[verifier::rlimit(40)]
    fn deserialise(buf: &[u8]) -> (r: Result<Packet, DeserialiseError>) {
        let htype = match Htype::deserialise(buf) {
            Ok(v) => v,
            Err(e) => return Err(e),
        };
        let index = htype.byte_length();

        let ptype = match EtherType::deserialise(tail_of(buf, index)) {
            Ok(v) => v,
            Err(e) => return Err(e),
        };
        let index = index + ptype.byte_length();

        let hlen = match u8::deserialise(tail_of(buf, index)) {
            Ok(v) => v,
            Err(e) => return Err(e),
        };
        let plen = match u8::deserialise(tail_of(buf, index + 1)) {
            Ok(v) => v,
            Err(e) => return Err(e),
        };
        let operation = match Operation::deserialise(tail_of(buf, index + 2)) {
            Ok(v) => v,
            Err(e) => return Err(e),
        };
        if let Operation::Unknown(code) = operation {
            let mut message = String::from_str("unknown operation: ");
            append_decimal(&mut message, code as u128);
            return Err(DeserialiseError::Heap(message));
        }
        let index = index + operation.byte_length() + 2;

        let sha = match HardwareAddress::from_bytes(htype, tail_of(buf, index)) {
            Ok(v) => v,
            Err(e) => return Err(e),
        };
        let spa_at = index + sha.byte_length();
        let spa = match ProtocolAddress::from_bytes(ptype, tail_of(buf, spa_at)) {
            Ok(v) => v,
            Err(e) => return Err(e),
        };
        if hlen as usize != sha.byte_length() || plen as usize != spa.byte_length() {
            return Err(
                DeserialiseError::Static("address length disagrees with the address type"),
            );
        }
        let index = index + (hlen as usize) + (plen as usize);

        let tha = match HardwareAddress::from_bytes(htype, tail_of(buf, index)) {
            Ok(v) => v,
            Err(e) => return Err(e),
        };
        let tpa_at = index + sha.byte_length();
        let tpa = match ProtocolAddress::from_bytes(ptype, tail_of(buf, tpa_at)) {
            Ok(v) => v,
            Err(e) => return Err(e),
        };
        proof {
            sha.lemma_valid();
            spa.lemma_valid();
            tha.lemma_valid();
            tpa.lemma_valid();
        }
        Ok(Packet { htype, ptype, hlen, plen, operation, sha, spa, tha, tpa })
    }
}

impl Pdu for Packet {
    open spec fn log_line(v: PacketView, action: Seq<char>) -> Seq<char> {
        action + " "@ + v.text()
    }

    fn log(&self, action: &str) -> (line: String) {
        let mut line = String::from_str(action);
        line.append(" ");
        line.append(self.to_string().as_str());
        line
    }
}

impl PacketView {
    /// The first five fields of the packet.
    pub open spec fn head(self) -> PacketHead {
        PacketHead {
            htype: self.htype,
            ptype: self.ptype,
            hlen: self.hlen,
            plen: self.plen,
            operation: self.operation,
        }
    }

    /// The four addresses of the packet on the wire.
    pub open spec fn addresses(self) -> Seq<u8> {
        self.sha.1 + self.spa.1 + self.tha.1 + self.tpa.1
    }
}

/// The first five fields of a valid packet are read back as they were.
#[verifier::rlimit(40)]
proof fn lemma_head_round_trip(v: PacketView, rest: Seq<u8>)
    requires
        v.valid(),
    ensures
        PacketView::decode_head(v.wire() + rest) == Ok::<PacketHead, Fault>(v.head()),
{
    let buf = v.wire() + rest;
    let hlen = be_bytes(v.hlen as nat, 1);
    let plen = be_bytes(v.plen as nat, 1);
    let end = v.addresses() + rest;
    lemma_encoding_len(v);
    lemma_radix_values();
    assert(Htype::decode(buf) == Ok::<Htype, Fault>(v.htype)) by {
        let after = v.ptype.wire() + hlen + plen + v.operation.wire() + end;
        assert(buf =~= v.htype.wire() + after);
        v.htype.lemma_round_trip(after);
    }
    assert(EtherType::decode(tail(buf, 2)) == Ok::<EtherType, Fault>(v.ptype)) by {
        let after = hlen + plen + v.operation.wire() + end;
        assert(tail(buf, 2) =~= v.ptype.wire() + after);
        v.ptype.lemma_round_trip(after);
    }
    assert(decode_u8(tail(buf, 4)) == Ok::<u8, Fault>(v.hlen)) by {
        let after = plen + v.operation.wire() + end;
        assert(tail(buf, 4) =~= hlen + after);
        lemma_uint_round_trip("u8"@, v.hlen as nat, 1, after);
    }
    assert(decode_u8(tail(buf, 5)) == Ok::<u8, Fault>(v.plen)) by {
        let after = v.operation.wire() + end;
        assert(tail(buf, 5) =~= plen + after);
        lemma_uint_round_trip("u8"@, v.plen as nat, 1, after);
    }
    assert(Operation::decode(tail(buf, 6)) == Ok::<Operation, Fault>(v.operation)) by {
        assert(tail(buf, 6) =~= v.operation.wire() + end);
        v.operation.lemma_round_trip(end);
    }
}

/// The addresses of a valid packet are read back as they were.
#[verifier::rlimit(40)]
proof fn lemma_addresses_round_trip(v: PacketView, rest: Seq<u8>)
    requires
        v.valid(),
    ensures
        PacketView::decode_addresses(v.head(), v.wire() + rest) == Ok::<PacketView, Fault>(v),
{
    let buf = v.wire() + rest;
    lemma_encoding_len(v);
    let first = 8int;
    let second = 8 + v.hlen;
    let third = 8 + v.hlen + v.plen;
    let fourth = 8 + v.hlen + v.plen + v.hlen;
    assert(HardwareAddress::decode(v.htype, tail(buf, first)) == Ok::<(Htype, Seq<u8>), Fault>(
        v.sha,
    )) by {
        assert(tail(buf, first).take(v.hlen as int) =~= v.sha.1);
    }
    assert(ProtocolAddress::decode(v.ptype, tail(buf, second)) == Ok::<
        (EtherType, Seq<u8>),
        Fault,
    >(v.spa)) by {
        assert(tail(buf, second).take(v.plen as int) =~= v.spa.1);
    }
    assert(HardwareAddress::decode(v.htype, tail(buf, third)) == Ok::<(Htype, Seq<u8>), Fault>(
        v.tha,
    )) by {
        assert(tail(buf, third).take(v.hlen as int) =~= v.tha.1);
    }
    assert(ProtocolAddress::decode(v.ptype, tail(buf, fourth)) == Ok::<
        (EtherType, Seq<u8>),
        Fault,
    >(v.tpa)) by {
        assert(tail(buf, fourth).take(v.plen as int) =~= v.tpa.1);
    }
}

/// A valid packet that is serialised and deserialised, whatever follows it
/// in the buffer, is as it was.
pub proof fn lemma_packet_round_trip(v: PacketView, rest: Seq<u8>)
    requires
        v.valid(),
    ensures
        Packet::decoding(Packet::encoding(v) + rest) == Ok::<PacketView, Fault>(v),
{
    lemma_head_round_trip(v, rest);
    lemma_addresses_round_trip(v, rest);
}

/// What is read from a buffer is a valid packet, and the bytes of that
/// packet are the front of the buffer.
#[verifier::rlimit(40)]
pub proof fn lemma_packet_decoded(buf: Seq<u8>)
    requires
        Packet::decoding(buf) is Ok,
    ensures
        Packet::decoding(buf)->Ok_0.valid(),
        Packet::encoding(Packet::decoding(buf)->Ok_0) == buf.take(
            Packet::encoding(Packet::decoding(buf)->Ok_0).len() as int,
        ),
{
    let v = PacketView::decode(buf)->Ok_0;
    let head = PacketView::decode_head(buf)->Ok_0;
    assert(v.valid());
    lemma_encoding_len(v);
    lemma_radix_values();
    Htype::lemma_decoded(buf);
    EtherType::lemma_decoded(tail(buf, 2));
    lemma_uint_decoded("u8"@, 1, tail(buf, 4));
    lemma_uint_decoded("u8"@, 1, tail(buf, 5));
    Operation::lemma_decoded(tail(buf, 6));
    let addresses = 8 + v.hlen + v.plen;
    assert(v.htype.wire() =~= buf.subrange(0, 2));
    assert(v.ptype.wire() =~= buf.subrange(2, 4)) by {
        assert(tail(buf, 2).take(2) =~= buf.subrange(2, 4));
    }
    assert(be_bytes(v.hlen as nat, 1) =~= buf.subrange(4, 5)) by {
        assert(tail(buf, 4).take(1) =~= buf.subrange(4, 5));
    }
    assert(be_bytes(v.plen as nat, 1) =~= buf.subrange(5, 6)) by {
        assert(tail(buf, 5).take(1) =~= buf.subrange(5, 6));
    }
    assert(v.operation.wire() =~= buf.subrange(6, 8)) by {
        assert(tail(buf, 6).take(2) =~= buf.subrange(6, 8));
    }
    assert(v.sha.1 =~= buf.subrange(8, 8 + v.hlen));
    assert(v.spa.1 =~= buf.subrange(8 + v.hlen, addresses));
    assert(v.tha.1 =~= buf.subrange(addresses, addresses + v.hlen));
    assert(v.tpa.1 =~= buf.subrange(addresses + v.hlen, addresses + v.hlen + v.plen));
    assert(buf.len() >= v.wire().len());
    assert(v.wire() =~= buf.take(v.wire().len() as int));
}

} // verus!
