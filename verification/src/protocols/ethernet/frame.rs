//! The Ethernet frame, with or without a VLAN tag.

use super::ethertype::EtherType;
use crate::common::endian::{be_bytes, lemma_be16, lemma_be_bytes_len, lemma_radix_values};
use crate::common::layer::Layer;
use crate::common::mac::{mac_text, MacAddress};
use crate::common::pdu::{Pdu, Wrapper};
use crate::common::serialise::{
    decode_u16, lemma_uint_decoded, lemma_uint_round_trip, serialise_field, tail, tail_of,
    DeserialiseError, Fault, Serialise,
};
use crate::common::text::{append_decimal, append_hex, decimal, hex};
use vstd::prelude::*;
use vstd::slice::{slice_subrange, slice_to_vec};

verus! {

/// The fields of a frame's header. An address is its six bytes.
pub struct HeaderView {
    pub mac_destination: Seq<u8>,
    pub mac_source: Seq<u8>,
    pub ethertype: EtherType,
    pub tpid: Option<EtherType>,
    pub tci: u16,
}

impl HeaderView {
    /// The length of the header on the wire: fourteen bytes, and four more
    /// for a VLAN tag.
    pub open spec fn wire_len(self) -> nat {
        if self.tpid is Some {
            18
        } else {
            14
        }
    }

    /// The tag of a tagged header on the wire: the tag's own type code
    /// and the tag control information. Nothing for an untagged header.
    pub open spec fn tag(self) -> Seq<u8> {
        match self.tpid {
            Some(tpid) => tpid.wire() + be_bytes(self.tci as nat, 2),
            None => Seq::empty(),
        }
    }

    /// The header on the wire: the two addresses, the tag if there is one,
    /// and the type/length code.
    pub open spec fn wire(self) -> Seq<u8> {
        self.mac_destination + self.mac_source + self.tag() + self.ethertype.wire()
    }

    /// The header that a buffer holds at its front, or what is wrong with
    /// the buffer. Where the code after the addresses is that of a VLAN
    /// tag, the tag control information and the type/length code follow.
    pub open spec fn decode(buf: Seq<u8>) -> Result<HeaderView, Fault> {
        match MacAddress::decode(buf) {
            Err(e) => Err(e),
            Ok(mac_destination) => match MacAddress::decode(tail(buf, 6)) {
                Err(e) => Err(e),
                Ok(mac_source) => match EtherType::decode(tail(buf, 12)) {
                    Err(e) => Err(e),
                    Ok(outer) => if outer.is_vlan_tag() {
                        match decode_u16(tail(buf, 14)) {
                            Err(e) => Err(e),
                            Ok(tci) => match EtherType::decode(tail(buf, 16)) {
                                Err(e) => Err(e),
                                Ok(ethertype) => Ok(
                                    HeaderView {
                                        mac_destination,
                                        mac_source,
                                        ethertype,
                                        tpid: Some(outer),
                                        tci,
                                    },
                                ),
                            },
                        }
                    } else {
                        Ok(
                            HeaderView {
                                mac_destination,
                                mac_source,
                                ethertype: outer,
                                tpid: None,
                                tci: 0,
                            },
                        )
                    },
                },
            },
        }
    }
}

/// The header of an Ethernet frame: the two addresses, the tag if there is
/// one, and the type/length code.
#[derive(Debug)]
pub struct FrameHeader {
    mac_destination: MacAddress,
    mac_source: MacAddress,
    ethertype: EtherType,
    tpid: Option<EtherType>,
    tci: u16,
}

impl View for FrameHeader {
    type V = HeaderView;

    closed spec fn view(&self) -> HeaderView {
        HeaderView {
            mac_destination: self.mac_destination@,
            mac_source: self.mac_source@,
            ethertype: self.ethertype,
            tpid: self.tpid,
            tci: self.tci,
        }
    }
}

/// The length of a header on the wire, where its addresses have six bytes.
pub proof fn lemma_header_len(v: HeaderView)
    requires
        v.mac_destination.len() == 6,
        v.mac_source.len() == 6,
    ensures
        v.wire().len() == v.wire_len(),
        v.tag().len() == v.wire_len() - 14,
        v.ethertype.wire().len() == 2,
{
    lemma_be_bytes_len(v.ethertype.code() as nat, 2);
    lemma_be_bytes_len(v.tci as nat, 2);
    if let Some(tpid) = v.tpid {
        lemma_be_bytes_len(tpid.code() as nat, 2);
    }
}

impl FrameHeader {
    /// The addresses of a header have six bytes each.
    proof fn lemma_addresses(self)
        ensures
            self@.mac_destination.len() == 6,
            self@.mac_source.len() == 6,
    {
        self.mac_destination.lemma_len();
        self.mac_source.lemma_len();
    }
}

impl Serialise for FrameHeader {
    open spec fn encoding(v: HeaderView) -> Seq<u8> {
        v.wire()
    }

    open spec fn decoding(buf: Seq<u8>) -> Result<HeaderView, Fault> {
        HeaderView::decode(buf)
    }

    fn byte_length(&self) -> (n: usize)
        ensures
            n == self@.wire_len(),
    {
        proof {
            self.lemma_addresses();
            lemma_header_len(self@);
        }
        self.mac_destination.byte_length() + self.mac_source.byte_length()
            + self.ethertype.byte_length() + match self.tpid {
            Some(tpid) => tpid.byte_length() + 2,
            None => 0,
        }
    }

    fn serialise(&self, buf: &mut [u8]) -> (n: usize)
        ensures
            n == self@.wire_len(),
    {
        proof {
            self.lemma_addresses();
            lemma_header_len(self@);
        }
        let ghost v = self@;
        let mut index: usize = 0;
        index = serialise_field(&self.mac_destination, index, buf);
        let ghost done = v.mac_destination;
        assert(buf@ =~= done + old(buf)@.skip(index as int));
        let ghost before = buf@;
        index = serialise_field(&self.mac_source, index, buf);
        proof {
            assert(before.take(done.len() as int) =~= done);
            done = done + v.mac_source;
            assert(buf@ =~= done + old(buf)@.skip(index as int));
            before = buf@;
        }
        if let Some(tpid) = self.tpid {
            proof {
                lemma_be_bytes_len(tpid.code() as nat, 2);
                lemma_be_bytes_len(v.tci as nat, 2);
            }
            index = serialise_field(&tpid, index, buf);
            proof {
                assert(before.take(done.len() as int) =~= done);
                done = done + tpid.wire();
                assert(buf@ =~= done + old(buf)@.skip(index as int));
                before = buf@;
            }
            index = serialise_field(&self.tci, index, buf);
            proof {
                assert(before.take(done.len() as int) =~= done);
                done = done + be_bytes(v.tci as nat, 2);
                assert(buf@ =~= done + old(buf)@.skip(index as int));
                before = buf@;
            }
        }
        assert(done =~= v.mac_destination + v.mac_source + v.tag());
        index = serialise_field(&self.ethertype, index, buf);
        proof {
            assert(before.take(done.len() as int) =~= done);
            done = done + v.ethertype.wire();
            assert(buf@ =~= done + old(buf)@.skip(index as int));
        }
        index
    }

    #[verifier::rlimit(40)]
    fn deserialise(buf: &[u8]) -> (r: Result<FrameHeader, DeserialiseError>) {
        let mut index: usize = 0;
        let mac_destination = match MacAddress::deserialise(buf) {
            Ok(v) => v,
            Err(e) => return Err(e),
        };
        index += mac_destination.byte_length();

        let mac_source = match MacAddress::deserialise(tail_of(buf, index)) {
            Ok(v) => v,
            Err(e) => return Err(e),
        };
        index += mac_source.byte_length();

        let outer = match EtherType::deserialise(tail_of(buf, index)) {
            Ok(v) => v,
            Err(e) => return Err(e),
        };
        index += outer.byte_length();

        if outer.tags_vlan() {
            let tci = match u16::deserialise(tail_of(buf, index)) {
                Ok(v) => v,
                Err(e) => return Err(e),
            };
            index += tci.byte_length();
            let ethertype = match EtherType::deserialise(tail_of(buf, index)) {
                Ok(v) => v,
                Err(e) => return Err(e),
            };
            Ok(FrameHeader { mac_destination, mac_source, ethertype, tpid: Some(outer), tci })
        } else {
            Ok(FrameHeader { mac_destination, mac_source, ethertype: outer, tpid: None, tci: 0 })
        }
    }
}

/// The fields of a frame. An address is its six bytes.
pub struct FrameView {
    pub destination: Seq<u8>,
    pub source: Seq<u8>,
    pub ethertype: EtherType,
    pub tpid: Option<EtherType>,
    pub tci: u16,
    pub data: Seq<u8>,
    pub fcs: u32,
}

/// The bytes of `data` from `from` up to `to`, each in two hexadecimal
/// digits and a space.
pub open spec fn cells_text(data: Seq<u8>, from: int, to: int) -> Seq<char>
    decreases to - from,
{
    if to <= from {
        Seq::empty()
    } else {
        cells_text(data, from, to - 1) + hex(data[to - 1] as int, 2) + seq![' ']
    }
}

/// Where the row `row` of a dump of `len` bytes ends: sixteen bytes after
/// its start, or at the end of the data.
pub open spec fn row_end(len: int, row: int) -> int {
    if 16 * row + 16 <= len {
        16 * row + 16
    } else {
        len
    }
}

/// The first `rows` rows of the dump of `data`: sixteen bytes to a row, each
/// row on a line of its own.
pub open spec fn rows_text(data: Seq<u8>, rows: nat) -> Seq<char>
    decreases rows,
{
    if rows == 0 {
        Seq::empty()
    } else {
        rows_text(data, (rows - 1) as nat) + cells_text(
            data,
            16 * (rows - 1),
            row_end(data.len() as int, rows - 1),
        ) + seq!['\n']
    }
}

impl FrameView {
    /// The header of the frame.
    pub open spec fn header(self) -> HeaderView {
        HeaderView {
            mac_destination: self.destination,
            mac_source: self.source,
            ethertype: self.ethertype,
            tpid: self.tpid,
            tci: self.tci,
        }
    }

    /// The frame that a header and a payload make, with no check sequence.
    pub open spec fn of(header: HeaderView, data: Seq<u8>) -> FrameView {
        FrameView {
            destination: header.mac_destination,
            source: header.mac_source,
            ethertype: header.ethertype,
            tpid: header.tpid,
            tci: header.tci,
            data,
            fcs: 0,
        }
    }

    /// Whether the frame is the one that its own bytes are read as: its
    /// header is canonical, a length in place of the type is the length of
    /// the payload, and there is no check sequence.
    pub open spec fn canonical(self) -> bool {
        &&& self.header().canonical()
        &&& self.ethertype matches EtherType::PayloadLength(length) ==> self.data.len() == length
        &&& self.fcs == 0
    }

    /// The frame on the wire: the header, then the payload.
    pub open spec fn wire(self) -> Seq<u8> {
        self.header().wire() + self.data
    }

    /// The frame that a buffer holds, or what is wrong with the buffer.
    /// Where a length stands in place of the type, the payload is that
    /// many bytes after the header; else it is the rest of the buffer.
    pub open spec fn decode(buf: Seq<u8>) -> Result<FrameView, Fault> {
        match HeaderView::decode(buf) {
            Err(e) => Err(e),
            Ok(header) => match header.ethertype {
                EtherType::PayloadLength(length) => if buf.len() < header.wire_len() + length {
                    Err(
                        Fault::BufferTooSmall(
                            "Frame"@,
                            header.wire_len() + length as nat,
                            buf.len(),
                        ),
                    )
                } else {
                    Ok(
                        FrameView::of(
                            header,
                            buf.subrange(header.wire_len() as int, header.wire_len() + length),
                        ),
                    )
                },
                _ => Ok(FrameView::of(header, tail(buf, header.wire_len() as int))),
            },
        }
    }

    /// Whether the length of the frame on the wire is a number that the
    /// machine can hold.
    pub open spec fn fits(self) -> bool {
        self.header().wire_len() + self.data.len() <= usize::MAX
    }

    /// The part of the text that tells of the tag, if there is one.
    pub open spec fn tag_text(self) -> Seq<char> {
        match self.tpid {
            Some(tpid) => "VLAN Tagging:\n-----------------\nTPID:        "@ + tpid.text()
                + "\nTCI:         "@ + decimal(self.tci as int) + "\n\n"@,
            None => Seq::empty(),
        }
    }

    /// The part of the text that shows the payload, if there is any.
    pub open spec fn data_text(self) -> Seq<char> {
        if self.data.len() == 0 {
            Seq::empty()
        } else {
            "Data:\n-----------------\n"@ + rows_text(
                self.data,
                ((self.data.len() + 15) / 16) as nat,
            )
                + "\n"@
        }
    }

    /// The text of a frame: its length and header fields on a line each,
    /// then the tag and the payload.
    pub open spec fn text(self) -> Seq<char> {
        "Frame: "@ + decimal((self.header().wire_len() + self.data.len()) as int) + " bytes\n"@
            + "-----------------\nDestination: "@ + mac_text(self.destination) + "\nSource:      "@
            + mac_text(self.source) + "\nEtherType:   "@ + self.ethertype.text()
            + "\nFCS:         "@ + hex(self.fcs as int, 8) + "\n\n"@ + self.tag_text()
            + self.data_text()
    }
}

/// An Ethernet frame.
///
/// The frame check sequence is carried as zero: it is neither computed nor
/// checked, and it is not on the wire.
#[derive(Debug)]
pub struct Frame {
    header: FrameHeader,
    data: Vec<u8>,
    fcs: u32,
}

impl View for Frame {
    type V = FrameView;

    closed spec fn view(&self) -> FrameView {
        FrameView {
            destination: self.header.mac_destination@,
            source: self.header.mac_source@,
            ethertype: self.header.ethertype,
            tpid: self.header.tpid,
            tci: self.header.tci,
            data: self.data@,
            fcs: self.fcs,
        }
    }
}

impl Frame {
    /// Every frame that there is has a length that the machine can hold,
    /// and no check sequence.
    #[verifier::type_invariant]
    spec fn well_formed(&self) -> bool {
        self@.fits() && self.fcs == 0
    }

    /// An untagged frame.
    pub fn new(
        destination: MacAddress,
        source: MacAddress,
        ethertype: EtherType,
        data: Vec<u8>,
    ) -> (frame: Frame)
        requires
            14 + data@.len() <= usize::MAX,
        ensures
            frame@ == (FrameView {
                destination: destination@,
                source: source@,
                ethertype,
                tpid: None,
                tci: 0,
                data: data@,
                fcs: 0,
            }),
    {
        Frame {
            header: FrameHeader {
                mac_destination: destination,
                mac_source: source,
                ethertype,
                tpid: None,
                tci: 0,
            },
            data,
            fcs: 0,
        }
    }

    /// A frame with a VLAN tag: `tpid` is the tag's own type code, `tci`
    /// the tag control information.
    pub fn new_vlan_tagged(
        destination: MacAddress,
        source: MacAddress,
        tpid: EtherType,
        tci: u16,
        ethertype: EtherType,
        data: Vec<u8>,
    ) -> (frame: Frame)
        requires
            18 + data@.len() <= usize::MAX,
        ensures
            frame@ == (FrameView {
                destination: destination@,
                source: source@,
                ethertype,
                tpid: Some(tpid),
                tci,
                data: data@,
                fcs: 0,
            }),
    {
        Frame {
            header: FrameHeader {
                mac_destination: destination,
                mac_source: source,
                ethertype,
                tpid: Some(tpid),
                tci,
            },
            data,
            fcs: 0,
        }
    }

    /// The address that the frame goes to.
    pub fn destination(&self) -> (r: MacAddress)
        ensures
            r@ == self@.destination,
    {
        self.header.mac_destination
    }

    /// The address that the frame comes from.
    pub fn source(&self) -> (r: MacAddress)
        ensures
            r@ == self@.source,
    {
        self.header.mac_source
    }

    /// The type of the payload, or its length.
    pub fn ethertype(&self) -> (r: EtherType)
        ensures
            r == self@.ethertype,
    {
        self.header.ethertype
    }

    /// The type code of the VLAN tag, if the frame has one.
    pub fn tpid(&self) -> (r: Option<EtherType>)
        ensures
            r == self@.tpid,
    {
        self.header.tpid
    }

    /// The tag control information, if the frame has a VLAN tag.
    pub fn tci(&self) -> (r: Option<u16>)
        ensures
            r == if self@.tpid is Some {
                Some(self@.tci)
            } else {
                None
            },
    {
        match self.header.tpid {
            Some(_) => Some(self.header.tci),
            None => None,
        }
    }

    /// The payload.
    pub fn data(&self) -> (r: &[u8])
        ensures
            r@ == self@.data,
    {
        self.data.as_slice()
    }

    /// The frame check sequence that the frame carries: always zero.
    pub fn fcs(&self) -> (r: u32)
        ensures
            r == self@.fcs,
            r == 0,
    {
        proof {
            use_type_invariant(self);
        }
        self.fcs
    }

    /// The frame check sequence that the frame's bytes call for: none, as
    /// long as none is computed.
    pub fn get_fcs(&self) -> (r: Option<u32>)
        ensures
            r is None,
    {
        None
    }

    /// Appends the row `row` of the dump of the payload to `s`.
    fn append_row(&self, s: &mut String, row: usize)
        requires
            16 * row < self@.data.len(),
        ensures
            final(s)@ == old(s)@ + cells_text(
                self@.data,
                16 * row,
                row_end(self@.data.len() as int, row as int),
            ) + seq!['\n'],
    {
        proof {
            reveal_strlit(" ");
            reveal_strlit("\n");
        }
        let len = self.data.len();
        let start = 16 * row;
        let end = if len - start >= 16 {
            start + 16
        } else {
            len
        };
        let mut i = start;
        while i < end
            invariant
                start <= i <= end <= self.data@.len(),
                " "@ == seq![' '],
                s@ == old(s)@ + cells_text(self.data@, start as int, i as int),
            decreases end - i,
        {
            append_hex(s, self.data[i] as u32, 2);
            s.append(" ");
            i += 1;
            assert(s@ =~= old(s)@ + cells_text(self.data@, start as int, i as int));
        }
        s.append("\n");
        assert("\n"@ =~= seq!['\n']);
    }

    /// The frame as text: its length and header fields on a line each, then
    /// the tag if there is one, then the payload, sixteen bytes to a line.
    pub fn to_string(&self) -> (s: String)
        ensures
            s@ == self@.text(),
    {
        let mut s = String::from_str("Frame: ");
        append_decimal(&mut s, self.byte_length() as u128);
        s.append(" bytes\n");
        s.append("-----------------\nDestination: ");
        s.append(self.header.mac_destination.to_string().as_str());
        s.append("\nSource:      ");
        s.append(self.header.mac_source.to_string().as_str());
        s.append("\nEtherType:   ");
        s.append(self.header.ethertype.to_string().as_str());
        s.append("\nFCS:         ");
        append_hex(&mut s, self.fcs, 8);
        s.append("\n\n");
        let ghost head = s@;
        if let Some(tpid) = self.header.tpid {
            s.append("VLAN Tagging:\n-----------------\nTPID:        ");
            s.append(tpid.to_string().as_str());
            s.append("\nTCI:         ");
            append_decimal(&mut s, self.header.tci as u128);
            s.append("\n\n");
        }
        assert(s@ =~= head + self@.tag_text());
        if self.data.len() > 0 {
            s.append("Data:\n-----------------\n");
            let ghost top = s@;
            let rows = (self.data.len() - 1) / 16 + 1;
            let mut row: usize = 0;
            while row < rows
                invariant
                    row <= rows,
                    rows == (self.data@.len() + 15) / 16,
                    self.data@.len() > 0,
                    s@ == top + rows_text(self.data@, row as nat),
                decreases rows - row,
            {
                self.append_row(&mut s, row);
                row += 1;
                assert(s@ =~= top + rows_text(self.data@, row as nat));
            }
            s.append("\n");
        }
        assert(s@ =~= head + self@.tag_text() + self@.data_text());
        s
    }
}

impl Serialise for Frame {
    open spec fn encoding(v: FrameView) -> Seq<u8> {
        v.wire()
    }

    open spec fn decoding(buf: Seq<u8>) -> Result<FrameView, Fault> {
        FrameView::decode(buf)
    }

    fn byte_length(&self) -> (n: usize)
        ensures
            n == self@.header().wire_len() + self@.data.len(),
    {
        proof {
            use_type_invariant(self);
            self.header.lemma_addresses();
            lemma_header_len(self.header@);
        }
        self.header.byte_length() + self.data.len()
    }

    fn serialise(&self, buf: &mut [u8]) -> (n: usize) {
        proof {
            use_type_invariant(self);
            self.header.lemma_addresses();
            lemma_header_len(self.header@);
        }
        let index = serialise_field(&self.header, 0, buf);
        let ghost done = self.header@.wire();
        assert(buf@ =~= done + old(buf)@.skip(index as int));
        let ghost before = buf@;
        let index = serialise_field(&self.data, index, buf);
        proof {
            assert(before.take(done.len() as int) =~= done);
            assert(buf@ =~= done + self.data@ + old(buf)@.skip(index as int));
        }
        index
    }

    fn deserialise(buf: &[u8]) -> (r: Result<Frame, DeserialiseError>) {
        let header = match FrameHeader::deserialise(buf) {
            Ok(v) => v,
            Err(e) => return Err(e),
        };
        let start = header.byte_length();
        let end_index = if let EtherType::PayloadLength(length) = header.ethertype {
            start + length as usize
        } else {
            buf.len()
        };
        if buf.len() < end_index {
            return Err(DeserialiseError::BufferTooSmall("Frame", end_index, buf.len()));
        }
        let data = if start <= end_index {
            slice_to_vec(slice_subrange(buf, start, end_index))
        } else {
            Vec::new()
        };
        assert(data@ =~= FrameView::decode(buf@)->Ok_0.data);
        Ok(Frame { header, data, fcs: 0 })
    }
}

impl Layer for Frame {
    open spec fn takes(v: FrameView, payload: Seq<u8>) -> bool {
        v.header().wire_len() + payload.len() <= usize::MAX
    }

    open spec fn with_payload(v: FrameView, payload: Seq<u8>) -> FrameView {
        FrameView { data: payload, ..v }
    }

    fn wrap<S: Serialise>(&mut self, data: &S) {
        proof {
            use_type_invariant(&*self);
        }
        let mut bytes = vec![0u8; data.byte_length()];
        let written = data.serialise(bytes.as_mut_slice());
        assert(bytes@ =~= S::encoding(data@));
        self.data = bytes;
    }
}

impl Wrapper for Frame {
    open spec fn payload(v: FrameView) -> Seq<u8> {
        v.data
    }

    fn unwrap_data(&self) -> (bytes: Vec<u8>) {
        slice_to_vec(self.data.as_slice())
    }
}

impl Pdu for Frame {
    open spec fn log_line(v: FrameView, action: Seq<char>) -> Seq<char> {
        action + " "@ + v.text()
    }

    fn log(&self, action: &str) -> (line: String) {
        let mut line = String::from_str(action);
        line.append(" ");
        line.append(self.to_string().as_str());
        line
    }
}

impl HeaderView {
    /// Whether the header is the one that its own bytes are read as: the
    /// addresses have six bytes, the type code stands for its code, the
    /// tag's own code is one, and an untagged header has no type code
    /// that is a tag's and holds no tag control information.
    pub open spec fn canonical(self) -> bool {
        &&& self.mac_destination.len() == 6
        &&& self.mac_source.len() == 6
        &&& self.ethertype.canonical()
        &&& match self.tpid {
            Some(tpid) => tpid.is_vlan_tag(),
            None => !self.ethertype.is_vlan_tag() && self.tci == 0,
        }
    }
}

/// A canonical header that is serialised and deserialised, whatever follows
/// it in the buffer, is as it was.
#[verifier::rlimit(40)]
pub proof fn lemma_header_round_trip(v: HeaderView, rest: Seq<u8>)
    requires
        v.canonical(),
    ensures
        v.wire().len() == v.wire_len(),
        FrameHeader::decoding(FrameHeader::encoding(v) + rest) == Ok::<HeaderView, Fault>(v),
{
    let buf = v.wire() + rest;
    lemma_header_len(v);
    lemma_radix_values();
    assert(buf.take(6) =~= v.mac_destination);
    assert(tail(buf, 6).take(6) =~= v.mac_source);
    match v.tpid {
        Some(tpid) => {
            let tci = be_bytes(v.tci as nat, 2);
            lemma_be_bytes_len(tpid.code() as nat, 2);
            lemma_be_bytes_len(v.tci as nat, 2);
            assert(tail(buf, 12) =~= tpid.wire() + (tci + v.ethertype.wire() + rest));
            tpid.lemma_round_trip(tci + v.ethertype.wire() + rest);
            assert(tail(buf, 14) =~= tci + (v.ethertype.wire() + rest));
            lemma_uint_round_trip("u16"@, v.tci as nat, 2, v.ethertype.wire() + rest);
            assert(tail(buf, 16) =~= v.ethertype.wire() + rest);
            v.ethertype.lemma_round_trip(rest);
        },
        None => {
            assert(tail(buf, 12) =~= v.ethertype.wire() + rest);
            v.ethertype.lemma_round_trip(rest);
        },
    }
}

/// A canonical frame that is serialised and deserialised is as it was.
/// Where a length stands in place of the type, more bytes may follow the
/// frame in the buffer.
#[verifier::rlimit(40)]
pub proof fn lemma_frame_round_trip(v: FrameView, rest: Seq<u8>)
    requires
        v.canonical(),
        rest.len() == 0 || v.ethertype is PayloadLength,
    ensures
        Frame::decoding(Frame::encoding(v) + rest) == Ok::<FrameView, Fault>(v),
{
    let header = v.header();
    let buf = v.wire() + rest;
    lemma_header_round_trip(header, v.data + rest);
    assert(buf =~= header.wire() + (v.data + rest));
    let start = header.wire_len() as int;
    match v.ethertype {
        EtherType::PayloadLength(length) => {
            assert(buf.subrange(start, start + length) =~= v.data);
        },
        _ => {
            assert(tail(buf, start) =~= v.data);
        },
    }
}

/// What is read from a buffer is a canonical header, and the bytes of that
/// header are the front of the buffer.
#[verifier::rlimit(40)]
pub proof fn lemma_header_decoded(buf: Seq<u8>)
    requires
        FrameHeader::decoding(buf) is Ok,
    ensures
        FrameHeader::decoding(buf)->Ok_0.canonical(),
        buf.len() >= FrameHeader::decoding(buf)->Ok_0.wire_len(),
        FrameHeader::encoding(FrameHeader::decoding(buf)->Ok_0) == buf.take(
            FrameHeader::decoding(buf)->Ok_0.wire_len() as int,
        ),
{
    let v = HeaderView::decode(buf)->Ok_0;
    let outer = EtherType::decode(tail(buf, 12))->Ok_0;
    lemma_radix_values();
    EtherType::lemma_decoded(tail(buf, 12));
    assert(v.mac_destination =~= buf.subrange(0, 6));
    assert(v.mac_source =~= buf.subrange(6, 12));
    assert(outer.wire() =~= buf.subrange(12, 14)) by {
        assert(tail(buf, 12).take(2) =~= buf.subrange(12, 14));
    }
    if outer.is_vlan_tag() {
        lemma_uint_decoded("u16"@, 2, tail(buf, 14));
        EtherType::lemma_decoded(tail(buf, 16));
        assert(be_bytes(v.tci as nat, 2) =~= buf.subrange(14, 16)) by {
            assert(tail(buf, 14).take(2) =~= buf.subrange(14, 16));
        }
        assert(v.ethertype.wire() =~= buf.subrange(16, 18)) by {
            assert(tail(buf, 16).take(2) =~= buf.subrange(16, 18));
        }
        assert(v.wire() =~= buf.take(18));
    } else {
        assert(v.wire() =~= buf.take(14));
    }
}

/// What is read from a buffer is a canonical frame, and the bytes of that
/// frame are the front of the buffer: all of it, but where a length stands
/// in place of the type.
pub proof fn lemma_frame_decoded(buf: Seq<u8>)
    requires
        Frame::decoding(buf) is Ok,
    ensures
        Frame::decoding(buf)->Ok_0.canonical(),
        Frame::encoding(Frame::decoding(buf)->Ok_0) == buf.take(
            Frame::encoding(Frame::decoding(buf)->Ok_0).len() as int,
        ),
        !(Frame::decoding(buf)->Ok_0.ethertype is PayloadLength) ==> Frame::encoding(
            Frame::decoding(buf)->Ok_0,
        ) == buf,
{
    let v = FrameView::decode(buf)->Ok_0;
    let header = HeaderView::decode(buf)->Ok_0;
    lemma_header_decoded(buf);
    assert(v.header() == header);
    let start = header.wire_len() as int;
    assert(v.wire() =~= buf.take(start + v.data.len()));
    if !(v.ethertype is PayloadLength) {
        assert(buf.take(buf.len() as int) =~= buf);
    }
}

/// A frame whose code after the addresses is that of a customer VLAN tag
/// is read with that tag: the tag control information is the two bytes
/// after the code, and the type is the code after those.
pub proof fn lemma_vlan_detection(destination: Seq<u8>, source: Seq<u8>, tci: u16, payload: Seq<u8>)
    requires
        destination.len() == 6,
        source.len() == 6,
    ensures
        Frame::decoding(
            destination + source + seq![0x81u8, 0x00u8] + be_bytes(tci as nat, 2) + seq![
                0x08u8,
                0x00u8,
            ] + payload,
        ) == Ok::<FrameView, Fault>(
            FrameView {
                destination,
                source,
                ethertype: EtherType::Ipv4,
                tpid: Some(EtherType::VlanTaggedFrame),
                tci,
                data: payload,
                fcs: 0,
            },
        ),
{
    let v = FrameView {
        destination,
        source,
        ethertype: EtherType::Ipv4,
        tpid: Some(EtherType::VlanTaggedFrame),
        tci,
        data: payload,
        fcs: 0,
    };
    lemma_be16(0x8100, 0, 0);
    lemma_be16(0x0800, 0, 0);
    lemma_frame_round_trip(v, Seq::empty());
    assert(v.wire() + Seq::<u8>::empty() =~= destination + source + seq![0x81u8, 0x00u8]
        + be_bytes(tci as nat, 2) + seq![0x08u8, 0x00u8] + payload);
}

} // verus!
