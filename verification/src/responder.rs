//! Answering ARP requests: what to send back for a frame that came in, and
//! the service that does so.

use crate::common::layer::Layer;
use crate::common::serialise::{DeserialiseError, Fault, Serialise};
use crate::ethernet::FrameFilter;
use crate::netservice::{Action, ChannelId, FilterAction, NetService};
use crate::protocols::arp::packet::{lemma_encoding_len, Packet, PacketView};
use crate::protocols::arp::Operation;
use crate::protocols::ethernet::frame::{Frame, FrameView};
use crate::protocols::ethernet::EtherType;
use vstd::prelude::*;

verus! {

/// What is to be done with a frame that came in.
#[derive(Debug)]
pub enum Reply {
    /// Nothing: the frame carries no ARP packet, but this.
    Ignored(EtherType),
    /// The frame carried the ARP packet `request`; `frame` carries
    /// `response`, and is to be sent.
    Answer { request: Packet, response: Packet, frame: Frame },
}

/// What is to be done with a frame that came in, as plain values.
pub enum ReplyView {
    /// Nothing: the frame carries no ARP packet, but this.
    Ignored(EtherType),
    /// The frame carried the ARP packet `request`; `frame` carries
    /// `response`, and is to be sent.
    Answer { request: PacketView, response: PacketView, frame: FrameView },
}

impl View for Reply {
    type V = ReplyView;

    open spec fn view(&self) -> ReplyView {
        match self {
            Reply::Ignored(ethertype) => ReplyView::Ignored(*ethertype),
            Reply::Answer { request, response, frame } => ReplyView::Answer {
                request: request@,
                response: response@,
                frame: frame@,
            },
        }
    }
}

/// The response to an ARP packet: it comes from the asker's hardware
/// address and the protocol address that was asked for, and goes to the
/// asker.
pub open spec fn response_to(request: PacketView) -> PacketView {
    PacketView::of(Operation::Response, request.sha, request.tpa, request.sha, request.spa)
}

/// The frame that carries `response` back to where `frame` came from.
pub open spec fn frame_back(frame: FrameView, response: PacketView) -> FrameView {
    FrameView {
        destination: frame.source,
        source: frame.source,
        ethertype: EtherType::Arp,
        tpid: None,
        tci: 0,
        data: response.wire(),
        fcs: 0,
    }
}

/// What is to be done with a frame: a frame of another type than ARP is
/// ignored, one whose payload is no ARP packet gives the fault of the
/// payload, and an ARP packet is answered.
pub open spec fn reply_to(frame: FrameView) -> Result<ReplyView, Fault> {
    if frame.ethertype != EtherType::Arp {
        Ok(ReplyView::Ignored(frame.ethertype))
    } else {
        match PacketView::decode(frame.data) {
            Err(e) => Err(e),
            Ok(request) => Ok(
                ReplyView::Answer {
                    request,
                    response: response_to(request),
                    frame: frame_back(frame, response_to(request)),
                },
            ),
        }
    }
}

/// Says what is to be done with a frame that came in.
pub fn respond(frame: &Frame) -> (r: Result<Reply, DeserialiseError>)
    ensures
        match r {
            Ok(reply) => reply_to(frame@) == Ok::<ReplyView, Fault>(reply@),
            Err(e) => reply_to(frame@) == Err::<ReplyView, Fault>(e@),
        },
{
    match frame.ethertype() {
        EtherType::Arp => {
            let request = match Packet::deserialise(frame.data()) {
                Ok(p) => p,
                Err(e) => return Err(e),
            };
            let response = Packet::response(
                request.sha(),
                request.tpa(),
                request.sha(),
                request.spa(),
            ).unwrap();
            proof {
                lemma_encoding_len(response@);
            }
            let mut back = Frame::new(frame.source(), frame.source(), EtherType::Arp, Vec::new());
            back.wrap(&response);
            Ok(Reply::Answer { request, response, frame: back })
        },
        et => Ok(Reply::Ignored(et)),
    }
}

/// A service that answers ARP requests: its own processing of a frame
/// gives the frame that `respond` would send back, on the wire.
pub struct ArpResponder {
    actions: Vec<Action<FrameFilter>>,
    receiver: ChannelId,
    from_above: ChannelId,
    sender: ChannelId,
}

impl ArpResponder {
    /// A service without rules that receives frames on `receiver`, receives
    /// from the layer above on `from_above` and sends down on `sender`.
    pub fn new(receiver: ChannelId, from_above: ChannelId, sender: ChannelId) -> (service:
        ArpResponder)
        ensures
            service.rules() == Seq::<Action<FrameFilter>>::empty(),
            service.send_up() == receiver,
            service.send_from_above() == from_above,
            service.send_down() == sender,
    {
        ArpResponder { actions: Vec::new(), receiver, from_above, sender }
    }
}

impl NetService for ArpResponder {
    type Pdu = Frame;

    type Filter = FrameFilter;

    closed spec fn rules(&self) -> Seq<Action<FrameFilter>> {
        self.actions@
    }

    closed spec fn send_up(&self) -> ChannelId {
        self.receiver
    }

    closed spec fn send_from_above(&self) -> ChannelId {
        self.from_above
    }

    closed spec fn send_down(&self) -> ChannelId {
        self.sender
    }

    open spec fn answer(&self, pdu: FrameView) -> Option<Seq<u8>> {
        match reply_to(pdu) {
            Ok(ReplyView::Answer { frame, .. }) => Some(frame.wire()),
            _ => None,
        }
    }

    fn actions(&self) -> (rules: &[Action<FrameFilter>]) {
        self.actions.as_slice()
    }

    fn add_action(&mut self, filter: Option<FrameFilter>, action: FilterAction) {
        self.actions.push(Action::new(action.action_type(), filter, action.logs()))
    }

    fn get_send_up(&self) -> (channel: ChannelId) {
        self.receiver
    }

    fn set_send_down(&mut self, sender: ChannelId) {
        self.sender = sender
    }

    fn get_send_from_above(&self) -> (channel: ChannelId) {
        self.from_above
    }

    fn get_send_down(&self) -> (channel: ChannelId) {
        self.sender
    }

    fn process_pdu(&mut self, pdu: Frame) -> (out: Option<Vec<u8>>) {
        match respond(&pdu) {
            Ok(Reply::Answer { frame, .. }) => {
                let mut bytes = vec![0u8; frame.byte_length()];
                frame.serialise(bytes.as_mut_slice());
                assert(bytes@ =~= frame@.wire());
                Some(bytes)
            },
            _ => None,
        }
    }
}

} // verus!
