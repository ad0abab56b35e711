//! The Ethernet service: rules over frames.

use crate::common::mac::MacAddress;
use crate::netservice::{Action, ChannelId, FilterAction, NetService, PduFilter};
use crate::protocols::ethernet::frame::{Frame, FrameView};
use crate::protocols::ethernet::EtherType;
use vstd::prelude::*;

verus! {

/// A predicate over frames, whatever the service that asks.
#[derive(Clone, Copy, Debug)]
pub enum FrameFilter {
    /// Frames with this type/length code.
    EtherType(EtherType),
    /// Frames that go to this address.
    Destination(MacAddress),
    /// Frames that come from this address.
    Source(MacAddress),
}

impl<S> PduFilter<S, Frame> for FrameFilter {
    open spec fn accepts(&self, service: &S, pdu: FrameView) -> bool {
        match self {
            FrameFilter::EtherType(ethertype) => pdu.ethertype == *ethertype,
            FrameFilter::Destination(address) => pdu.destination == address@,
            FrameFilter::Source(address) => pdu.source == address@,
        }
    }

    fn test(&self, service: &S, pdu: &Frame) -> (accepted: bool) {
        match self {
            FrameFilter::EtherType(ethertype) => pdu.ethertype() == *ethertype,
            FrameFilter::Destination(address) => pdu.destination() == *address,
            FrameFilter::Source(address) => pdu.source() == *address,
        }
    }
}

/// The Ethernet service. It has no processing of its own: its rules drop
/// frames or hand their payload to the services above.
pub struct EthernetService {
    actions: Vec<Action<FrameFilter>>,
    receiver: ChannelId,
    from_above: ChannelId,
    sender: ChannelId,
}

impl EthernetService {
    /// A service without rules that receives frames on `receiver`, receives
    /// from the layer above on `from_above` and sends down on `sender`.
    pub fn new(receiver: ChannelId, from_above: ChannelId, sender: ChannelId) -> (service:
        EthernetService)
        ensures
            service.rules() == Seq::<Action<FrameFilter>>::empty(),
            service.send_up() == receiver,
            service.send_from_above() == from_above,
            service.send_down() == sender,
    {
        EthernetService { actions: Vec::new(), receiver, from_above, sender }
    }
}

impl NetService for EthernetService {
    type Pdu = Frame;

    type Filter = FrameFilter;

    closed spec fn rules(&self) -> Seq<Action<FrameFilter>> {
        self.actions@
    }

    closed spec fn send_up(&self) -> ChannelId {
        self.receiver
    }

    closed spec fn send_from_above(&self) -> ChannelId {
        self.from_above
    }

    closed spec fn send_down(&self) -> ChannelId {
        self.sender
    }

    open spec fn answer(&self, pdu: FrameView) -> Option<Seq<u8>> {
        None
    }

    fn actions(&self) -> (rules: &[Action<FrameFilter>]) {
        self.actions.as_slice()
    }

    fn add_action(&mut self, filter: Option<FrameFilter>, action: FilterAction) {
        self.actions.push(Action::new(action.action_type(), filter, action.logs()))
    }

    fn get_send_up(&self) -> (channel: ChannelId) {
        self.receiver
    }

    fn set_send_down(&mut self, sender: ChannelId) {
        self.sender = sender
    }

    fn get_send_from_above(&self) -> (channel: ChannelId) {
        self.from_above
    }

    fn get_send_down(&self) -> (channel: ChannelId) {
        self.sender
    }

    fn process_pdu(&mut self, pdu: Frame) -> (out: Option<Vec<u8>>) {
        None
    }
}

} // verus!
