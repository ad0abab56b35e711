use rosi::common::{Ipv4Address, MacAddress, Serialise};
use rosi::ethernet::{EthernetService, FrameFilter};
use rosi::netservice::{
    process, Action, ActionType, ChannelId, FilterAction, NetService, Outcome, Stack,
};
use rosi::protocols::arp::{Operation, Packet};
use rosi::protocols::ethernet::{EtherType, Frame};
use rosi::responder::{respond, ArpResponder, Reply};

fn arp_frame() -> Vec<u8> {
    let mut bytes = vec![
        0xff, 0xff, 0xff, 0xff, 0xff, 0xff, 0x00, 0x11, 0x5d, 0x48, 0x2f, 0x53, 0x08, 0x06,
    ];
    bytes.extend_from_slice(&[
        0x00, 0x01, 0x08, 0x00, 6, 4, 0x00, 0x01, 0x00, 0x11, 0x5d, 0x48, 0x2f, 0x53, 192, 168,
        0, 1, 0, 0, 0, 0, 0, 0, 192, 168, 1, 1,
    ]);
    bytes
}

fn ipv4_frame() -> Vec<u8> {
    vec![2, 2, 2, 2, 2, 2, 1, 1, 1, 1, 1, 1, 0x08, 0x00, 0x45, 0x00]
}

fn service() -> EthernetService {
    EthernetService::new(ChannelId(1), ChannelId(2), ChannelId(0))
}

#[test]
fn actions_by_name() {
    assert_eq!(ActionType::Drop.name(), "DROP");
    assert_eq!(ActionType::Process.name(), "PROCESS");
    assert_eq!(ActionType::ForwardTo(ChannelId(3)).name(), "FORWARD");
    assert_eq!(FilterAction::Block.log(), FilterAction::LogAndBlock);
    assert_eq!(FilterAction::Process.log(), FilterAction::LogAndProcess);
    assert_eq!(
        FilterAction::Unwrap(ChannelId(4)).log(),
        FilterAction::LogAndUnwrap(ChannelId(4))
    );
    assert_eq!(FilterAction::LogAndBlock.log(), FilterAction::LogAndBlock);
    assert_eq!(FilterAction::LogAndProcess.log(), FilterAction::LogAndProcess);
    assert_eq!(
        FilterAction::LogAndUnwrap(ChannelId(4)).log(),
        FilterAction::LogAndUnwrap(ChannelId(4))
    );
    assert!(FilterAction::LogAndProcess.logs());
    assert!(!FilterAction::Process.logs());
    assert_eq!(FilterAction::LogAndBlock.action_type(), ActionType::Drop);
    assert_eq!(FilterAction::Process.action_type(), ActionType::Process);
    assert_eq!(
        FilterAction::LogAndUnwrap(ChannelId(9)).action_type(),
        ActionType::ForwardTo(ChannelId(9))
    );
    assert_eq!(FilterAction::unwrap(&service()), FilterAction::Unwrap(ChannelId(1)));
}

#[test]
fn a_rule_applies_by_its_filter() {
    let s = service();
    let arp = Frame::deserialise(&arp_frame()).unwrap();
    let ip = Frame::deserialise(&ipv4_frame()).unwrap();
    let rule = Action::new(ActionType::Drop, Some(FrameFilter::EtherType(EtherType::Arp)), false);
    assert!(rule.should_process(&s, &arp));
    assert!(!rule.should_process(&s, &ip));
    let to = Action::new(
        ActionType::Drop,
        Some(FrameFilter::Destination(MacAddress::from([2; 6]))),
        false,
    );
    assert!(!to.should_process(&s, &arp));
    assert!(to.should_process(&s, &ip));
    let from = Action::new(
        ActionType::Drop,
        Some(FrameFilter::Source(MacAddress::from([1; 6]))),
        false,
    );
    assert!(!from.should_process(&s, &arp));
    assert!(from.should_process(&s, &ip));
    let any: Action<FrameFilter> = Action::new(ActionType::Drop, None, true);
    assert!(any.should_process(&s, &arp));
    assert!(any.should_process(&s, &ip));
}

#[test]
fn without_rules_everything_is_dropped() {
    let mut s = service();
    let step = process(&mut s, &arp_frame()).unwrap();
    assert!(step.log.is_none());
    assert!(matches!(step.outcome, Outcome::Dropped));
}

#[test]
fn the_first_rule_that_applies_decides() {
    let mut s = service();
    s.add_action(Some(FrameFilter::EtherType(EtherType::Ipv6)), FilterAction::Block);
    s.add_action(
        Some(FrameFilter::EtherType(EtherType::Arp)),
        FilterAction::Unwrap(ChannelId(7)),
    );
    s.add_action(None, FilterAction::Block.log());
    s.add_action(
        Some(FrameFilter::EtherType(EtherType::Arp)),
        FilterAction::Unwrap(ChannelId(8)),
    );
    assert_eq!(s.actions().len(), 4);
    assert_eq!(s.actions()[1].action, ActionType::ForwardTo(ChannelId(7)));
    assert!(!s.actions()[1].log);
    assert!(s.actions()[2].log);

    let step = process(&mut s, &arp_frame()).unwrap();
    assert!(step.log.is_none());
    match step.outcome {
        Outcome::Forward { to, bytes } => {
            assert_eq!(to, ChannelId(7));
            assert_eq!(bytes, arp_frame()[14..].to_vec());
        }
        other => panic!("{:?}", other),
    }

    let step = process(&mut s, &ipv4_frame()).unwrap();
    let frame = Frame::deserialise(&ipv4_frame()).unwrap();
    assert_eq!(step.log, Some(format!("DROP {}", frame.to_string())));
    assert!(matches!(step.outcome, Outcome::Dropped));
}

#[test]
fn processing_and_logging() {
    let mut s = service();
    s.add_action(Some(FrameFilter::EtherType(EtherType::Ipv4)), FilterAction::Process.log());
    s.add_action(None, FilterAction::Unwrap(ChannelId(5)).log());
    let step = process(&mut s, &ipv4_frame()).unwrap();
    assert!(step.log.unwrap().starts_with("PROCESS Frame: 16 bytes\n"));
    assert!(matches!(step.outcome, Outcome::Processed));
    let step = process(&mut s, &arp_frame()).unwrap();
    assert!(step.log.unwrap().starts_with("FORWARD Frame: 42 bytes\n"));
    assert!(matches!(step.outcome, Outcome::Forward { to: ChannelId(5), .. }));
}

#[test]
fn bytes_that_are_no_frame_give_the_error() {
    let mut s = service();
    s.add_action(None, FilterAction::Process);
    assert!(process(&mut s, &[0u8; 13]).is_err());
    assert_eq!(s.actions().len(), 1);
}

#[test]
fn stacking_wires_two_services() {
    let mut lower = service();
    let mut upper = EthernetService::new(ChannelId(11), ChannelId(12), ChannelId(13));
    lower.stack(&mut upper, Some(FrameFilter::EtherType(EtherType::Arp)));
    assert_eq!(upper.get_send_down(), ChannelId(2));
    assert_eq!(upper.get_send_up(), ChannelId(11));
    assert_eq!(upper.get_send_from_above(), ChannelId(12));
    assert_eq!(lower.get_send_down(), ChannelId(0));
    assert_eq!(lower.actions().len(), 1);
    assert_eq!(lower.actions()[0].action, ActionType::ForwardTo(ChannelId(11)));
    assert!(!lower.actions()[0].log);
    match process(&mut lower, &arp_frame()).unwrap().outcome {
        Outcome::Forward { to, bytes } => {
            assert_eq!(to, ChannelId(11));
            assert_eq!(bytes.len(), 28);
        }
        other => panic!("{:?}", other),
    }
    assert!(matches!(process(&mut lower, &ipv4_frame()).unwrap().outcome, Outcome::Dropped));

    lower.set_send_down(ChannelId(21));
    assert_eq!(lower.get_send_down(), ChannelId(21));
    lower.add_encapsulated_service(ChannelId(30), None);
    assert_eq!(lower.actions()[1].action, ActionType::ForwardTo(ChannelId(30)));
}

#[test]
fn an_arp_request_is_answered() {
    let frame = Frame::deserialise(&arp_frame()).unwrap();
    match respond(&frame).unwrap() {
        Reply::Answer { request, response, frame: back } => {
            assert_eq!(request.operation(), Operation::Request);
            assert_eq!(response.operation(), Operation::Response);
            assert_eq!(response.sha().to_string(), "00:11:5d:48:2f:53");
            assert_eq!(response.spa().to_string(), "192.168.1.1");
            assert_eq!(response.tha().to_string(), "00:11:5d:48:2f:53");
            assert_eq!(response.tpa().to_string(), "192.168.0.1");
            assert_eq!(back.destination(), frame.source());
            assert_eq!(back.source(), frame.source());
            assert_eq!(back.ethertype(), EtherType::Arp);
            assert_eq!(back.byte_length(), 42);
            let mut inner = vec![0u8; 28];
            response.serialise(&mut inner);
            assert_eq!(back.data(), &inner[..]);
            assert_eq!(&inner[6..8], &[0, 2]);
        }
        other => panic!("{:?}", other),
    }
}

#[test]
fn other_frames_are_ignored() {
    let frame = Frame::deserialise(&ipv4_frame()).unwrap();
    assert!(matches!(respond(&frame).unwrap(), Reply::Ignored(EtherType::Ipv4)));
    let broken = Frame::new(
        MacAddress::default(),
        MacAddress::default(),
        EtherType::Arp,
        vec![0, 1, 8, 0, 6, 4, 0, 9],
    );
    assert!(respond(&broken).is_err());
    let packet = Packet::request(
        MacAddress::default().into(),
        Ipv4Address::from(1u32).into(),
        MacAddress::default().into(),
        Ipv4Address::from(2u32).into(),
    );
    assert!(packet.is_some());
}

#[test]
fn the_responder_sends_its_answer_down() {
    let mut responder = ArpResponder::new(ChannelId(1), ChannelId(2), ChannelId(3));
    responder.add_action(Some(FrameFilter::EtherType(EtherType::Ipv6)), FilterAction::Block);
    responder.add_action(None, FilterAction::Process.log());
    assert_eq!(responder.get_send_up(), ChannelId(1));
    assert_eq!(responder.get_send_from_above(), ChannelId(2));

    let step = process(&mut responder, &arp_frame()).unwrap();
    assert!(step.log.unwrap().starts_with("PROCESS Frame: 42 bytes\n"));
    match step.outcome {
        Outcome::Send { to, bytes } => {
            assert_eq!(to, ChannelId(3));
            assert_eq!(bytes.len(), 42);
            // To the asker, from the asker's own address, with type ARP.
            assert_eq!(&bytes[..6], &[0x00, 0x11, 0x5d, 0x48, 0x2f, 0x53]);
            assert_eq!(&bytes[6..12], &[0x00, 0x11, 0x5d, 0x48, 0x2f, 0x53]);
            assert_eq!(&bytes[12..14], &[0x08, 0x06]);
            let reply = Packet::deserialise(&bytes[14..]).unwrap();
            assert_eq!(reply.operation(), Operation::Response);
            assert_eq!(reply.spa().to_string(), "192.168.1.1");
            assert_eq!(reply.tpa().to_string(), "192.168.0.1");
        }
        other => panic!("{:?}", other),
    }

    // A frame that is no ARP request is processed, and nothing is sent.
    let step = process(&mut responder, &ipv4_frame()).unwrap();
    assert!(matches!(step.outcome, Outcome::Processed));

    responder.set_send_down(ChannelId(9));
    match process(&mut responder, &arp_frame()).unwrap().outcome {
        Outcome::Send { to, .. } => assert_eq!(to, ChannelId(9)),
        other => panic!("{:?}", other),
    }
    assert_eq!(responder.actions().len(), 2);
}
