use rosi::common::{DeserialiseError, Ipv4Address, Layer, MacAddress, Pdu, Serialise, Wrapper};
use rosi::protocols::arp::Packet;
use rosi::protocols::ethernet::{EtherType, Frame};

#[test]
fn test_display_frame() {
    let frame = Frame::new_vlan_tagged(
        MacAddress::from_hex("fe:77:4d:96:d5:95").unwrap(),
        MacAddress::from_hex("33:33:00:00:00:02").unwrap(),
        EtherType::VlanTaggedFrame,
        0xdead,
        EtherType::Ipv4,
        vec![0, 1, 2, 3, 4, 5, 6, 7, 8, 9, 10, 11, 12, 13, 14, 15, 16, 17],
    );

    println!("{}", frame.to_string());
}

fn tagged() -> Frame {
    Frame::new_vlan_tagged(
        MacAddress::from_hex("fe:77:4d:96:d5:95").unwrap(),
        MacAddress::from_hex("33:33:00:00:00:02").unwrap(),
        EtherType::VlanTaggedFrame,
        0xdead,
        EtherType::Ipv4,
        vec![0, 1, 2, 3, 4, 5, 6, 7, 8, 9, 10, 11, 12, 13, 14, 15, 16, 17],
    )
}

#[test]
fn frame_text_is_exact() {
    assert_eq!(
        tagged().to_string(),
        "Frame: 36 bytes\n\
         -----------------\n\
         Destination: fe:77:4d:96:d5:95\n\
         Source:      33:33:00:00:00:02\n\
         EtherType:   Ipv4\n\
         FCS:         00000000\n\
         \n\
         VLAN Tagging:\n\
         -----------------\n\
         TPID:        VlanTaggedFrame\n\
         TCI:         57005\n\
         \n\
         Data:\n\
         -----------------\n\
         00 01 02 03 04 05 06 07 08 09 0a 0b 0c 0d 0e 0f \n\
         10 11 \n\
         \n"
    );
    let plain = Frame::new(
        MacAddress::default(),
        MacAddress::from([1, 2, 3, 4, 5, 6]),
        EtherType::Arp,
        vec![],
    );
    assert_eq!(
        plain.to_string(),
        "Frame: 14 bytes\n\
         -----------------\n\
         Destination: 00:00:00:00:00:00\n\
         Source:      01:02:03:04:05:06\n\
         EtherType:   Arp\n\
         FCS:         00000000\n\
         \n"
    );
    let full =
        Frame::new(MacAddress::default(), MacAddress::default(), EtherType::Arp, vec![0xab; 16]);
    assert!(full
        .to_string()
        .ends_with(
            "Data:\n-----------------\nab ab ab ab ab ab ab ab ab ab ab ab ab ab ab ab \n\n"
        ));
}

#[test]
fn tagged_frame_on_the_wire() {
    let frame = tagged();
    assert_eq!(frame.byte_length(), 36);
    let mut bytes = vec![0u8; 36];
    assert_eq!(frame.serialise(&mut bytes), 36);
    assert_eq!(
        bytes,
        vec![
            0xfe, 0x77, 0x4d, 0x96, 0xd5, 0x95, 0x33, 0x33, 0x00, 0x00, 0x00, 0x02, 0x81, 0x00,
            0xde, 0xad, 0x08, 0x00, 0, 1, 2, 3, 4, 5, 6, 7, 8, 9, 10, 11, 12, 13, 14, 15, 16, 17,
        ]
    );
    let read = Frame::deserialise(&bytes).unwrap();
    assert_eq!(read.tpid(), Some(EtherType::VlanTaggedFrame));
    assert_eq!(read.tci(), Some(0xdead));
    assert_eq!(read.ethertype(), EtherType::Ipv4);
    assert_eq!(read.destination(), frame.destination());
    assert_eq!(read.source(), frame.source());
    assert_eq!(read.data(), frame.data());
    assert_eq!(read.fcs(), 0);
    assert_eq!(read.get_fcs(), None);
}

#[test]
fn service_tag_is_a_tag_too() {
    let mut bytes = vec![0u8; 12];
    bytes.extend_from_slice(&[0x88, 0xa8, 0x00, 0x07, 0x86, 0xdd, 1, 2, 3]);
    let read = Frame::deserialise(&bytes).unwrap();
    assert_eq!(read.tpid(), Some(EtherType::ServiceVlanTag));
    assert_eq!(read.tci(), Some(7));
    assert_eq!(read.ethertype(), EtherType::Ipv6);
    assert_eq!(read.data(), &[1, 2, 3]);
}

#[test]
fn untagged_frame_on_the_wire() {
    let frame = Frame::new(
        MacAddress::from([1, 2, 3, 4, 5, 6]),
        MacAddress::from([7, 8, 9, 10, 11, 12]),
        EtherType::Arp,
        vec![0xaa, 0xbb],
    );
    assert_eq!(frame.tpid(), None);
    assert_eq!(frame.tci(), None);
    let mut bytes = vec![0xffu8; 20];
    assert_eq!(frame.serialise(&mut bytes), 16);
    assert_eq!(
        bytes,
        vec![1, 2, 3, 4, 5, 6, 7, 8, 9, 10, 11, 12, 0x08, 0x06, 0xaa, 0xbb, 0xff, 0xff, 0xff, 0xff]
    );
    let read = Frame::deserialise(&bytes).unwrap();
    assert_eq!(read.ethertype(), EtherType::Arp);
    assert_eq!(read.tpid(), None);
    assert_eq!(read.tci(), None);
    // With a type in place of a length, the payload is the rest of the buffer.
    assert_eq!(read.data(), &[0xaa, 0xbb, 0xff, 0xff, 0xff, 0xff]);
}

#[test]
fn a_length_cuts_the_payload() {
    let mut bytes = vec![0u8; 12];
    bytes.extend_from_slice(&[0x00, 0x03, 9, 8, 7, 6, 5]);
    let read = Frame::deserialise(&bytes).unwrap();
    assert_eq!(read.ethertype(), EtherType::PayloadLength(3));
    assert_eq!(read.data(), &[9, 8, 7]);

    match Frame::deserialise(&bytes[..16]) {
        Err(DeserialiseError::BufferTooSmall(entity, required, actual)) => {
            assert_eq!((entity, required, actual), ("Frame", 17, 16));
        }
        other => panic!("{:?}", other),
    }
}

#[test]
fn short_frames_are_refused() {
    let frame = tagged();
    let mut bytes = vec![0u8; 36];
    frame.serialise(&mut bytes);
    let fault = |n: usize| match Frame::deserialise(&bytes[..n]) {
        Err(DeserialiseError::BufferTooSmall(entity, required, actual)) => {
            (entity, required, actual)
        }
        other => panic!("{:?}", other),
    };
    assert_eq!(fault(0), ("MacAddress", 6, 0));
    assert_eq!(fault(5), ("MacAddress", 6, 5));
    assert_eq!(fault(11), ("MacAddress", 6, 5));
    assert_eq!(fault(13), ("EtherType", 2, 1));
    assert_eq!(fault(15), ("u16", 2, 1));
    assert_eq!(fault(17), ("EtherType", 2, 1));
    assert!(Frame::deserialise(&bytes[..18]).unwrap().data().is_empty());
}

#[test]
fn a_frame_wraps_a_packet() {
    let packet = Packet::request(
        MacAddress::from_hex("00:11:5d:48:2f:53").unwrap().into(),
        Ipv4Address::from([192, 168, 0, 1]).into(),
        MacAddress::default().into(),
        Ipv4Address::from([192, 168, 1, 1]).into(),
    )
    .unwrap();
    let mut frame = Frame::new(
        MacAddress::from([0xff; 6]),
        MacAddress::from_hex("00:11:5d:48:2f:53").unwrap(),
        EtherType::Arp,
        vec![1, 2, 3],
    );
    frame.wrap(&packet);
    assert_eq!(frame.data().len(), 28);
    assert_eq!(frame.byte_length(), 42);
    assert_eq!(&frame.data()[..8], &[0, 1, 8, 0, 6, 4, 0, 1]);
    assert_eq!(frame.unwrap_data(), frame.data().to_vec());
    let inner = Packet::deserialise(&frame.unwrap_data()).unwrap();
    assert_eq!(inner.tpa().to_string(), "192.168.1.1");
    assert_eq!(frame.log("DROP"), format!("DROP {}", frame.to_string()));
}
