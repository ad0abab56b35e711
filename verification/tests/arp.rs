use rosi::common::{DeserialiseError, Ipv4Address, Ipv6Address, MacAddress, Serialise};
use rosi::protocols::arp::{HardwareAddress, Htype, Operation, Packet, ProtocolAddress};
use rosi::protocols::ethernet::EtherType;

#[test]
fn test_arp_multiple_new() {
    let arp = Packet::request(
        MacAddress::from_hex("00:11:5d:48:2f:53").unwrap().into(),
        Ipv4Address::from([192, 168, 0, 1]).into(),
        MacAddress::default().into(),
        Ipv4Address::from([192, 168, 1, 1]).into(),
    )
    .unwrap();

    println!("{}", arp.to_string());

    let mut bytes = vec![0u8; arp.byte_length()];
    arp.serialise(&mut bytes);

    let new_arp = Packet::deserialise(&bytes).unwrap();
    println!("{}", new_arp.to_string())
}

fn request_bytes() -> Vec<u8> {
    vec![
        0x00, 0x01, 0x08, 0x00, 6, 4, 0x00, 0x01, 0x00, 0x11, 0x5d, 0x48, 0x2f, 0x53, 192, 168,
        0, 1, 0, 0, 0, 0, 0, 0, 192, 168, 1, 1,
    ]
}

#[test]
fn arp_request_and_reply() {
    let request = Packet::deserialise(&request_bytes()).unwrap();
    assert_eq!(request.operation(), Operation::Request);
    assert_eq!(request.htype(), Htype::Ethernet);
    assert_eq!(request.ptype(), EtherType::Ipv4);
    assert_eq!(request.hlen(), 6);
    assert_eq!(request.plen(), 4);
    assert_eq!(request.spa().to_string(), "192.168.0.1");
    assert_eq!(request.sha().to_string(), "00:11:5d:48:2f:53");
    assert_eq!(request.tha().to_string(), "00:00:00:00:00:00");
    assert_eq!(request.tpa().to_string(), "192.168.1.1");
    assert_eq!(
        request.to_string(),
        "ARP Request (Hardware: Ethernet, Protocol: Ipv4) - SHA: 00:11:5d:48:2f:53, \
         SPA: 192.168.0.1, THA: 00:00:00:00:00:00, TPA: 192.168.1.1"
    );

    let reply =
        Packet::response(request.tha(), request.tpa(), request.sha(), request.spa()).unwrap();
    assert_eq!(reply.byte_length(), 28);
    let mut bytes = vec![0u8; 28];
    assert_eq!(reply.serialise(&mut bytes), 28);
    assert_eq!(&bytes[6..8], &[0, 2]);
    assert_eq!(
        bytes,
        vec![
            0x00, 0x01, 0x08, 0x00, 6, 4, 0x00, 0x02, 0, 0, 0, 0, 0, 0, 192, 168, 1, 1, 0x00,
            0x11, 0x5d, 0x48, 0x2f, 0x53, 192, 168, 0, 1,
        ]
    );
}

#[test]
fn arp_request_bytes_are_exact() {
    let arp = Packet::request(
        MacAddress::from_hex("00:11:5d:48:2f:53").unwrap().into(),
        Ipv4Address::from([192, 168, 0, 1]).into(),
        MacAddress::default().into(),
        Ipv4Address::from([192, 168, 1, 1]).into(),
    )
    .unwrap();
    let mut bytes = vec![0xffu8; 30];
    assert_eq!(arp.serialise(&mut bytes), 28);
    assert_eq!(&bytes[..28], &request_bytes()[..]);
    assert_eq!(&bytes[28..], &[0xff, 0xff]);
}

#[test]
fn arp_families_must_agree() {
    let mac: HardwareAddress = MacAddress::default().into();
    let v4: ProtocolAddress = Ipv4Address::from([10, 0, 0, 1]).into();
    let v6: ProtocolAddress = Ipv6Address::from(1u128).into();
    assert!(Packet::request(mac, v4, mac, v4).is_some());
    assert!(Packet::request(mac, v6, mac, v6).is_some());
    assert!(Packet::request(mac, v4, mac, v6).is_none());
    assert!(Packet::response(mac, v6, mac, v4).is_none());
    let packet = Packet::response(mac, v6, mac, v6).unwrap();
    assert_eq!(packet.ptype(), EtherType::Ipv6);
    assert_eq!(packet.plen(), 16);
    assert_eq!(packet.byte_length(), 8 + 12 + 32);
    let mut bytes = vec![0u8; 52];
    assert_eq!(packet.serialise(&mut bytes), 52);
    let back = Packet::deserialise(&bytes).unwrap();
    assert_eq!(back.operation(), Operation::Response);
    assert_eq!(
        back.spa().to_string(),
        "0000:0000:0000:0000:0000:0000:0000:0001"
    );
}

fn message(e: DeserialiseError) -> String {
    match e {
        DeserialiseError::Static(s) => s.to_string(),
        DeserialiseError::Heap(s) => s,
        DeserialiseError::BufferTooSmall(entity, required, actual) => {
            format!("{} {} {}", entity, required, actual)
        }
    }
}

#[test]
fn arp_decode_errors() {
    let good = request_bytes();

    let mut unknown = good.clone();
    unknown[7] = 3;
    assert_eq!(message(Packet::deserialise(&unknown).unwrap_err()), "unknown operation: 3");
    unknown[6] = 0x12;
    unknown[7] = 0x34;
    assert_eq!(message(Packet::deserialise(&unknown).unwrap_err()), "unknown operation: 4660");

    let mut arcnet = good.clone();
    arcnet[1] = 7;
    assert_eq!(
        message(Packet::deserialise(&arcnet).unwrap_err()),
        "address type not yet supported"
    );
    let mut other = good.clone();
    other[2] = 0x08;
    other[3] = 0x06;
    assert_eq!(
        message(Packet::deserialise(&other).unwrap_err()),
        "address type not yet supported"
    );

    let mut long = good.clone();
    long[4] = 8;
    assert_eq!(
        message(Packet::deserialise(&long).unwrap_err()),
        "address length disagrees with the address type"
    );

    assert_eq!(message(Packet::deserialise(&good[..1]).unwrap_err()), "Htype 2 1");
    assert_eq!(message(Packet::deserialise(&good[..3]).unwrap_err()), "EtherType 2 1");
    assert_eq!(message(Packet::deserialise(&good[..4]).unwrap_err()), "u8 1 0");
    assert_eq!(message(Packet::deserialise(&good[..5]).unwrap_err()), "u8 1 0");
    assert_eq!(message(Packet::deserialise(&good[..7]).unwrap_err()), "Operation 2 1");
    assert_eq!(message(Packet::deserialise(&good[..13]).unwrap_err()), "MacAddress 6 5");
    assert_eq!(message(Packet::deserialise(&good[..17]).unwrap_err()), "Ipv4Address 4 3");
    assert_eq!(message(Packet::deserialise(&good[..23]).unwrap_err()), "MacAddress 6 5");
    assert_eq!(message(Packet::deserialise(&good[..27]).unwrap_err()), "Ipv4Address 4 3");
    assert!(Packet::deserialise(&good[..28]).is_ok());
}

#[test]
fn arp_codes() {
    assert_eq!(Htype::from(1), Htype::Ethernet);
    assert_eq!(Htype::from(6), Htype::IEEE802);
    assert_eq!(Htype::from(7), Htype::Arcnet);
    assert_eq!(Htype::from(15), Htype::FrameRelay);
    assert_eq!(Htype::from(16), Htype::Atm16);
    assert_eq!(Htype::from(17), Htype::Hdlc);
    assert_eq!(Htype::from(18), Htype::FibreChannel);
    assert_eq!(Htype::from(19), Htype::Atm19);
    assert_eq!(Htype::from(20), Htype::SerialLine);
    assert_eq!(Htype::from(2), Htype::Unknown(2));
    assert_eq!(Htype::from([0, 17]), Htype::Hdlc);
    assert_eq!(<[u8; 2]>::from(Htype::Unknown(0x1234)), [0x12, 0x34]);
    assert_eq!(Operation::from(1), Operation::Request);
    assert_eq!(Operation::from(2), Operation::Response);
    assert_eq!(Operation::from(0), Operation::Unknown(0));
    assert_eq!(Htype::FibreChannel.to_string(), "FibreChannel");
    assert_eq!(Htype::Unknown(4711).to_string(), "4711");
    assert_eq!(Operation::Response.to_string(), "Response");
    assert_eq!(Operation::Unknown(0).to_string(), "0");
    for code in 0..=u16::MAX {
        assert_eq!(u16::from(Htype::from(code)), code);
        assert_eq!(u16::from(Operation::from(code)), code);
        let mut buf = [0u8; 2];
        Htype::from(code).serialise(&mut buf);
        assert_eq!(buf, code.to_be_bytes());
        assert_eq!(Htype::deserialise(&buf).unwrap(), Htype::from(code));
        assert_eq!(Operation::deserialise(&buf).unwrap(), Operation::from(code));
    }
}

#[test]
fn addresses_by_type_code() {
    let bytes = [1u8, 2, 3, 4, 5, 6, 7, 8, 9, 10, 11, 12, 13, 14, 15, 16, 17];
    let mac = HardwareAddress::from_bytes(Htype::Ethernet, &bytes).unwrap();
    assert_eq!(mac.addr_type(), Htype::Ethernet);
    assert_eq!(mac.to_string(), "01:02:03:04:05:06");
    assert_eq!(mac.byte_length(), 6);
    assert!(HardwareAddress::from_bytes(Htype::Hdlc, &bytes).is_err());
    assert!(HardwareAddress::from_bytes(Htype::Ethernet, &bytes[..5]).is_err());
    let v4 = ProtocolAddress::from_bytes(EtherType::Ipv4, &bytes).unwrap();
    assert_eq!(v4.addr_type(), EtherType::Ipv4);
    assert_eq!(v4.to_string(), "1.2.3.4");
    let v6 = ProtocolAddress::from_bytes(EtherType::Ipv6, &bytes).unwrap();
    assert_eq!(v6.addr_type(), EtherType::Ipv6);
    assert_eq!(v6.byte_length(), 16);
    assert_eq!(v6.to_string(), "0102:0304:0506:0708:090a:0b0c:0d0e:0f10");
    assert!(ProtocolAddress::from_bytes(EtherType::Arp, &bytes).is_err());
    assert!(ProtocolAddress::from_bytes(EtherType::Ipv6, &bytes[..15]).is_err());
    let mut out = [0u8; 16];
    assert_eq!(v6.serialise(&mut out), 16);
    assert_eq!(&out[..], &bytes[..16]);
    assert!(HardwareAddress::deserialise(&bytes).is_err());
    assert!(ProtocolAddress::deserialise(&bytes).is_err());
}
