use rosi::common::Serialise;
use rosi::protocols::ethernet::EtherType;

#[test]
fn test_display() {
    let et = EtherType::from(100);
    assert_eq!(et, EtherType::PayloadLength(100));

    println!("{}", et.to_string());

    let et = EtherType::from(1501);
    assert_eq!(et, EtherType::Unknown(1501));

    println!("{}", et.to_string());

    println!(
        "{} {} {}",
        EtherType::Arp.to_string(),
        EtherType::Ipv4.to_string(),
        EtherType::Ipv6.to_string()
    )
}

#[test]
fn ethertype_texts() {
    assert_eq!(EtherType::from(100).to_string(), "PayloadLength(100)");
    assert_eq!(EtherType::from(0).to_string(), "PayloadLength(0)");
    assert_eq!(EtherType::from(1501).to_string(), "Unknown(05dd)");
    assert_eq!(EtherType::from(0xffff).to_string(), "Unknown(ffff)");
    assert_eq!(EtherType::Ipv4.to_string(), "Ipv4");
    assert_eq!(EtherType::Arp.to_string(), "Arp");
    assert_eq!(EtherType::WakeOnLan.to_string(), "WakeOnLan");
    assert_eq!(EtherType::VlanTaggedFrame.to_string(), "VlanTaggedFrame");
    assert_eq!(EtherType::Ipv6.to_string(), "Ipv6");
    assert_eq!(EtherType::ServiceVlanTag.to_string(), "ServiceVlanTag");
}

#[test]
fn ethertype_codes() {
    assert_eq!(EtherType::from(1500), EtherType::PayloadLength(1500));
    assert_eq!(EtherType::from(0x0800), EtherType::Ipv4);
    assert_eq!(EtherType::from(0x0806), EtherType::Arp);
    assert_eq!(EtherType::from(0x0842), EtherType::WakeOnLan);
    assert_eq!(EtherType::from(0x8100), EtherType::VlanTaggedFrame);
    assert_eq!(EtherType::from(0x86dd), EtherType::Ipv6);
    assert_eq!(EtherType::from(0x88a8), EtherType::ServiceVlanTag);
    assert_eq!(EtherType::from([0x08, 0x06]), EtherType::Arp);
    assert_eq!(u16::from(&EtherType::Ipv6), 0x86dd);
    assert_eq!(<[u8; 2]>::from(&EtherType::Ipv6), [0x86, 0xdd]);
    assert!(EtherType::VlanTaggedFrame.tags_vlan());
    assert!(EtherType::ServiceVlanTag.tags_vlan());
    assert!(!EtherType::Ipv4.tags_vlan());
}

#[test]
fn every_ethertype_code_comes_back() {
    for code in 0..=u16::MAX {
        let et = EtherType::from(code);
        assert_eq!(u16::from(&et), code);
        let mut buf = [0u8; 2];
        assert_eq!(et.serialise(&mut buf), 2);
        assert_eq!(buf, code.to_be_bytes());
        assert_eq!(EtherType::deserialise(&buf).unwrap(), et);
    }
}

#[test]
fn ethertype_needs_two_bytes() {
    assert!(EtherType::deserialise(&[0x08]).is_err());
    assert!(EtherType::deserialise(&[]).is_err());
    assert_eq!(EtherType::deserialise(&[0x08, 0x00, 0xff]).unwrap(), EtherType::Ipv4);
}
