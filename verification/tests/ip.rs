use rosi::common::text::{append_decimal, append_hex, digit_str, hex_digit_value};
use rosi::common::{Address, Ipv4Address, Ipv6Address, Serialise};
use rosi::protocols::ip::IpProtocol;

#[test]
fn ipv4_addresses() {
    let addr = Ipv4Address::from([192, 168, 0, 1]);
    assert_eq!(addr.to_string(), "192.168.0.1");
    assert_eq!(u32::from(addr), 0xc0a8_0001);
    assert_eq!(Ipv4Address::from(0xc0a8_0001u32), addr);
    assert_eq!(<[u8; 4]>::from(addr), [192, 168, 0, 1]);
    assert_eq!(addr.bytes(), &[192, 168, 0, 1]);
    assert_eq!(Ipv4Address::BYTE_LENGTH, 4);
    assert_eq!(Ipv4Address::default().to_string(), "0.0.0.0");
    assert_eq!(Ipv4Address::from(u32::MAX).to_string(), "255.255.255.255");
    assert_eq!(Ipv4Address::from([10, 9, 100, 99]).to_string(), "10.9.100.99");
    let mut buf = [0u8; 5];
    assert_eq!(addr.serialise(&mut buf), 4);
    assert_eq!(buf, [192, 168, 0, 1, 0]);
    assert_eq!(Ipv4Address::deserialise(&buf).unwrap(), addr);
    assert!(Ipv4Address::deserialise(&buf[..3]).is_err());
    assert_ne!(addr, Ipv4Address::default());
}

#[test]
fn ipv6_addresses() {
    let bytes = [
        0x20, 0x01, 0x0d, 0xb8, 0, 0, 0, 0, 0, 0, 0, 0, 0, 0, 0, 1,
    ];
    let addr = Ipv6Address::from(bytes);
    assert_eq!(addr.to_string(), "2001:0db8:0000:0000:0000:0000:0000:0001");
    assert_eq!(u128::from(addr), 0x2001_0db8_0000_0000_0000_0000_0000_0001);
    assert_eq!(Ipv6Address::from(0x2001_0db8_0000_0000_0000_0000_0000_0001u128), addr);
    assert_eq!(<[u8; 16]>::from(addr), bytes);
    assert_eq!(Ipv6Address::BYTE_LENGTH, 16);
    assert_eq!(addr.byte_length(), 16);
    let mut buf = [0u8; 16];
    assert_eq!(addr.serialise(&mut buf), 16);
    assert_eq!(buf, bytes);
    assert_eq!(Ipv6Address::deserialise(&buf).unwrap(), addr);
    assert!(Ipv6Address::deserialise(&buf[..15]).is_err());
    assert_eq!(
        Ipv6Address::default().to_string(),
        "0000:0000:0000:0000:0000:0000:0000:0000"
    );
}

#[test]
fn ip_protocols() {
    assert_eq!(IpProtocol::from(1), IpProtocol::Icmp);
    assert_eq!(IpProtocol::from(6), IpProtocol::Tcp);
    assert_eq!(IpProtocol::from(0x11), IpProtocol::Udp);
    assert_eq!(IpProtocol::from(0x3a), IpProtocol::Ipv6Icmp);
    assert_eq!(IpProtocol::from(0x3b), IpProtocol::Ipv6NoNxt);
    assert_eq!(IpProtocol::from(0x3c), IpProtocol::Ipv6Opts);
    assert_eq!(IpProtocol::from(0), IpProtocol::Unknown(0));
    assert_eq!(IpProtocol::from([6]), IpProtocol::Tcp);
    assert_eq!(<[u8; 1]>::from(IpProtocol::Udp), [17]);
    assert_eq!(IpProtocol::Tcp.to_string(), "Tcp");
    assert_eq!(IpProtocol::Ipv6NoNxt.to_string(), "Ipv6NoNxt");
    assert_eq!(IpProtocol::Unknown(200).to_string(), "200");
    for code in 0..=u8::MAX {
        assert_eq!(u8::from(IpProtocol::from(code)), code);
        let mut buf = [0u8; 1];
        assert_eq!(IpProtocol::from(code).serialise(&mut buf), 1);
        assert_eq!(buf, [code]);
        assert_eq!(IpProtocol::deserialise(&buf).unwrap(), IpProtocol::from(code));
    }
    assert!(IpProtocol::deserialise(&[]).is_err());
}

#[test]
fn numbers_as_text() {
    let mut s = String::new();
    append_decimal(&mut s, 0);
    s.push(' ');
    append_decimal(&mut s, 9);
    s.push(' ');
    append_decimal(&mut s, 10);
    s.push(' ');
    append_decimal(&mut s, 65535);
    s.push(' ');
    append_decimal(&mut s, u128::MAX);
    assert_eq!(s, "0 9 10 65535 340282366920938463463374607431768211455");
    let mut s = String::from("x");
    append_hex(&mut s, 0x0af, 2);
    append_hex(&mut s, 0x1, 4);
    append_hex(&mut s, 0xdead_beef, 8);
    append_hex(&mut s, 0xdead_beef, 0);
    assert_eq!(s, "xaf0001deadbeef");
    assert_eq!(digit_str(0), "0");
    assert_eq!(digit_str(9), "9");
    assert_eq!(digit_str(10), "a");
    assert_eq!(digit_str(15), "f");
    assert_eq!(hex_digit_value('7'), Some(7));
    assert_eq!(hex_digit_value('c'), Some(12));
    assert_eq!(hex_digit_value('C'), Some(12));
    assert_eq!(hex_digit_value('g'), None);
    assert_eq!(hex_digit_value(':'), None);
}
