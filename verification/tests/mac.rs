use rosi::common::{Address, DeserialiseError, MacAddress, Serialise};

#[test]
fn test_macaddress() {
    let mac = MacAddress::from([0x18, 0x1d, 0xfa, 0xf4, 0xe8, 0x22]);

    let mac_u64 = u64::from(mac);
    let new_mac = MacAddress::from(mac_u64);
    assert_eq!(mac, new_mac);

    let mut buf = [0u8; 6];
    assert_eq!(mac.serialise(&mut buf), 6);
    let new_mac = MacAddress::deserialise(&buf).unwrap();
    assert_eq!(mac, new_mac);

    let new_mac = MacAddress::from(buf);
    assert_eq!(mac, new_mac);

    let mac = MacAddress::from_hex("fe:71:4d:96:e5:95").unwrap();
    assert_eq!(mac.to_string(), "fe:71:4d:96:e5:95");
}

#[test]
fn mac_as_a_number() {
    let mac = MacAddress::from([0x18, 0x1d, 0xfa, 0xf4, 0xe8, 0x22]);
    assert_eq!(u64::from(mac), 0x181d_faf4_e822);
    // The two bytes above the address are cut off.
    assert_eq!(MacAddress::from(0xabcd_181d_faf4_e822u64), mac);
    assert_eq!(<[u8; 6]>::from(mac), [0x18, 0x1d, 0xfa, 0xf4, 0xe8, 0x22]);
    assert_eq!(mac.bytes(), &[0x18, 0x1d, 0xfa, 0xf4, 0xe8, 0x22]);
    assert_eq!(MacAddress::BYTE_LENGTH, 6);
    assert_eq!(mac.byte_length(), 6);
    assert_eq!(MacAddress::default(), MacAddress::from([0u8; 6]));
    assert_ne!(mac, MacAddress::default());
}

#[test]
fn mac_from_text() {
    let mac = MacAddress::from([0x00, 0x11, 0x5d, 0x48, 0x2f, 0x53]);
    assert_eq!(MacAddress::from_hex("00:11:5d:48:2f:53"), Some(mac));
    assert_eq!(MacAddress::from_hex("00:11:5D:48:2F:53"), Some(mac));
    assert_eq!(
        MacAddress::from_hex("aB:cD:eF:Ab:Cd:Ef"),
        Some(MacAddress::from([0xab, 0xcd, 0xef, 0xab, 0xcd, 0xef]))
    );
    assert_eq!(MacAddress::from_hex(""), None);
    assert_eq!(MacAddress::from_hex("00:11:5d:48:2f"), None);
    assert_eq!(MacAddress::from_hex("00:11:5d:48:2f:53:00"), None);
    assert_eq!(MacAddress::from_hex("00:11:5d:48:2f:5"), None);
    assert_eq!(MacAddress::from_hex("00:11:5d:48:2f:533"), None);
    assert_eq!(MacAddress::from_hex("00:11:5d:48:2f:5g"), None);
    assert_eq!(MacAddress::from_hex("00-11-5d-48-2f-53"), None);
    assert_eq!(MacAddress::from_hex("00:11:5d:48:2f:53 "), None);
    assert_eq!(MacAddress::from_hex("001:1:5d:48:2f:53"), None);
    assert_eq!(MacAddress::from_hex("00:11:5d:48:2f:\u{e9}"), None);
}

#[test]
fn mac_to_text() {
    assert_eq!(MacAddress::default().to_string(), "00:00:00:00:00:00");
    assert_eq!(
        MacAddress::from([0x0a, 0xb0, 0xff, 0x01, 0x10, 0x9f]).to_string(),
        "0a:b0:ff:01:10:9f"
    );
}

#[test]
fn mac_from_a_short_buffer() {
    match MacAddress::deserialise(&[1, 2, 3, 4, 5]) {
        Err(DeserialiseError::BufferTooSmall(entity, required, actual)) => {
            assert_eq!(entity, "MacAddress");
            assert_eq!(required, 6);
            assert_eq!(actual, 5);
        }
        other => panic!("{:?}", other),
    }
    let mac = MacAddress::deserialise(&[1, 2, 3, 4, 5, 6, 7]).unwrap();
    assert_eq!(mac, MacAddress::from([1, 2, 3, 4, 5, 6]));
}

#[test]
fn mac_is_written_to_the_front_only() {
    let mac = MacAddress::from([1, 2, 3, 4, 5, 6]);
    let mut buf = [0xeeu8; 8];
    assert_eq!(mac.serialise(&mut buf), 6);
    assert_eq!(buf, [1, 2, 3, 4, 5, 6, 0xee, 0xee]);
}
