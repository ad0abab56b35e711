use rosi::ipv4::{bool_to_bit, Ipv4Header};

fn sample() -> Ipv4Header {
    Ipv4Header::from_fields(
        4, 5, 0, false, false, false, 0, 84, 37931, false, true, false, 0, 64, 1, 31579,
        2887778305, 2130706433, vec![],
    )
    .unwrap()
}

#[test]
fn test_serde() {
    let hdr = sample();

    let mut bytes = vec![0u8; hdr.get_byte_len()];
    hdr.write_slice(&mut bytes);

    match Ipv4Header::from_slice(&bytes) {
        Some(newhdr) => {
            assert!(newhdr.validate_checksum());
            assert_eq!(newhdr.checksum(), hdr.checksum());
        }
        None => panic!("parsing ipv4 header bytes failed"),
    }
}

#[test]
fn test_bool_to_bit() {
    assert_eq!(1 << 0, bool_to_bit(0, true));
    assert_eq!(1 << 1, bool_to_bit(1, true));
    assert_eq!(1 << 2, bool_to_bit(2, true));
    assert_eq!(1 << 3, bool_to_bit(3, true));
    assert_eq!(1 << 4, bool_to_bit(4, true));
    assert_eq!(1 << 5, bool_to_bit(5, true));
    assert_eq!(1 << 6, bool_to_bit(6, true));
    assert_eq!(1 << 7, bool_to_bit(7, true));
}

#[test]
fn bool_to_bit_of_false_is_zero() {
    for n in 0..8 {
        assert_eq!(bool_to_bit(n, false), 0);
    }
}

#[test]
fn header_bytes_are_exact() {
    let hdr = sample();
    let mut bytes = vec![0xaau8; 24];
    assert_eq!(hdr.write_slice(&mut bytes), 20);
    assert_eq!(
        bytes,
        vec![
            0x45, 0x00, 0x00, 0x54, 0x94, 0x2b, 0x40, 0x00, 0x40, 0x01, 0x7b, 0x5b, 0xac, 0x20,
            0x00, 0x01, 0x7f, 0x00, 0x00, 0x01, 0xaa, 0xaa, 0xaa, 0xaa,
        ]
    );
}

#[test]
fn header_fields_are_read_back() {
    let bytes = [
        0x46u8, 0xb7, 0x01, 0x02, 0x03, 0x04, 0xbf, 0xfe, 0x11, 0x06, 0x12, 0x34, 10, 0, 0, 1,
        10, 0, 0, 2, 1, 2, 3, 4, 9, 9,
    ];
    let hdr = Ipv4Header::from_slice(&bytes).unwrap();
    assert_eq!(hdr.version(), 4);
    assert_eq!(hdr.ihl(), 6);
    assert_eq!(hdr.precedence(), 5);
    assert_eq!(hdr.dtr(), (true, false, true));
    assert_eq!(hdr.total_length(), 0x0102);
    assert_eq!(hdr.identification(), 0x0304);
    assert_eq!(hdr.flags(), (false, true));
    assert_eq!(hdr.fragment_offset(), 0x1ffe);
    assert_eq!(hdr.ttl(), 0x11);
    assert_eq!(hdr.proto(), 6);
    assert_eq!(hdr.checksum(), 0x1234);
    assert_eq!(hdr.source_addr(), 0x0a00_0001);
    assert_eq!(hdr.dest_addr(), 0x0a00_0002);
    assert_eq!(hdr.get_byte_len(), 24);

    let mut out = vec![0u8; 24];
    assert_eq!(hdr.write_slice(&mut out), 24);
    assert_eq!(&out[..], &bytes[..24]);
}

#[test]
fn short_or_malformed_buffers_hold_no_header() {
    assert!(Ipv4Header::from_slice(&[0x45u8; 19]).is_none());
    // Six words announced, five there.
    let mut bytes = [0u8; 20];
    bytes[0] = 0x46;
    assert!(Ipv4Header::from_slice(&bytes).is_none());
    // A header length below five words.
    bytes[0] = 0x44;
    assert!(Ipv4Header::from_slice(&bytes).is_none());
    bytes[0] = 0x45;
    assert!(Ipv4Header::from_slice(&bytes).is_some());
}

#[test]
fn from_fields_refuses_what_does_not_fit() {
    let make = |version, ihl, precedence, reserved_0, fragment_offset, options: Vec<u8>| {
        Ipv4Header::from_fields(
            version, ihl, precedence, false, false, false, reserved_0, 20, 0, false, false,
            false, fragment_offset, 64, 6, 0, 0, 0, options,
        )
    };
    assert!(make(4, 5, 0, 0, 0, vec![]).is_some());
    assert!(make(16, 5, 0, 0, 0, vec![]).is_none());
    assert!(make(4, 4, 0, 0, 0, vec![]).is_none());
    assert!(make(4, 16, 0, 0, 0, vec![0; 44]).is_none());
    assert!(make(4, 5, 8, 0, 0, vec![]).is_none());
    assert!(make(4, 5, 0, 4, 0, vec![]).is_none());
    assert!(make(4, 5, 0, 0, 8192, vec![]).is_none());
    assert!(make(4, 5, 0, 0, 0, vec![0; 4]).is_none());
    assert!(make(4, 6, 0, 0, 0, vec![0; 4]).is_some());
}

#[test]
fn default_header_passes_the_check() {
    let hdr = Ipv4Header::default();
    assert_eq!(hdr.version(), 4);
    assert_eq!(hdr.ihl(), 5);
    assert_eq!(hdr.total_length(), 20);
    assert_eq!(hdr.ttl(), 64);
    assert_eq!(hdr.proto(), 6);
    // 0x4500 + 0x0014 + 0x4006 = 0x851a, complemented.
    assert_eq!(hdr.checksum(), 0x7ae5);
    assert!(hdr.validate_checksum());
}

#[test]
fn setters_keep_the_checksum_right() {
    let mut hdr = Ipv4Header::default();
    hdr.set_precedence(7);
    assert!(hdr.validate_checksum());
    assert_eq!(hdr.precedence(), 7);
    hdr.set_dtr(Some(true), None, Some(true));
    assert!(hdr.validate_checksum());
    assert_eq!(hdr.dtr(), (true, false, true));
    hdr.set_identification(0xffff);
    assert!(hdr.validate_checksum());
    hdr.set_flags(None, Some(true));
    assert!(hdr.validate_checksum());
    assert_eq!(hdr.flags(), (false, true));
    hdr.set_fragment_offset(8191);
    assert!(hdr.validate_checksum());
    assert_eq!(hdr.fragment_offset(), 8191);
    hdr.set_ttl(1);
    assert!(hdr.validate_checksum());
    hdr.set_proto(17);
    assert!(hdr.validate_checksum());
    hdr.set_dest_addr(0xffff_ffff);
    assert!(hdr.validate_checksum());
    assert_eq!(hdr.dest_addr(), 0xffff_ffff);

    let mut bytes = vec![0u8; hdr.get_byte_len()];
    hdr.write_slice(&mut bytes);
    assert_eq!(bytes[0], 0x45);
    assert_eq!(bytes[1], 0xf4);
    assert_eq!(bytes[6], 0x3f);
    assert_eq!(bytes[7], 0xff);
}

#[test]
fn a_wrong_checksum_is_found() {
    let mut bytes = vec![0u8; 20];
    sample().write_slice(&mut bytes);
    bytes[11] ^= 0x01;
    let hdr = Ipv4Header::from_slice(&bytes).unwrap();
    assert!(!hdr.validate_checksum());
    let mut hdr = hdr;
    hdr.generate_checksum();
    assert!(hdr.validate_checksum());
    assert_eq!(hdr.checksum(), 31579);
}

#[test]
fn every_flipped_bit_fails_the_check() {
    let hdr = Ipv4Header::from_fields(
        4, 7, 3, true, false, true, 0, 1500, 7, false, false, true, 185, 9, 17, 0, 0xc0a8_0001,
        0xc0a8_0002, vec![1, 2, 3, 4, 5, 6, 7, 8],
    );
    let mut hdr = hdr.unwrap();
    hdr.generate_checksum();
    assert!(hdr.validate_checksum());
    let mut bytes = vec![0u8; hdr.get_byte_len()];
    assert_eq!(hdr.write_slice(&mut bytes), 28);
    for bit in 0..8 * bytes.len() {
        let mut flipped = bytes.clone();
        flipped[bit / 8] ^= 1 << (bit % 8);
        match Ipv4Header::from_slice(&flipped) {
            Some(read) => assert!(!read.validate_checksum(), "bit {}", bit),
            None => assert!(bit < 4, "bit {}", bit),
        }
    }
}

#[test]
fn a_shorter_header_may_pass_the_check_again() {
    // The options add up to the complement of what the shorter length
    // takes away from the sum of the words.
    let mut hdr = Ipv4Header::from_fields(
        4, 7, 0, false, false, false, 0, 28, 0, false, false, false, 0, 64, 6, 0, 0, 0,
        vec![0xfd, 0xff, 0, 0, 0, 0, 0, 0],
    )
    .unwrap();
    hdr.generate_checksum();
    let mut bytes = vec![0u8; 28];
    hdr.write_slice(&mut bytes);
    bytes[0] ^= 0x02;
    let read = Ipv4Header::from_slice(&bytes).unwrap();
    assert_eq!(read.ihl(), 5);
    assert!(read.validate_checksum());
}
