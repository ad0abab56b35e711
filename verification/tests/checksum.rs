use rosi::checksum::{add_bytes, add_slice, add_u32, add_word, checksum};

#[test]
fn carry_comes_back_in() {
    assert_eq!(add_word(0, 0), 0);
    assert_eq!(add_word(0x1234, 0x0001), 0x1235);
    assert_eq!(add_word(0xffff, 0x0001), 0x0001);
    assert_eq!(add_word(0xffff, 0xffff), 0xffff);
    assert_eq!(add_word(0x8000, 0x8000), 0x0001);
    assert_eq!(add_word(0xfffe, 0x0001), 0xffff);
    assert_eq!(add_word(0, 0xffff), 0xffff);
}

#[test]
fn bytes_are_big_endian_words() {
    assert_eq!(add_bytes(0, 0x12, 0x34), 0x1234);
    assert_eq!(add_bytes(0xff00, 0x01, 0x02), 0x0003);
    assert_eq!(add_u32(0, 0x1234_5678), 0x68ac);
    assert_eq!(add_u32(1, 0xffff_ffff), 0x0001);
    assert_eq!(add_slice(0, &[]), 0);
    assert_eq!(add_slice(7, &[]), 7);
    assert_eq!(add_slice(0, &[0x12, 0x34, 0x56, 0x78]), 0x68ac);
    assert_eq!(add_slice(0x0001, &[0xff, 0xff, 0xff, 0xff]), 0x0001);
}

#[test]
fn checksum_of_a_known_header() {
    let header = [
        0x45u8, 0x00, 0x00, 0x73, 0x00, 0x00, 0x40, 0x00, 0x40, 0x11, 0x00, 0x00, 0xc0, 0xa8,
        0x00, 0x01, 0xc0, 0xa8, 0x00, 0xc7,
    ];
    assert_eq!(checksum(&header), 0xb861);
    let mut with_sum = header;
    with_sum[10] = 0xb8;
    with_sum[11] = 0x61;
    assert_eq!(add_slice(0, &with_sum), 0xffff);
    assert_eq!(checksum(&with_sum), 0);
    assert_eq!(checksum(&[]), 0xffff);
    assert_eq!(checksum(&[0, 0]), 0xffff);
    assert_eq!(checksum(&[0xff, 0xff]), 0);
}

#[test]
fn the_sum_does_not_depend_on_the_order_of_the_words() {
    let words: [[u8; 2]; 5] =
        [[0xff, 0xfe], [0x80, 0x01], [0x00, 0x00], [0x7f, 0xff], [0x12, 0x34]];
    let mut forward = Vec::new();
    let mut backward = Vec::new();
    for w in words.iter() {
        forward.extend_from_slice(w);
    }
    for w in words.iter().rev() {
        backward.extend_from_slice(w);
    }
    assert_eq!(checksum(&forward), checksum(&backward));
    // 0xfffe + 0x8001 + 0x7fff + 0x1234 = 0x2_1232, folded 0x1234.
    assert_eq!(add_slice(0, &forward), 0x1234);
}
