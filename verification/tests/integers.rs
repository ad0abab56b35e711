use rosi::common::endian::{read_be, write_be};
use rosi::common::serialise::{copy_bytes, serialise_field, tail_of};
use rosi::common::{DeserialiseError, Serialise};

#[test]
fn integers_are_big_endian() {
    let mut buf = [0xeeu8; 20];
    assert_eq!(0xabu8.serialise(&mut buf), 1);
    assert_eq!(&buf[..2], &[0xab, 0xee]);
    assert_eq!(0x1234u16.serialise(&mut buf), 2);
    assert_eq!(&buf[..3], &[0x12, 0x34, 0xee]);
    assert_eq!(0x1234_5678u32.serialise(&mut buf), 4);
    assert_eq!(&buf[..5], &[0x12, 0x34, 0x56, 0x78, 0xee]);
    assert_eq!(0x0102_0304_0506_0708u64.serialise(&mut buf), 8);
    assert_eq!(&buf[..9], &[1, 2, 3, 4, 5, 6, 7, 8, 0xee]);
    assert_eq!(0x0102_0304_0506_0708_090a_0b0c_0d0e_0f10u128.serialise(&mut buf), 16);
    assert_eq!(
        &buf[..17],
        &[1, 2, 3, 4, 5, 6, 7, 8, 9, 10, 11, 12, 13, 14, 15, 16, 0xee]
    );
    assert_eq!(7u8.byte_length(), 1);
    assert_eq!(7u16.byte_length(), 2);
    assert_eq!(7u32.byte_length(), 4);
    assert_eq!(7u64.byte_length(), 8);
    assert_eq!(7u128.byte_length(), 16);
}

#[test]
fn integers_are_read_back() {
    let bytes = [1u8, 2, 3, 4, 5, 6, 7, 8, 9, 10, 11, 12, 13, 14, 15, 16, 17];
    assert_eq!(u8::deserialise(&bytes).unwrap(), 1);
    assert_eq!(u16::deserialise(&bytes).unwrap(), 0x0102);
    assert_eq!(u32::deserialise(&bytes).unwrap(), 0x0102_0304);
    assert_eq!(u64::deserialise(&bytes).unwrap(), 0x0102_0304_0506_0708);
    assert_eq!(
        u128::deserialise(&bytes).unwrap(),
        0x0102_0304_0506_0708_090a_0b0c_0d0e_0f10
    );
    assert_eq!(u64::deserialise(&[0xff; 8]).unwrap(), u64::MAX);
    assert_eq!(u128::deserialise(&[0xff; 16]).unwrap(), u128::MAX);
}

fn too_small<T: std::fmt::Debug>(r: Result<T, DeserialiseError>) -> (&'static str, usize, usize) {
    match r {
        Err(DeserialiseError::BufferTooSmall(entity, required, actual)) => {
            (entity, required, actual)
        }
        other => panic!("{:?}", other),
    }
}

#[test]
fn short_buffers_are_refused() {
    assert_eq!(too_small(u8::deserialise(&[])), ("u8", 1, 0));
    assert_eq!(too_small(u16::deserialise(&[1])), ("u16", 2, 1));
    assert_eq!(too_small(u32::deserialise(&[1, 2, 3])), ("u32", 4, 3));
    assert_eq!(too_small(u64::deserialise(&[0; 7])), ("u64", 8, 7));
    assert_eq!(too_small(u128::deserialise(&[0; 15])), ("u128", 16, 15));
}

#[test]
fn raw_bytes_are_copied() {
    let bytes: &[u8] = &[1, 2, 3];
    let mut buf = [9u8; 5];
    assert_eq!(bytes.byte_length(), 3);
    assert_eq!(bytes.serialise(&mut buf), 3);
    assert_eq!(buf, [1, 2, 3, 9, 9]);
    let owned = vec![4u8, 5];
    assert_eq!(owned.byte_length(), 2);
    assert_eq!(owned.serialise(&mut buf), 2);
    assert_eq!(buf, [4, 5, 3, 9, 9]);
    assert_eq!(copy_bytes(&[], &mut buf), 0);
    assert_eq!(buf, [4, 5, 3, 9, 9]);
    assert!(matches!(
        <&[u8]>::deserialise(&buf),
        Err(DeserialiseError::Static(_))
    ));
    assert!(matches!(
        Vec::<u8>::deserialise(&buf),
        Err(DeserialiseError::Static(_))
    ));
}

#[test]
fn fields_follow_one_another() {
    let mut buf = [0u8; 9];
    let next = serialise_field(&0x0102u16, 1, &mut buf);
    assert_eq!(next, 3);
    let next = serialise_field(&0x0304_0506u32, next, &mut buf);
    assert_eq!(next, 7);
    let next = serialise_field(&0xffu8, next, &mut buf);
    assert_eq!(next, 8);
    assert_eq!(buf, [0, 1, 2, 3, 4, 5, 6, 0xff, 0]);
}

#[test]
fn tails_and_plain_numbers() {
    let bytes = [1u8, 2, 3];
    assert_eq!(tail_of(&bytes, 0), &[1, 2, 3]);
    assert_eq!(tail_of(&bytes, 2), &[3]);
    assert_eq!(tail_of(&bytes, 3), &[] as &[u8]);
    assert_eq!(tail_of(&bytes, 4), &[] as &[u8]);
    assert_eq!(read_be(&bytes, 0), 0);
    assert_eq!(read_be(&bytes, 2), 0x0102);
    assert_eq!(read_be(&bytes, 3), 0x01_0203);
    let mut buf = [7u8; 4];
    write_be(&mut buf, 0x0a0b_0c0d, 3);
    assert_eq!(buf, [0x0b, 0x0c, 0x0d, 7]);
    write_be(&mut buf, 1, 0);
    assert_eq!(buf, [0x0b, 0x0c, 0x0d, 7]);
}

#[test]
fn errors_as_text() {
    assert_eq!(
        DeserialiseError::from("no frame").to_string(),
        "failed to deserialise: no frame."
    );
    assert_eq!(
        DeserialiseError::from(String::from("unknown operation: 3")).to_string(),
        "failed to deserialise: unknown operation: 3."
    );
    assert_eq!(
        DeserialiseError::BufferTooSmall("MacAddress", 6, 5).to_string(),
        "failed to deserialise: MacAddress: buffer too small (expected 6, actual 5)."
    );
    assert!(matches!(DeserialiseError::from("x"), DeserialiseError::Static("x")));
    assert!(matches!(
        DeserialiseError::from(String::from("y")),
        DeserialiseError::Heap(_)
    ));
}
