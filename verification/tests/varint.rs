use sqlite_reader::error::Error;
use sqlite_reader::utils::{decode_varint, encode_varint};

#[test]
fn decodes_single_byte() {
    assert_eq!(decode_varint(&[0x7f]), Ok((127, 1)));
    assert_eq!(decode_varint(&[0x00, 0xff]), Ok((0, 1)));
}

#[test]
fn decodes_two_bytes() {
    assert_eq!(decode_varint(&[0x81, 0x00]), Ok((128, 2)));
    assert_eq!(decode_varint(&[0x82, 0x2c, 0x99]), Ok((300, 2)));
}

#[test]
fn ninth_byte_carries_eight_bits() {
    let bytes = [0xff, 0xff, 0xff, 0xff, 0xff, 0xff, 0xff, 0xff, 0xff];
    assert_eq!(decode_varint(&bytes), Ok((u64::MAX, 9)));
    let bytes = [0x80, 0x80, 0x80, 0x80, 0x80, 0x80, 0x80, 0x80, 0x80, 0x01];
    assert_eq!(decode_varint(&bytes), Ok((0x80, 9)));
}

#[test]
fn truncated_varint_is_a_decode_error() {
    assert_eq!(decode_varint(&[]), Err(Error::Decode));
    assert_eq!(decode_varint(&[0x80]), Err(Error::Decode));
    assert_eq!(decode_varint(&[0xff, 0xff, 0xff]), Err(Error::Decode));
}

#[test]
fn encodes_canonically() {
    assert_eq!(encode_varint(0), vec![0x00]);
    assert_eq!(encode_varint(127), vec![0x7f]);
    assert_eq!(encode_varint(128), vec![0x81, 0x00]);
    assert_eq!(encode_varint(300), vec![0x82, 0x2c]);
    assert_eq!(encode_varint(u64::MAX), vec![0xff; 9]);
}

#[test]
fn round_trip_of_many_values() {
    let mut values: Vec<u64> = vec![0, 1, 127, 128, 16383, 16384, u64::MAX, 1 << 63, (1 << 56) - 1, 1 << 56];
    let mut v: u64 = 1;
    for _ in 0..64 {
        values.push(v);
        values.push(v.wrapping_mul(3).wrapping_add(7));
        v = v.wrapping_mul(2);
    }
    for v in values {
        let bytes = encode_varint(v);
        assert!(1 <= bytes.len() && bytes.len() <= 9);
        assert_eq!(decode_varint(&bytes), Ok((v, bytes.len())));
    }
}
