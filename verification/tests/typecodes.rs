use sqlite_reader::bytes::{read_be, read_be_signed, to_unsigned};
use sqlite_reader::error::Error;
use sqlite_reader::text::{compare_text, text_equal, TextOrder};
use sqlite_reader::typecodes::{decode_serial_types, SqlValue, TypeCode};

#[test]
fn codes_below_ten_name_the_fixed_types() {
    let expected = [
        TypeCode::Null,
        TypeCode::I8,
        TypeCode::I16,
        TypeCode::I24,
        TypeCode::I32,
        TypeCode::I48,
        TypeCode::I64,
        TypeCode::F64,
        TypeCode::Zero,
        TypeCode::One,
    ];
    for (code, t) in expected.iter().enumerate() {
        assert_eq!(TypeCode::from_code(code as u64), Ok(*t));
    }
}

#[test]
fn codes_ten_and_eleven_are_unknown() {
    assert_eq!(TypeCode::from_code(10), Err(Error::Decode));
    assert_eq!(TypeCode::from_code(11), Err(Error::Decode));
    assert_eq!(decode_serial_types(&[0x01, 0x0a]), Err(Error::Decode));
    assert_eq!(decode_serial_types(&[0x0b]), Err(Error::Decode));
}

#[test]
fn odd_codes_are_texts_and_even_codes_are_blobs() {
    assert_eq!(TypeCode::from_code(12), Ok(TypeCode::Blob(0)));
    assert_eq!(TypeCode::from_code(13), Ok(TypeCode::Text(0)));
    assert_eq!(TypeCode::from_code(14), Ok(TypeCode::Blob(1)));
    assert_eq!(TypeCode::from_code(15), Ok(TypeCode::Text(1)));
    for n in 12u64..2000 {
        let t = TypeCode::from_code(n).unwrap();
        if n % 2 == 1 {
            assert_eq!(t, TypeCode::Text(((n - 13) / 2) as usize));
            assert_eq!(t.size() as u64, (n - 13) / 2);
        } else {
            assert_eq!(t, TypeCode::Blob(((n - 12) / 2) as usize));
            assert_eq!(t.size() as u64, (n - 12) / 2);
        }
    }
}

#[test]
fn widths_of_the_fixed_types() {
    assert_eq!(TypeCode::Null.size(), 0);
    assert_eq!(TypeCode::I8.size(), 1);
    assert_eq!(TypeCode::I16.size(), 2);
    assert_eq!(TypeCode::I24.size(), 3);
    assert_eq!(TypeCode::I32.size(), 4);
    assert_eq!(TypeCode::I48.size(), 6);
    assert_eq!(TypeCode::I64.size(), 8);
    assert_eq!(TypeCode::F64.size(), 8);
    assert_eq!(TypeCode::Zero.size(), 0);
    assert_eq!(TypeCode::One.size(), 0);
    assert_eq!(TypeCode::Blob(7).size(), 7);
    assert_eq!(TypeCode::Text(9).size(), 9);
}

#[test]
fn serial_types_of_a_header() {
    assert_eq!(decode_serial_types(&[]), Ok(vec![]));
    assert_eq!(
        decode_serial_types(&[0x00, 0x01, 0x17, 0x81, 0x00]),
        Ok(vec![TypeCode::Null, TypeCode::I8, TypeCode::Text(5), TypeCode::Blob(58)])
    );
    assert_eq!(
        decode_serial_types(&[0x05, 0x06, 0x07, 0x08, 0x09]),
        Ok(vec![TypeCode::I48, TypeCode::I64, TypeCode::F64, TypeCode::Zero, TypeCode::One])
    );
}

#[test]
fn truncated_serial_type_is_a_decode_error() {
    assert_eq!(decode_serial_types(&[0x01, 0x81]), Err(Error::Decode));
}

#[test]
fn integers_are_sign_extended() {
    assert_eq!(TypeCode::I8.decode(&[0x7f]), Ok(SqlValue::I8(127)));
    assert_eq!(TypeCode::I8.decode(&[0x80]), Ok(SqlValue::I8(-128)));
    assert_eq!(TypeCode::I8.decode(&[0xff, 0x00]), Ok(SqlValue::I8(-1)));
    assert_eq!(TypeCode::I16.decode(&[0x01, 0x02]), Ok(SqlValue::I16(258)));
    assert_eq!(TypeCode::I16.decode(&[0xff, 0xfe]), Ok(SqlValue::I16(-2)));
    assert_eq!(TypeCode::I24.decode(&[0x01, 0x00, 0x00]), Ok(SqlValue::I24(65536)));
    assert_eq!(TypeCode::I24.decode(&[0xff, 0xff, 0xff]), Ok(SqlValue::I24(-1)));
    assert_eq!(TypeCode::I24.decode(&[0x80, 0x00, 0x00]), Ok(SqlValue::I24(-8388608)));
    assert_eq!(TypeCode::I32.decode(&[0x7f, 0xff, 0xff, 0xff]), Ok(SqlValue::I32(i32::MAX)));
    assert_eq!(TypeCode::I32.decode(&[0x80, 0x00, 0x00, 0x00]), Ok(SqlValue::I32(i32::MIN)));
    assert_eq!(
        TypeCode::I48.decode(&[0x00, 0x01, 0x00, 0x00, 0x00, 0x00]),
        Ok(SqlValue::I48(1 << 32))
    );
    assert_eq!(
        TypeCode::I48.decode(&[0xff, 0xff, 0xff, 0xff, 0xff, 0xfd]),
        Ok(SqlValue::I48(-3))
    );
    assert_eq!(TypeCode::I64.decode(&[0x80, 0, 0, 0, 0, 0, 0, 0]), Ok(SqlValue::I64(i64::MIN)));
    assert_eq!(
        TypeCode::I64.decode(&[0x7f, 0xff, 0xff, 0xff, 0xff, 0xff, 0xff, 0xff]),
        Ok(SqlValue::I64(i64::MAX))
    );
    assert_eq!(TypeCode::I64.decode(&[0xff; 8]), Ok(SqlValue::I64(-1)));
}

#[test]
fn floats_keep_their_bits() {
    let bits = 1.5f64.to_bits();
    let value = TypeCode::F64.decode(&bits.to_be_bytes()).unwrap();
    assert_eq!(value, SqlValue::F64(bits));
    match value {
        SqlValue::F64(found) => assert_eq!(f64::from_bits(found), 1.5),
        _ => unreachable!(),
    }
}

#[test]
fn literals_and_null_take_no_bytes() {
    assert_eq!(TypeCode::Null.decode(&[]), Ok(SqlValue::Null));
    assert_eq!(TypeCode::Zero.decode(&[]), Ok(SqlValue::Zero));
    assert_eq!(TypeCode::One.decode(&[0x55]), Ok(SqlValue::One));
}

#[test]
fn blobs_and_texts_take_their_width() {
    assert_eq!(TypeCode::Blob(2).decode(&[1, 2, 3]), Ok(SqlValue::Blob(vec![1, 2])));
    assert_eq!(TypeCode::Blob(0).decode(&[]), Ok(SqlValue::Blob(vec![])));
    assert_eq!(TypeCode::Text(3).decode(b"Fuji"), Ok(SqlValue::Text("Fuj".to_string())));
    assert_eq!(
        TypeCode::Text(6).decode("grün".as_bytes()),
        Err(Error::Decode),
    );
    assert_eq!(
        TypeCode::Text(5).decode("grün".as_bytes()),
        Ok(SqlValue::Text("grün".to_string()))
    );
}

#[test]
fn invalid_utf8_is_a_decode_error() {
    assert_eq!(TypeCode::Text(2).decode(&[0xc3, 0x28]), Err(Error::Decode));
    assert_eq!(TypeCode::Text(1).decode(&[0xff]), Err(Error::Decode));
    assert_eq!(TypeCode::Text(1).decode("é".as_bytes()), Err(Error::Decode));
}

#[test]
fn short_data_is_a_decode_error() {
    assert_eq!(TypeCode::I8.decode(&[]), Err(Error::Decode));
    assert_eq!(TypeCode::I32.decode(&[1, 2, 3]), Err(Error::Decode));
    assert_eq!(TypeCode::F64.decode(&[0; 7]), Err(Error::Decode));
    assert_eq!(TypeCode::Text(4).decode(b"abc"), Err(Error::Decode));
    assert_eq!(TypeCode::Blob(1).decode(&[]), Err(Error::Decode));
}

#[test]
fn integer_of_a_value() {
    assert_eq!(SqlValue::I8(-5).as_integer(), Some(-5));
    assert_eq!(SqlValue::I16(300).as_integer(), Some(300));
    assert_eq!(SqlValue::I24(-70000).as_integer(), Some(-70000));
    assert_eq!(SqlValue::I32(1 << 30).as_integer(), Some(1 << 30));
    assert_eq!(SqlValue::I48(1 << 40).as_integer(), Some(1 << 40));
    assert_eq!(SqlValue::I64(i64::MIN).as_integer(), Some(i64::MIN));
    assert_eq!(SqlValue::Zero.as_integer(), Some(0));
    assert_eq!(SqlValue::One.as_integer(), Some(1));
    assert_eq!(SqlValue::Null.as_integer(), None);
    assert_eq!(SqlValue::F64(0).as_integer(), None);
    assert_eq!(SqlValue::Text("1".to_string()).as_integer(), None);
    assert_eq!(SqlValue::Blob(vec![1]).as_integer(), None);
}

#[test]
fn copy_of_a_value() {
    let values = vec![
        SqlValue::Null,
        SqlValue::I8(1),
        SqlValue::F64(7),
        SqlValue::Blob(vec![1, 2, 3]),
        SqlValue::Text("Fuji".to_string()),
    ];
    for v in &values {
        assert_eq!(&v.duplicate(), v);
    }
}

#[test]
fn big_endian_numbers() {
    assert_eq!(read_be(&[0x12, 0x34, 0x56], 1, 2), 0x3456);
    assert_eq!(read_be(&[0x12, 0x34, 0x56], 0, 0), 0);
    assert_eq!(read_be(&[0xff; 8], 0, 8), u64::MAX);
    assert_eq!(read_be_signed(&[0x00, 0xff], 1, 1), -1);
    assert_eq!(read_be_signed(&[0x00, 0xff], 0, 2), 255);
    assert_eq!(read_be_signed(&[0xff; 8], 0, 8), -1);
    assert_eq!(to_unsigned(-1), u64::MAX);
    assert_eq!(to_unsigned(i64::MIN), 1 << 63);
    assert_eq!(to_unsigned(42), 42);
}

#[test]
fn texts_are_ordered_by_their_bytes() {
    assert_eq!(compare_text("", ""), TextOrder::Equal);
    assert_eq!(compare_text("", "a"), TextOrder::Less);
    assert_eq!(compare_text("a", ""), TextOrder::Greater);
    assert_eq!(compare_text("Red", "Red"), TextOrder::Equal);
    assert_eq!(compare_text("Blush Red", "Red"), TextOrder::Less);
    assert_eq!(compare_text("Red", "Light Green"), TextOrder::Greater);
    assert_eq!(compare_text("Re", "Red"), TextOrder::Less);
    assert_eq!(compare_text("Z", "a"), TextOrder::Less);
    assert_eq!(compare_text("z", "é"), TextOrder::Less);
    assert_eq!(compare_text("é", "z"), TextOrder::Greater);
    for (a, b) in [("abc", "abd"), ("x", "xy"), ("grün", "grüne"), ("a", "b")] {
        assert_eq!(compare_text(a, b) == TextOrder::Less, a < b);
        assert_eq!(compare_text(b, a) == TextOrder::Greater, b > a);
    }
    assert!(text_equal("idx_color", "idx_color"));
    assert!(!text_equal("Red", "red"));
}
