use protocol::cursor::ByteCursor;
use protocol::data_type::{get_unit_le_length, parse};
use protocol::error::{ErrorContext, ParseError};
use protocol::packet::{get_unit_le_by_length, parse_int_lenenc, parse_str_lenenc, ParseData};

#[test]
fn lib_test_01() {
    assert_eq!(
        "LengthNotEnough",
        ParseError::LengthNotEnough { expected: 123, actual: 0 }.name()
    );
    assert_eq!("LengthNotEnough", ParseError::new(123, 0).name());
}

#[test]
fn macros_test_01() {
    assert_eq!(
        "LengthNotEnough",
        ParseError::LengthNotEnough { expected: 123, actual: 0 }.name()
    );
}

#[test]
fn test_get_unit_le_length_01() {
    let mut bytes = ByteCursor::new(Vec::from([0b0000_0001, 0b0000_0010]));
    let result = get_unit_le_length(&mut bytes, 1).unwrap();
    assert_eq!(1, result);
}

#[test]
fn test_get_unit_le_length_02() {
    let mut bytes = ByteCursor::new(Vec::from([0b0000_0001, 0b0000_0010]));
    let result = get_unit_le_length(&mut bytes, 2).unwrap();
    assert_eq!(0x02_01, result);
}

#[test]
fn test_get_unit_le_length_03() {
    let mut bytes = ByteCursor::new(Vec::from([0b0000_0001, 0b0000_0010]));
    let result = get_unit_le_length(&mut bytes, 3);
    assert_eq!(Err(ParseError::LengthNotEnough { expected: 3, actual: 2 }), result);
}

#[test]
fn test_get_unit_le_length_04() {
    let mut bytes = ByteCursor::new(Vec::from([0b1111_1111, 0b0000_0010, 0b0101_0010]));
    let result = parse(&mut bytes);
    assert_eq!(
        Err(ParseError::UnrecognizedHeader {
            header: 0xFF,
            context: ErrorContext::LengthEncodedInteger,
        }),
        result
    );
    assert_eq!("LengthEncodedInteger", ErrorContext::LengthEncodedInteger.name());
}

#[test]
fn cursor_reads_advance_the_position() {
    let mut cursor = ByteCursor::new(vec![0x0A, 0x0B, 0x0C, 0x0D]);
    assert_eq!(4, cursor.remaining());
    assert_eq!(0, cursor.tell());
    assert_eq!(0x0B, cursor.peek(1));
    cursor.advance(1);
    assert_eq!(vec![0x0B, 0x0C], cursor.read_bytes(2));
    assert_eq!(3, cursor.tell());
    cursor.seek(0);
    assert_eq!(0x0A, cursor.peek(0));
    assert_eq!(4, cursor.remaining());
}

#[test]
fn failed_fixed_read_leaves_cursor_in_place() {
    let mut bytes = ByteCursor::new(vec![0x07, 0x09]);
    assert_eq!(
        Err(ParseError::LengthNotEnough { expected: 8, actual: 2 }),
        get_unit_le_length(&mut bytes, 8)
    );
    // the failed read consumed nothing: the next read still sees the first byte
    assert_eq!(Ok(0x07), get_unit_le_length(&mut bytes, 1));
}

#[test]
fn get_unit_le_by_length_reads_like_get_unit_le_length() {
    let mut bytes = ByteCursor::new(vec![0x01, 0x02, 0x03, 0x04]);
    assert_eq!(Ok(0x04_03_02_01), get_unit_le_by_length(&mut bytes, 4));
    assert_eq!(0, bytes.remaining());
}

#[test]
fn lenenc_single_byte_values() {
    for n in [0x00u8, 0x01, 0x7B, 0xFA] {
        let mut bytes = ByteCursor::new(vec![n]);
        assert_eq!(Ok(ParseData::Int(n as u64)), parse_int_lenenc(&mut bytes));
        assert_eq!(0, bytes.remaining());
    }
}

#[test]
fn lenenc_markers() {
    let mut bytes = ByteCursor::new(vec![0xFB]);
    assert_eq!(Ok(ParseData::Null), parse_int_lenenc(&mut bytes));

    let mut bytes = ByteCursor::new(vec![0xFF]);
    let result = parse_int_lenenc(&mut bytes);
    assert!(matches!(result, Ok(ParseData::Error(_))));
}

#[test]
fn lenenc_round_trip_two_bytes() {
    let v: u16 = 0x1234;
    let mut bytes = ByteCursor::new(vec![0xFC, 0x34, 0x12]);
    assert_eq!(Ok(ParseData::Int(v as u64)), parse_int_lenenc(&mut bytes));
    assert_eq!(0, bytes.remaining());

    let mut bytes = ByteCursor::new(vec![0xFC, 0xFF, 0xFF]);
    assert_eq!(Ok(ParseData::Int(0xFFFF)), parse_int_lenenc(&mut bytes));
}

#[test]
fn lenenc_round_trip_three_bytes() {
    let mut bytes = ByteCursor::new(vec![0xFD, 0x56, 0x34, 0x12]);
    assert_eq!(Ok(ParseData::Int(0x12_34_56)), parse_int_lenenc(&mut bytes));
    assert_eq!(0, bytes.remaining());
}

#[test]
fn lenenc_round_trip_eight_bytes() {
    let mut bytes = ByteCursor::new(vec![0xFE, 0x08, 0x07, 0x06, 0x05, 0x04, 0x03, 0x02, 0x01]);
    assert_eq!(
        Ok(ParseData::Int(0x01_02_03_04_05_06_07_08)),
        parse_int_lenenc(&mut bytes)
    );
    assert_eq!(0, bytes.remaining());
}

#[test]
fn lenenc_missing_extension_bytes() {
    let mut bytes = ByteCursor::new(vec![0xFC, 0x01]);
    assert_eq!(
        Err(ParseError::LengthNotEnough { expected: 2, actual: 1 }),
        parse_int_lenenc(&mut bytes)
    );
}

#[test]
fn lenenc_string_ok() {
    let mut bytes = ByteCursor::new(vec![0x03, b'a', b'b', b'c']);
    assert_eq!(
        Ok(ParseData::Str(vec![b'a', b'b', b'c'])),
        parse_str_lenenc(&mut bytes)
    );
    assert_eq!(0, bytes.remaining());
}

#[test]
fn lenenc_string_null_length_is_refused() {
    let mut bytes = ByteCursor::new(vec![0xFB, b'a']);
    assert_eq!(Err(ParseError::UnexpectedLengthField), parse_str_lenenc(&mut bytes));
}

#[test]
fn lenenc_string_error_length_is_refused() {
    let mut bytes = ByteCursor::new(vec![0xFF, b'a']);
    assert_eq!(Err(ParseError::UnexpectedLengthField), parse_str_lenenc(&mut bytes));
}

#[test]
fn lenenc_string_short_body() {
    let mut bytes = ByteCursor::new(vec![0x05, 0x01]);
    assert_eq!(
        Err(ParseError::LengthNotEnough { expected: 5, actual: 1 }),
        parse_str_lenenc(&mut bytes)
    );
}

#[test]
fn parse_refuses_null_marker_as_integer() {
    let mut bytes = ByteCursor::new(vec![0xFB]);
    assert_eq!(
        Err(ParseError::UnrecognizedHeader {
            header: 0xFB,
            context: ErrorContext::LengthEncodedInteger,
        }),
        parse(&mut bytes)
    );
}

#[test]
fn parse_reads_multi_byte_forms() {
    let mut bytes = ByteCursor::new(vec![0xFC, 0x34, 0x12]);
    assert_eq!(Ok(0x1234), parse(&mut bytes));
    let mut bytes = ByteCursor::new(vec![0xFD, 0x56, 0x34, 0x12]);
    assert_eq!(Ok(0x123456), parse(&mut bytes));
}

#[test]
fn parse_data_names() {
    assert_eq!("Int", ParseData::Int(5).name());
    assert_eq!("Str", ParseData::Str(vec![]).name());
    assert_eq!("Null", ParseData::Null.name());
    assert_eq!("UnexpectedLengthField", ParseError::new_form_str().name());
}
