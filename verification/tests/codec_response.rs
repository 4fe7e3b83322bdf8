use protocol::error::{ErrorContext, ParseError};
use protocol::response::{decode_response, Capabilities, Payload};

fn caps(protocol_41: bool, transactions: bool, session_track: bool) -> Capabilities {
    Capabilities { protocol_41, transactions, session_track }
}

#[test]
fn ok_packet_protocol_41() {
    // header, affected_rows, last_insert_id, status flags 1, warnings 1
    let payload = vec![0x00, 0x00, 0x00, 0x01, 0x00, 0x01, 0x00];
    let result = decode_response(payload, caps(true, false, false)).unwrap();
    match result {
        Payload::OK(ok) => {
            assert_eq!(0, ok.affected_rows);
            assert_eq!(0, ok.last_insert_id);
            assert_eq!(Some(1), ok.status_flags);
            assert_eq!(Some(1), ok.warnings);
            assert!(ok.info.is_empty());
        },
        other => panic!("expected an OK packet, got {:?}", other),
    }
}

#[test]
fn ok_packet_with_lenenc_fields_and_info() {
    // affected_rows = 0x1234 (0xFC form), last_insert_id = 2, no flag
    // capabilities, info runs to the end of the payload
    let payload = vec![0x00, 0xFC, 0x34, 0x12, 0x02, b'h', b'i'];
    let result = decode_response(payload, caps(false, false, false)).unwrap();
    match result {
        Payload::OK(ok) => {
            assert_eq!(0x1234, ok.affected_rows);
            assert_eq!(2, ok.last_insert_id);
            assert_eq!(None, ok.status_flags);
            assert_eq!(None, ok.warnings);
            assert_eq!(vec![b'h', b'i'], ok.info);
        },
        other => panic!("expected an OK packet, got {:?}", other),
    }
}

#[test]
fn ok_packet_transactions_only() {
    let payload = vec![0x00, 0x00, 0x00, 0x05, 0x00];
    let result = decode_response(payload, caps(false, true, false)).unwrap();
    match result {
        Payload::OK(ok) => {
            assert_eq!(Some(5), ok.status_flags);
            assert_eq!(None, ok.warnings);
            assert!(ok.info.is_empty());
        },
        other => panic!("expected an OK packet, got {:?}", other),
    }
}

#[test]
fn ok_packet_session_track_info() {
    let payload = vec![0x00, 0x00, 0x00, 0x02, b'a', b'b', 0x77];
    let result = decode_response(payload, caps(false, false, true)).unwrap();
    match result {
        Payload::OK(ok) => {
            assert_eq!(vec![b'a', b'b'], ok.info);
        },
        other => panic!("expected an OK packet, got {:?}", other),
    }
}

#[test]
fn ok_packet_null_length_field() {
    let payload = vec![0x00, 0xFB];
    assert_eq!(
        Err(ParseError::UnexpectedLengthField),
        decode_response(payload, caps(true, false, false))
    );
}

#[test]
fn ok_packet_too_short_for_its_header() {
    let payload = vec![0x00];
    assert_eq!(
        Err(ParseError::UnrecognizedHeader {
            header: 0x00,
            context: ErrorContext::ResponsePacket,
        }),
        decode_response(payload, caps(true, false, false))
    );
}

#[test]
fn err_packet_protocol_41() {
    let payload = vec![
        0xFF, 0x48, 0x04, b'#', b'H', b'Y', b'0', b'0', b'0', b'm', b's', b'g',
    ];
    let result = decode_response(payload, caps(true, false, false)).unwrap();
    match result {
        Payload::ERR(err) => {
            assert_eq!(0x0448, err.error_code);
            assert_eq!(Some(b'#'), err.sql_state_marker);
            assert_eq!(b"HY000".to_vec(), err.sql_state);
            assert_eq!(b"msg".to_vec(), err.error_message);
        },
        other => panic!("expected an ERR packet, got {:?}", other),
    }
}

#[test]
fn err_packet_without_protocol_41() {
    let payload = vec![0xFF, 0x01, 0x00, b'x'];
    let result = decode_response(payload, caps(false, false, false)).unwrap();
    match result {
        Payload::ERR(err) => {
            assert_eq!(1, err.error_code);
            assert_eq!(None, err.sql_state_marker);
            assert!(err.sql_state.is_empty());
            assert_eq!(vec![b'x'], err.error_message);
        },
        other => panic!("expected an ERR packet, got {:?}", other),
    }
}

#[test]
fn err_packet_too_short() {
    let payload = vec![0xFF, 0x01];
    assert_eq!(
        Err(ParseError::UnrecognizedHeader {
            header: 0xFF,
            context: ErrorContext::ResponsePacket,
        }),
        decode_response(payload, caps(true, false, false))
    );
}

#[test]
fn legacy_eof_packet() {
    let payload = vec![0xFE];
    assert_eq!(
        Ok(Payload::EOF),
        decode_response(payload, caps(false, false, false))
    );
}

#[test]
fn eof_marker_with_protocol_41_is_unrecognized() {
    let payload = vec![0xFE];
    assert_eq!(
        Err(ParseError::UnrecognizedHeader {
            header: 0xFE,
            context: ErrorContext::ResponsePacket,
        }),
        decode_response(payload, caps(true, false, false))
    );
}

#[test]
fn unrecognized_header() {
    let payload = vec![0x03, 0x01, 0x02];
    assert_eq!(
        Err(ParseError::UnrecognizedHeader {
            header: 0x03,
            context: ErrorContext::ResponsePacket,
        }),
        decode_response(payload, caps(true, false, false))
    );
    assert_eq!(
        "UnrecognizedHeader",
        ParseError::UnrecognizedHeader {
            header: 0x03,
            context: ErrorContext::ResponsePacket,
        }
        .name()
    );
    assert_eq!("ResponsePacket", ErrorContext::ResponsePacket.name());
}

#[test]
fn empty_payload() {
    let payload: Vec<u8> = vec![];
    assert_eq!(
        Err(ParseError::LengthNotEnough { expected: 1, actual: 0 }),
        decode_response(payload, caps(true, false, false))
    );
}
