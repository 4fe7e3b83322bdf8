//! The generic response decoder: OK / ERR / EOF packets.
//!
//! A logical packet's first byte dispatches the variant, and the negotiated
//! capability flags decide which fields follow. The decoder never negotiates
//! capabilities itself: the session layer hands them in. A payload too short
//! for the variant its header implies is a hard parse failure, not a
//! retryable shortage: the logical packet is already complete, so no more
//! bytes will ever come.

use vstd::prelude::*;

use crate::cursor::ByteCursor;
use crate::data_type::{
    get_unit_le_length, le_value, lemma_le_value_bound, lenenc_dec, pow256, LenencValue,
};
use crate::error::{ErrorContext, ParseError};
use crate::packet::{lenenc_str_dec, parse_int_lenenc, parse_str_lenenc, ParseData};

verus! {

/// The capability flags that change a response packet's layout, negotiated
/// by the session layer and passed in explicitly.
#[derive(Debug, PartialEq, Eq, Structural, Clone, Copy)]
pub struct Capabilities {
    /// The 4.1 protocol: OK packets carry status flags and a warning count,
    /// ERR packets carry an SQL-state marker and string, and the legacy EOF
    /// marker is no longer sent.
    pub protocol_41: bool,
    /// Transaction support: OK packets carry status flags (without a warning
    /// count) when `protocol_41` is not set.
    pub transactions: bool,
    /// Session-state tracking: an OK packet's tail is a length-encoded
    /// session-state string instead of a plain info string.
    pub session_track: bool,
}

/// A decoded OK packet.
#[derive(Debug, PartialEq)]
pub struct OkPacket {
    /// The header byte, always 0x00.
    pub header: u8,
    /// Rows changed by the statement, as a length-encoded integer.
    pub affected_rows: u64,
    /// Last insert id, as a length-encoded integer.
    pub last_insert_id: u64,
    /// Server status flags; present with `protocol_41` or `transactions`.
    pub status_flags: Option<u16>,
    /// Warning count; present only with `protocol_41`.
    pub warnings: Option<u16>,
    /// Session-state info (with `session_track`) or the plain info string
    /// running to the end of the payload.
    pub info: Vec<u8>,
}

/// A decoded ERR packet.
#[derive(Debug, PartialEq)]
pub struct ErrPacket {
    /// The header byte, always 0xFF.
    pub header: u8,
    /// The server's error code.
    pub error_code: u16,
    /// The SQL-state marker byte; present only with `protocol_41`.
    pub sql_state_marker: Option<u8>,
    /// The five SQL-state bytes; empty unless `protocol_41` is set.
    pub sql_state: Vec<u8>,
    /// The error message, running to the end of the payload.
    pub error_message: Vec<u8>,
}

/// A decoded generic response packet.
#[derive(Debug, PartialEq)]
pub enum Payload {
    /// The statement succeeded.
    OK(OkPacket),
    /// The statement failed.
    ERR(ErrPacket),
    /// The legacy end-of-stream marker: 0xFE with a small payload, sent only
    /// when `protocol_41` is not negotiated. Terminal and fieldless.
    EOF,
}

/// The mathematical value of an [`OkPacket`].
#[verifier::ext_equal]
pub struct OkPacketView {
    pub header: u8,
    pub affected_rows: u64,
    pub last_insert_id: u64,
    pub status_flags: Option<u16>,
    pub warnings: Option<u16>,
    pub info: Seq<u8>,
}

/// The mathematical value of an [`ErrPacket`].
#[verifier::ext_equal]
pub struct ErrPacketView {
    pub header: u8,
    pub error_code: u16,
    pub sql_state_marker: Option<u8>,
    pub sql_state: Seq<u8>,
    pub error_message: Seq<u8>,
}

/// The mathematical value of a [`Payload`].
#[verifier::ext_equal]
pub enum PayloadView {
    OK(OkPacketView),
    ERR(ErrPacketView),
    EOF,
}

impl View for OkPacket {
    type V = OkPacketView;

    open spec fn view(&self) -> OkPacketView {
        OkPacketView {
            header: self.header,
            affected_rows: self.affected_rows,
            last_insert_id: self.last_insert_id,
            status_flags: self.status_flags,
            warnings: self.warnings,
            info: self.info@,
        }
    }
}

impl View for ErrPacket {
    type V = ErrPacketView;

    open spec fn view(&self) -> ErrPacketView {
        ErrPacketView {
            header: self.header,
            error_code: self.error_code,
            sql_state_marker: self.sql_state_marker,
            sql_state: self.sql_state@,
            error_message: self.error_message@,
        }
    }
}

impl View for Payload {
    type V = PayloadView;

    open spec fn view(&self) -> PayloadView {
        match self {
            Payload::OK(p) => PayloadView::OK(p@),
            Payload::ERR(p) => PayloadView::ERR(p@),
            Payload::EOF => PayloadView::EOF,
        }
    }
}

/// What decoding an OK packet from payload `s` (whose first byte is 0x00)
/// yields under capabilities `caps`.
pub open spec fn ok_dec(s: Seq<u8>, caps: Capabilities) -> Result<PayloadView, ParseError> {
    let too_short = ParseError::UnrecognizedHeader {
        header: 0x00,
        context: ErrorContext::ResponsePacket,
    };
    match lenenc_dec(s.skip(1)) {
        Err((e1, c1)) => Err(too_short),
        Ok((LenencValue::Int(affected_rows), c1)) => match lenenc_dec(s.skip(1 + c1)) {
            Err((e2, c2)) => Err(too_short),
            Ok((LenencValue::Int(last_insert_id), c2)) => {
                let o = 1 + c1 + c2;
                let flags_len: int = if caps.protocol_41 {
                    4
                } else if caps.transactions {
                    2
                } else {
                    0
                };
                if s.len() < o + flags_len {
                    Err(too_short)
                } else {
                    let status_flags: Option<u16> = if flags_len >= 2 {
                        Some(le_value(s.subrange(o, o + 2)) as u16)
                    } else {
                        None
                    };
                    let warnings: Option<u16> = if flags_len == 4 {
                        Some(le_value(s.subrange(o + 2, o + 4)) as u16)
                    } else {
                        None
                    };
                    let o2 = o + flags_len;
                    if caps.session_track {
                        match lenenc_str_dec(s.skip(o2)) {
                            Ok((info, c3)) => Ok(PayloadView::OK(OkPacketView {
                                header: 0x00,
                                affected_rows,
                                last_insert_id,
                                status_flags,
                                warnings,
                                info,
                            })),
                            Err((ParseError::UnexpectedLengthField, c3)) => Err(
                                ParseError::UnexpectedLengthField,
                            ),
                            Err((e3, c3)) => Err(too_short),
                        }
                    } else {
                        Ok(PayloadView::OK(OkPacketView {
                            header: 0x00,
                            affected_rows,
                            last_insert_id,
                            status_flags,
                            warnings,
                            info: s.skip(o2),
                        }))
                    }
                }
            },
            Ok((v2, c2)) => Err(ParseError::UnexpectedLengthField),
        },
        Ok((v1, c1)) => Err(ParseError::UnexpectedLengthField),
    }
}

/// What decoding an ERR packet from payload `s` (whose first byte is 0xFF)
/// yields under capabilities `caps`.
pub open spec fn err_dec(s: Seq<u8>, caps: Capabilities) -> Result<PayloadView, ParseError> {
    let too_short = ParseError::UnrecognizedHeader {
        header: 0xFF,
        context: ErrorContext::ResponsePacket,
    };
    if s.len() < 3 {
        Err(too_short)
    } else {
        let error_code = le_value(s.subrange(1, 3)) as u16;
        if caps.protocol_41 {
            if s.len() < 9 {
                Err(too_short)
            } else {
                Ok(PayloadView::ERR(ErrPacketView {
                    header: 0xFF,
                    error_code,
                    sql_state_marker: Some(s[3]),
                    sql_state: s.subrange(4, 9),
                    error_message: s.skip(9),
                }))
            }
        } else {
            Ok(PayloadView::ERR(ErrPacketView {
                header: 0xFF,
                error_code,
                sql_state_marker: None,
                sql_state: Seq::empty(),
                error_message: s.skip(3),
            }))
        }
    }
}

/// What decoding one logical packet as a generic response yields: dispatch
/// on the header byte, then the variant's fields per the capability flags.
pub open spec fn response_dec(s: Seq<u8>, caps: Capabilities) -> Result<PayloadView, ParseError> {
    if s.len() == 0 {
        Err(ParseError::LengthNotEnough { expected: 1, actual: 0 })
    } else if s[0] == 0x00 {
        ok_dec(s, caps)
    } else if s[0] == 0xFF {
        err_dec(s, caps)
    } else if s[0] == 0xFE && s.len() < 9 && !caps.protocol_41 {
        Ok(PayloadView::EOF)
    } else {
        Err(ParseError::UnrecognizedHeader { header: s[0], context: ErrorContext::ResponsePacket })
    }
}

/// Every header byte without a defined meaning in its context is refused:
/// a non-empty payload that opens with anything but 0x00, 0xFF, or a valid
/// legacy EOF marker decodes to exactly `UnrecognizedHeader` for that byte.
pub proof fn lemma_unrecognized_header(s: Seq<u8>, caps: Capabilities)
    requires
        s.len() > 0,
        s[0] != 0x00,
        s[0] != 0xFF,
        !(s[0] == 0xFE && s.len() < 9 && !caps.protocol_41),
    ensures
        response_dec(s, caps) == Err::<PayloadView, ParseError>((ParseError::UnrecognizedHeader {
            header: s[0],
            context: ErrorContext::ResponsePacket,
        })),
{
}

/// Decodes one reassembled logical packet as a generic response under the
/// session's capability flags. Performs no I/O and consumes nothing but the
/// given payload.
pub fn decode_response(payload: Vec<u8>, capabilities: Capabilities) -> (r: Result<
    Payload,
    ParseError,
>)
    ensures
        match response_dec(payload@, capabilities) {
            Ok(pv) => r matches Ok(p) && p@ == pv,
            Err(e) => r == Err::<Payload, ParseError>(e),
        },
{
    let ghost s = payload@;
    let n = payload.len();
    let mut cursor = ByteCursor::new(payload);
    if n == 0 {
        return Err(ParseError::new(1, 0));
    }
    let header = cursor.peek(0);
    if header == 0x00 {
        decode_ok(cursor, capabilities)
    } else if header == 0xFF {
        decode_err(cursor, capabilities)
    } else if header == 0xFE && n < 9 && !capabilities.protocol_41 {
        Ok(Payload::EOF)
    } else {
        Err(ParseError::UnrecognizedHeader { header, context: ErrorContext::ResponsePacket })
    }
}

/// Decodes the fields of an OK packet once the 0x00 header has been seen.
fn decode_ok(cursor: ByteCursor, capabilities: Capabilities) -> (r: Result<Payload, ParseError>)
    requires
        cursor.wf(),
        cursor.position() == 0,
        cursor.bytes().len() > 0,
        cursor.bytes()[0] == 0x00,
    ensures
        match ok_dec(cursor.bytes(), capabilities) {
            Ok(pv) => r matches Ok(p) && p@ == pv,
            Err(e) => r == Err::<Payload, ParseError>(e),
        },
{
    let ghost s = cursor.bytes();
    let too_short = ParseError::UnrecognizedHeader {
        header: 0x00,
        context: ErrorContext::ResponsePacket,
    };
    let mut cursor = cursor;
    cursor.advance(1);
    proof {
        assert(cursor.remaining_bytes() =~= s.skip(1));
    }
    let affected_rows = match parse_int_lenenc(&mut cursor) {
        Ok(ParseData::Int(v)) => v,
        Ok(_) => {
            return Err(ParseError::UnexpectedLengthField);
        },
        Err(_) => {
            return Err(too_short);
        },
    };
    proof {
        if let Ok((v1, c1)) = lenenc_dec(s.skip(1)) {
            assert(cursor.remaining_bytes() =~= s.skip(1 + c1));
        }
    }
    let last_insert_id = match parse_int_lenenc(&mut cursor) {
        Ok(ParseData::Int(v)) => v,
        Ok(_) => {
            return Err(ParseError::UnexpectedLengthField);
        },
        Err(_) => {
            return Err(too_short);
        },
    };
    proof {
        assert(cursor.remaining_bytes() =~= s.skip(cursor.position()));
    }
    let mut status_flags: Option<u16> = None;
    let mut warnings: Option<u16> = None;
    let flags_len: usize = if capabilities.protocol_41 {
        4
    } else if capabilities.transactions {
        2
    } else {
        0
    };
    if cursor.remaining() < flags_len {
        return Err(too_short);
    }
    if flags_len >= 2 {
        let ghost o = cursor.position();
        let v = match get_unit_le_length(&mut cursor, 2) {
            Ok(v) => v,
            Err(_) => {
                proof {
                    assert(false);
                }
                return Err(too_short);
            },
        };
        proof {
            lemma_u16_read(s, o, v);
        }
        status_flags = Some(v as u16);
    }
    if flags_len == 4 {
        let ghost o = cursor.position();
        let v = match get_unit_le_length(&mut cursor, 2) {
            Ok(v) => v,
            Err(_) => {
                proof {
                    assert(false);
                }
                return Err(too_short);
            },
        };
        proof {
            lemma_u16_read(s, o, v);
        }
        warnings = Some(v as u16);
    }
    proof {
        assert(cursor.remaining_bytes() =~= s.skip(cursor.position()));
    }
    let info: Vec<u8>;
    if capabilities.session_track {
        info = match parse_str_lenenc(&mut cursor) {
            Ok(ParseData::Str(v)) => v,
            Ok(_) => {
                proof {
                    assert(false);
                }
                return Err(too_short);
            },
            Err(ParseError::UnexpectedLengthField) => {
                return Err(ParseError::UnexpectedLengthField);
            },
            Err(_) => {
                return Err(too_short);
            },
        };
    } else {
        let rest = cursor.remaining();
        info = cursor.read_bytes(rest);
        proof {
            assert(info@ =~= s.skip(cursor.position() - rest));
        }
    }
    let ok = OkPacket {
        header: 0x00,
        affected_rows,
        last_insert_id,
        status_flags,
        warnings,
        info,
    };
    proof {
        if let Ok(pv) = ok_dec(s, capabilities) {
            assert(ok@ =~= pv->OK_0);
        }
    }
    Ok(Payload::OK(ok))
}

/// Decodes the fields of an ERR packet once the 0xFF header has been seen.
fn decode_err(cursor: ByteCursor, capabilities: Capabilities) -> (r: Result<Payload, ParseError>)
    requires
        cursor.wf(),
        cursor.position() == 0,
        cursor.bytes().len() > 0,
        cursor.bytes()[0] == 0xFF,
    ensures
        match err_dec(cursor.bytes(), capabilities) {
            Ok(pv) => r matches Ok(p) && p@ == pv,
            Err(e) => r == Err::<Payload, ParseError>(e),
        },
{
    let ghost s = cursor.bytes();
    let too_short = ParseError::UnrecognizedHeader {
        header: 0xFF,
        context: ErrorContext::ResponsePacket,
    };
    let mut cursor = cursor;
    let n = cursor.remaining();
    if n < 3 {
        return Err(too_short);
    }
    cursor.advance(1);
    let error_code = match get_unit_le_length(&mut cursor, 2) {
        Ok(v) => v,
        Err(_) => {
            proof {
                assert(false);
            }
            return Err(too_short);
        },
    };
    proof {
        lemma_u16_read(s, 1, error_code);
    }
    if capabilities.protocol_41 {
        if n < 9 {
            return Err(too_short);
        }
        let sql_state_marker = cursor.peek(0);
        cursor.advance(1);
        let sql_state = cursor.read_bytes(5);
        let rest = cursor.remaining();
        let error_message = cursor.read_bytes(rest);
        let err = ErrPacket {
            header: 0xFF,
            error_code: error_code as u16,
            sql_state_marker: Some(sql_state_marker),
            sql_state,
            error_message,
        };
        proof {
            assert(err.sql_state@ =~= s.subrange(4, 9));
            assert(err.error_message@ =~= s.skip(9));
            if let Ok(pv) = err_dec(s, capabilities) {
                assert(err@ =~= pv->ERR_0);
            }
        }
        Ok(Payload::ERR(err))
    } else {
        let rest = cursor.remaining();
        let error_message = cursor.read_bytes(rest);
        let err = ErrPacket {
            header: 0xFF,
            error_code: error_code as u16,
            sql_state_marker: None,
            sql_state: Vec::new(),
            error_message,
        };
        proof {
            assert(err.sql_state@ =~= Seq::<u8>::empty());
            assert(err.error_message@ =~= s.skip(3));
            if let Ok(pv) = err_dec(s, capabilities) {
                assert(err@ =~= pv->ERR_0);
            }
        }
        Ok(Payload::ERR(err))
    }
}

/// A two-byte little-endian field read at offset `o` is the `u16` the
/// specification extracts there.
proof fn lemma_u16_read(s: Seq<u8>, o: int, v: u64)
    requires
        0 <= o,
        o + 2 <= s.len(),
        v as nat == le_value(s.skip(o).take(2)),
    ensures
        v < 0x1_0000,
        v as u16 as nat == le_value(s.subrange(o, o + 2)),
{
    assert(s.skip(o).take(2) =~= s.subrange(o, o + 2));
    lemma_le_value_bound(s.subrange(o, o + 2));
    assert(pow256(2) == 0x1_0000) by {
        reveal_with_fuel(pow256, 3);
    }
}

} // verus!
