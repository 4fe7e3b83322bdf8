//! Length-encoded fields and physical-frame reassembly.
//!
//! A physical frame is a 3-byte little-endian payload length, a 1-byte
//! sequence id, and that many payload bytes. A logical packet is the
//! concatenation of one or more frames' payloads: reassembly keeps
//! consuming frames exactly while the previous frame's payload length is
//! 0xFF_FFFF, the largest a frame can carry.

use vstd::prelude::*;
use vstd::string::StringExecFns;

use crate::cursor::ByteCursor;
use crate::data_type::{
    get_unit_le_length, le_value, lemma_le_value_bound, lemma_le_value_fits_u64, lenenc_dec,
    pow256, LenencValue,
};
use crate::error::ParseError;

verus! {

/// The outcome of decoding one length-encoded field: a plain integer, a byte
/// string, or one of the two marker values. `Null` and `Error` are legitimate
/// protocol values, distinguished from decode failures (`ParseError`).
#[derive(Debug, PartialEq)]
pub enum ParseData {
    /// A plain integer.
    Int(u64),
    /// A byte string.
    Str(Vec<u8>),
    /// The protocol's error-indicator marker; its message is opaque here.
    Error(String),
    /// The protocol's NULL marker.
    Null,
}

impl ParseData {
    /// The variant's name, as the code spells it.
    pub fn name(&self) -> (r: &'static str)
        ensures
            self is Int ==> r@ == "Int"@,
            self is Str ==> r@ == "Str"@,
            self is Error ==> r@ == "Error"@,
            self is Null ==> r@ == "Null"@,
    {
        match self {
            ParseData::Int(_) => "Int",
            ParseData::Str(_) => "Str",
            ParseData::Error(_) => "Error",
            ParseData::Null => "Null",
        }
    }
}

/// Relates an executable decode result to the value the specification
/// assigns: exact for integers and Null, and up to the opaque message for the
/// Error marker.
pub open spec fn scalar_matches(d: ParseData, v: LenencValue) -> bool {
    match v {
        LenencValue::Int(x) => d == ParseData::Int(x),
        LenencValue::Null => d == ParseData::Null,
        LenencValue::Error => d is Error,
    }
}

/// Reads exactly `n_bytes` bytes (1 to 8) as an unsigned little-endian
/// integer; the read fails without moving the cursor when fewer remain.
/// Same read as [`crate::data_type::get_unit_le_length`]; both names are part
/// of the public interface.
pub fn get_unit_le_by_length(cursor: &mut ByteCursor, n_bytes: usize) -> (r: Result<
    u64,
    ParseError,
>)
    requires
        old(cursor).wf(),
        1 <= n_bytes <= 8,
    ensures
        final(cursor).wf(),
        final(cursor).bytes() == old(cursor).bytes(),
        old(cursor).remaining_bytes().len() < n_bytes ==> {
            &&& r == Err::<u64, ParseError>((ParseError::LengthNotEnough {
                expected: n_bytes as u64,
                actual: old(cursor).remaining_bytes().len() as u64,
            }))
            &&& final(cursor).position() == old(cursor).position()
        },
        old(cursor).remaining_bytes().len() >= n_bytes ==> {
            &&& r matches Ok(v) && v as nat == le_value(
                old(cursor).remaining_bytes().take(n_bytes as int),
            )
            &&& final(cursor).position() == old(cursor).position() + n_bytes
        },
{
    get_unit_le_length(cursor, n_bytes)
}

/// Reads one length-encoded integer field: a discriminator byte, then 0, 2,
/// 3 or 8 little-endian extension bytes per the table in [`lenenc_dec`].
/// The Null and Error markers come back as values, not failures.
pub fn parse_int_lenenc(cursor: &mut ByteCursor) -> (r: Result<ParseData, ParseError>)
    requires
        old(cursor).wf(),
    ensures
        final(cursor).wf(),
        final(cursor).bytes() == old(cursor).bytes(),
        match lenenc_dec(old(cursor).remaining_bytes()) {
            Ok((v, c)) => {
                &&& final(cursor).position() == old(cursor).position() + c
                &&& r matches Ok(d) && scalar_matches(d, v)
            },
            Err((e, c)) => {
                &&& final(cursor).position() == old(cursor).position() + c
                &&& r == Err::<ParseData, ParseError>(e)
            },
        },
{
    let ghost before = cursor.remaining_bytes();
    let first_byte = match get_unit_le_by_length(cursor, 1) {
        Ok(v) => v,
        Err(e) => {
            return Err(e);
        },
    };
    proof {
        assert(before.len() >= 1);
        let t = before.take(1);
        assert(t.drop_first() =~= Seq::<u8>::empty());
        assert(le_value(t.drop_first()) == 0);
        assert(le_value(t) == t[0]);
        assert(first_byte == before[0]);
        assert(cursor.remaining_bytes() =~= before.drop_first());
    }
    if first_byte <= 0xFA {
        Ok(ParseData::Int(first_byte))
    } else if first_byte == 0xFB {
        Ok(ParseData::Null)
    } else if first_byte == 0xFF {
        Ok(ParseData::Error(String::from_str("error")))
    } else {
        let n: usize = if first_byte == 0xFC {
            2
        } else if first_byte == 0xFD {
            3
        } else {
            8
        };
        let r = match get_unit_le_by_length(cursor, n) {
            Ok(v) => Ok(ParseData::Int(v)),
            Err(e) => Err(e),
        };
        proof {
            if before.drop_first().len() >= n {
                assert(before.drop_first().take(n as int) =~= before.subrange(1, 1 + n as int));
                lemma_le_value_fits_u64(before.subrange(1, 1 + n as int));
            }
        }
        r
    }
}

/// What decoding a length-encoded string at the front of `s` yields: the raw
/// bytes and the total bytes consumed, or the error and the bytes consumed
/// before it was detected. A length prefix that decodes to the Null or Error
/// marker is no length at all: that is `UnexpectedLengthField`.
pub open spec fn lenenc_str_dec(s: Seq<u8>) -> Result<(Seq<u8>, int), (ParseError, int)> {
    match lenenc_dec(s) {
        Err((e, c)) => Err((e, c)),
        Ok((LenencValue::Int(n), c)) => {
            if s.len() - c < n as int {
                Err((
                    ParseError::LengthNotEnough { expected: n, actual: (s.len() - c) as u64 },
                    c,
                ))
            } else {
                Ok((s.subrange(c, c + n as int), c + n as int))
            }
        },
        Ok((_, c)) => Err((ParseError::UnexpectedLengthField, c)),
    }
}

/// Reads a length-encoded string: a length-encoded integer giving the byte
/// count, then that many raw bytes. The whole read fails if the prefix is not
/// a plain integer or the bytes run out; a failed read may already have
/// consumed the length prefix.
pub fn parse_str_lenenc(cursor: &mut ByteCursor) -> (r: Result<ParseData, ParseError>)
    requires
        old(cursor).wf(),
    ensures
        final(cursor).wf(),
        final(cursor).bytes() == old(cursor).bytes(),
        match lenenc_str_dec(old(cursor).remaining_bytes()) {
            Ok((bytes, c)) => {
                &&& final(cursor).position() == old(cursor).position() + c
                &&& r matches Ok(d) && d matches ParseData::Str(v) && v@ == bytes
            },
            Err((e, c)) => {
                &&& final(cursor).position() == old(cursor).position() + c
                &&& r == Err::<ParseData, ParseError>(e)
            },
        },
{
    let ghost before = cursor.remaining_bytes();
    let string_length = match parse_int_lenenc(cursor) {
        Ok(d) => d,
        Err(e) => {
            return Err(e);
        },
    };
    match string_length {
        ParseData::Int(n) => {
            proof {
                if let Ok((v, c)) = lenenc_dec(before) {
                    assert(cursor.remaining_bytes() =~= before.subrange(c, before.len() as int));
                }
            }
            let rem = cursor.remaining();
            if (rem as u64) < n {
                Err(ParseError::new(n, rem as u64))
            } else {
                let ghost c = cursor.position() - old(cursor).position();
                let string_bytes = cursor.read_bytes(n as usize);
                proof {
                    assert(string_bytes@ =~= before.subrange(c, c + n as int));
                }
                Ok(ParseData::Str(string_bytes))
            }
        },
        ParseData::Null => Err(ParseError::new_form_str()),
        ParseData::Error(_) => Err(ParseError::new_form_str()),
        ParseData::Str(_) => {
            proof {
                assert(false);
            }
            Err(ParseError::new_form_str())
        },
    }
}

/// What reassembling one logical packet from the front of `s` yields: the
/// concatenated payload and the bytes consumed, or the error and the bytes
/// consumed up to the start of the frame that could not be read whole.
/// Reassembly continues into another frame exactly when a frame's payload
/// length is 0xFF_FFFF.
pub open spec fn reassemble(s: Seq<u8>) -> Result<(Seq<u8>, int), (ParseError, int)>
    decreases s.len(),
{
    if s.len() < 3 {
        Err((ParseError::LengthNotEnough { expected: 3, actual: s.len() as u64 }, 0))
    } else if s.len() < 4 {
        Err((ParseError::LengthNotEnough { expected: 1, actual: 0 }, 0))
    } else {
        let len = le_value(s.subrange(0, 3)) as int;
        if s.len() - 4 < len {
            Err((
                ParseError::LengthNotEnough { expected: len as u64, actual: (s.len() - 4) as u64 },
                0,
            ))
        } else if len == 0xFF_FFFF {
            match reassemble(s.skip(4 + len)) {
                Ok((rest, c)) => Ok((s.subrange(4, 4 + len) + rest, 4 + len + c)),
                Err((e, c)) => Err((e, 4 + len + c)),
            }
        } else {
            Ok((s.subrange(4, 4 + len), 4 + len))
        }
    }
}

/// Reads one logical packet: physical frames are consumed and their payloads
/// concatenated for as long as each frame's payload length is exactly
/// 0xFF_FFFF; the first smaller frame (a zero-length one included) ends the
/// packet. Sequence ids are decoded but not validated here; tracking them is
/// the session layer's concern. When the stream ends mid-frame the read
/// fails and the cursor is left at the start of the frame that could not be
/// read whole, so the caller can buffer more bytes and retry from there.
pub fn read_packet(cursor: &mut ByteCursor) -> (r: Result<Vec<u8>, ParseError>)
    requires
        old(cursor).wf(),
    ensures
        final(cursor).wf(),
        final(cursor).bytes() == old(cursor).bytes(),
        match reassemble(old(cursor).remaining_bytes()) {
            Ok((payload, c)) => {
                &&& final(cursor).position() == old(cursor).position() + c
                &&& r matches Ok(v) && v@ == payload
            },
            Err((e, c)) => {
                &&& final(cursor).position() == old(cursor).position() + c
                &&& r == Err::<Vec<u8>, ParseError>(e)
            },
        },
{
    let ghost orig = old(cursor).remaining_bytes();
    let mut acc: Vec<u8> = Vec::new();
    proof {
        if let Ok((p, c)) = reassemble(orig) {
            assert(acc@ + p =~= p);
        }
    }
    loop
        invariant
            cursor.wf(),
            cursor.bytes() == old(cursor).bytes(),
            old(cursor).position() <= cursor.position(),
            orig == old(cursor).remaining_bytes(),
            match reassemble(cursor.remaining_bytes()) {
                Ok((p, c)) => reassemble(orig) == Ok::<(Seq<u8>, int), (ParseError, int)>((
                    acc@ + p,
                    cursor.position() - old(cursor).position() + c,
                )),
                Err((e, c)) => reassemble(orig) == Err::<(Seq<u8>, int), (ParseError, int)>((
                    e,
                    cursor.position() - old(cursor).position() + c,
                )),
            },
        decreases cursor.bytes().len() - cursor.position(),
    {
        let ghost cur_rem = cursor.remaining_bytes();
        let frame_start = cursor.tell();
        let rem = cursor.remaining();
        if rem < 3 {
            return Err(ParseError::new(3, rem as u64));
        }
        if rem < 4 {
            return Err(ParseError::new(1, 0));
        }
        let payload_length = match get_unit_le_length(cursor, 3) {
            Ok(v) => v,
            Err(e) => {
                proof {
                    assert(false);
                }
                return Err(e);
            },
        };
        proof {
            lemma_le_value_bound(cur_rem.take(3));
            assert(pow256(3) == 0x100_0000) by {
                reveal_with_fuel(pow256, 4);
            }
            assert(cur_rem.take(3) =~= cur_rem.subrange(0, 3));
        }
        let len: usize = payload_length as usize;
        let _sequence_id = match get_unit_le_length(cursor, 1) {
            Ok(v) => v,
            Err(e) => {
                proof {
                    assert(false);
                }
                return Err(e);
            },
        };
        let rem_after_header = cursor.remaining();
        if rem_after_header < len {
            cursor.seek(frame_start);
            return Err(ParseError::new(len as u64, rem_after_header as u64));
        }
        let ghost acc_old = acc@;
        let mut frame_payload = cursor.read_bytes(len);
        let ghost pl = frame_payload@;
        proof {
            assert(pl =~= cur_rem.subrange(4, 4 + len as int));
        }
        acc.append(&mut frame_payload);
        if len != 0xFF_FFFF {
            return Ok(acc);
        }
        proof {
            assert(cursor.remaining_bytes() =~= cur_rem.skip(4 + len as int));
            if let Ok((p, c)) = reassemble(cursor.remaining_bytes()) {
                assert((acc_old + pl) + p =~= acc_old + (pl + p));
            }
        }
    }
}

} // verus!
