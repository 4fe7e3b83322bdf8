//! The length-encoded scalar codec.
//!
//! A length-encoded integer is a logical `u64` stored in 1, 3, 4 or 9 bytes:
//! one discriminator byte selects the width, and any extension bytes hold the
//! value little-endian. The discriminator table is the crux of the format:
//!
//! | discriminator | meaning                       |
//! |---------------|-------------------------------|
//! | 0x00..=0xFA   | the value is the byte itself  |
//! | 0xFB          | the Null marker               |
//! | 0xFC          | 2 extension bytes             |
//! | 0xFD          | 3 extension bytes             |
//! | 0xFE          | 8 extension bytes             |
//! | 0xFF          | the Error marker              |

use vstd::prelude::*;
use vstd::arithmetic::div_mod::lemma_fundamental_div_mod;

use crate::cursor::ByteCursor;
use crate::error::{ErrorContext, ParseError};

verus! {

/// The unsigned little-endian value of a byte sequence: the first byte is the
/// least significant.
pub open spec fn le_value(s: Seq<u8>) -> nat
    decreases s.len(),
{
    if s.len() == 0 {
        0
    } else {
        s[0] as nat + 256 * le_value(s.drop_first())
    }
}

/// `256^n`: the number of values `n` bytes can hold.
pub open spec fn pow256(n: nat) -> nat
    decreases n,
{
    if n == 0 {
        1
    } else {
        256 * pow256((n - 1) as nat)
    }
}

pub proof fn lemma_pow256_pos(n: nat)
    ensures
        pow256(n) >= 1,
    decreases n,
{
    if n > 0 {
        lemma_pow256_pos((n - 1) as nat);
    }
}

pub proof fn lemma_pow256_mono(a: nat, b: nat)
    requires
        a <= b,
    ensures
        pow256(a) <= pow256(b),
    decreases b,
{
    if a < b {
        lemma_pow256_mono(a, (b - 1) as nat);
        lemma_pow256_pos((b - 1) as nat);
    }
}

/// `n` bytes can hold no value at or above `256^n`.
pub proof fn lemma_le_value_bound(s: Seq<u8>)
    ensures
        le_value(s) < pow256(s.len()),
    decreases s.len(),
{
    if s.len() > 0 {
        lemma_le_value_bound(s.drop_first());
    }
}

/// Any sequence of at most 8 bytes holds a value that fits in a `u64`.
pub proof fn lemma_le_value_fits_u64(s: Seq<u8>)
    requires
        s.len() <= 8,
    ensures
        le_value(s) < 0x1_0000_0000_0000_0000,
{
    lemma_le_value_bound(s);
    lemma_pow256_mono(s.len(), 8);
    assert(pow256(8) == 0x1_0000_0000_0000_0000) by {
        reveal_with_fuel(pow256, 9);
    }
}

/// The `n`-byte little-endian encoding of `v` (modulo `256^n`).
pub open spec fn le_bytes(v: nat, n: nat) -> Seq<u8>
    decreases n,
{
    if n == 0 {
        Seq::empty()
    } else {
        seq![(v % 256) as u8] + le_bytes(v / 256, (n - 1) as nat)
    }
}

/// Decoding is the inverse of encoding: the little-endian bytes of any value
/// that fits in `n` bytes read back as that value.
pub proof fn lemma_le_bytes_round_trip(v: nat, n: nat)
    requires
        v < pow256(n),
    ensures
        le_bytes(v, n).len() == n,
        le_value(le_bytes(v, n)) == v,
    decreases n,
{
    if n == 0 {
        assert(v == 0);
    } else {
        assert(pow256(n) == 256 * pow256((n - 1) as nat));
        assert(0 <= v % 256 < 256 && 256 * (v / 256) + v % 256 == v) by {
            lemma_fundamental_div_mod(v as int, 256);
        }
        assert(v / 256 < pow256((n - 1) as nat));
        lemma_le_bytes_round_trip(v / 256, (n - 1) as nat);
        let s = le_bytes(v, n);
        assert(s.drop_first() =~= le_bytes(v / 256, (n - 1) as nat));
        assert(s[0] == (v % 256) as u8);
    }
}

/// The value a length-encoded integer decodes to: a plain integer, or one of
/// the two marker bytes that are protocol values of their own.
#[derive(Debug, PartialEq, Eq, Structural, Clone, Copy)]
pub enum LenencValue {
    /// A plain integer.
    Int(u64),
    /// The 0xFB marker: a protocol-level NULL, not a decode failure.
    Null,
    /// The 0xFF marker: a protocol-level error indicator, not a decode failure.
    Error,
}

/// What decoding a length-encoded integer at the front of `s` yields:
/// on success the value and the number of bytes consumed, on failure the
/// error and the number of bytes consumed before it was detected (the
/// discriminator is consumed before its extension bytes are found missing).
pub open spec fn lenenc_dec(s: Seq<u8>) -> Result<(LenencValue, int), (ParseError, int)> {
    if s.len() < 1 {
        Err((ParseError::LengthNotEnough { expected: 1, actual: 0 }, 0))
    } else if s[0] <= 0xFA {
        Ok((LenencValue::Int(s[0] as u64), 1))
    } else if s[0] == 0xFB {
        Ok((LenencValue::Null, 1))
    } else if s[0] == 0xFF {
        Ok((LenencValue::Error, 1))
    } else {
        let n: int = if s[0] == 0xFC {
            2
        } else if s[0] == 0xFD {
            3
        } else {
            8
        };
        if s.len() < 1 + n {
            Err((
                ParseError::LengthNotEnough { expected: n as u64, actual: (s.len() - 1) as u64 },
                1,
            ))
        } else {
            Ok((LenencValue::Int(le_value(s.subrange(1, 1 + n)) as u64), 1 + n))
        }
    }
}

/// Every discriminator at or below 0xFA is its own value: a one-byte buffer
/// holding `n` decodes to the integer `n` and consumes exactly that byte.
pub proof fn lemma_lenenc_single_byte(n: u8)
    requires
        n <= 0xFA,
    ensures
        lenenc_dec(seq![n]) == Ok::<(LenencValue, int), (ParseError, int)>((
            LenencValue::Int(n as u64),
            1,
        )),
{
}

/// Round trip for the 0xFC form: any `u16` encoded as the discriminator and
/// its two little-endian bytes decodes back to the same integer, consuming
/// all three bytes.
pub proof fn lemma_lenenc_round_trip_u16(v: u16)
    ensures
        lenenc_dec(seq![0xFCu8] + le_bytes(v as nat, 2)) == Ok::<
            (LenencValue, int),
            (ParseError, int),
        >((LenencValue::Int(v as u64), 3)),
{
    assert(pow256(2) == 0x1_0000) by {
        reveal_with_fuel(pow256, 3);
    }
    lemma_le_bytes_round_trip(v as nat, 2);
    let s = seq![0xFCu8] + le_bytes(v as nat, 2);
    assert(s[0] == 0xFC);
    assert(s.subrange(1, 3) =~= le_bytes(v as nat, 2));
}

/// Round trip for the 0xFD form: any value below `2^24` encoded as the
/// discriminator and three little-endian bytes decodes back unchanged.
pub proof fn lemma_lenenc_round_trip_u24(v: u32)
    requires
        v < 0x100_0000,
    ensures
        lenenc_dec(seq![0xFDu8] + le_bytes(v as nat, 3)) == Ok::<
            (LenencValue, int),
            (ParseError, int),
        >((LenencValue::Int(v as u64), 4)),
{
    assert(pow256(3) == 0x100_0000) by {
        reveal_with_fuel(pow256, 4);
    }
    lemma_le_bytes_round_trip(v as nat, 3);
    let s = seq![0xFDu8] + le_bytes(v as nat, 3);
    assert(s[0] == 0xFD);
    assert(s.subrange(1, 4) =~= le_bytes(v as nat, 3));
}

/// Round trip for the 0xFE form: any `u64` encoded as the discriminator and
/// eight little-endian bytes decodes back unchanged.
pub proof fn lemma_lenenc_round_trip_u64(v: u64)
    ensures
        lenenc_dec(seq![0xFEu8] + le_bytes(v as nat, 8)) == Ok::<
            (LenencValue, int),
            (ParseError, int),
        >((LenencValue::Int(v), 9)),
{
    assert(pow256(8) == 0x1_0000_0000_0000_0000) by {
        reveal_with_fuel(pow256, 9);
    }
    lemma_le_bytes_round_trip(v as nat, 8);
    let s = seq![0xFEu8] + le_bytes(v as nat, 8);
    assert(s[0] == 0xFE);
    assert(s.subrange(1, 9) =~= le_bytes(v as nat, 8));
}

/// Reads exactly `n_bytes` bytes (1 to 8) as an unsigned little-endian
/// integer. When fewer bytes remain the read fails and the cursor does not
/// move at all.
pub fn get_unit_le_length(cursor: &mut ByteCursor, n_bytes: usize) -> (r: Result<u64, ParseError>)
    requires
        old(cursor).wf(),
        1 <= n_bytes <= 8,
    ensures
        final(cursor).wf(),
        final(cursor).bytes() == old(cursor).bytes(),
        old(cursor).remaining_bytes().len() < n_bytes ==> {
            &&& r == Err::<u64, ParseError>((ParseError::LengthNotEnough {
                expected: n_bytes as u64,
                actual: old(cursor).remaining_bytes().len() as u64,
            }))
            &&& final(cursor).position() == old(cursor).position()
        },
        old(cursor).remaining_bytes().len() >= n_bytes ==> {
            &&& r matches Ok(v) && v as nat == le_value(
                old(cursor).remaining_bytes().take(n_bytes as int),
            )
            &&& final(cursor).position() == old(cursor).position() + n_bytes
        },
{
    let rem = cursor.remaining();
    if rem < n_bytes {
        return Err(ParseError::new(n_bytes as u64, rem as u64));
    }
    let ghost s = cursor.remaining_bytes().take(n_bytes as int);
    let mut value: u64 = 0;
    let mut i: usize = n_bytes;
    proof {
        assert(s.subrange(n_bytes as int, n_bytes as int) =~= Seq::<u8>::empty());
    }
    while i > 0
        invariant
            cursor.wf(),
            *cursor == *old(cursor),
            i <= n_bytes <= 8,
            n_bytes <= cursor.remaining_bytes().len(),
            s == cursor.remaining_bytes().take(n_bytes as int),
            value as nat == le_value(s.subrange(i as int, n_bytes as int)),
            value < pow256((n_bytes - i) as nat),
        decreases i,
    {
        i = i - 1;
        let b = cursor.peek(i);
        proof {
            let tail = s.subrange(i as int, n_bytes as int);
            assert(tail.drop_first() =~= s.subrange(i as int + 1, n_bytes as int));
            assert(tail[0] == b);
            lemma_pow256_mono((n_bytes - i - 1) as nat, 7);
            assert(pow256(7) == 0x100_0000_0000_0000) by {
                reveal_with_fuel(pow256, 8);
            }
            assert(pow256((n_bytes - i) as nat) == 256 * pow256((n_bytes - i - 1) as nat));
        }
        value = value * 256 + (b as u64);
    }
    proof {
        assert(s.subrange(0, n_bytes as int) =~= s);
    }
    cursor.advance(n_bytes);
    Ok(value)
}

/// Reads a length-encoded integer that must be a plain integer: the Null
/// (0xFB) and Error (0xFF) markers are refused as unrecognized headers, since
/// a caller of this function has asked for a number, not a marker.
pub fn parse(cursor: &mut ByteCursor) -> (r: Result<u64, ParseError>)
    requires
        old(cursor).wf(),
    ensures
        final(cursor).wf(),
        final(cursor).bytes() == old(cursor).bytes(),
        match lenenc_dec(old(cursor).remaining_bytes()) {
            Ok((v, c)) => {
                &&& final(cursor).position() == old(cursor).position() + c
                &&& (v matches LenencValue::Int(x) ==> r == Ok::<u64, ParseError>(x))
                &&& (v is Null ==> r == Err::<u64, ParseError>((ParseError::UnrecognizedHeader {
                    header: 0xFB,
                    context: ErrorContext::LengthEncodedInteger,
                })))
                &&& (v is Error ==> r == Err::<u64, ParseError>((ParseError::UnrecognizedHeader {
                    header: 0xFF,
                    context: ErrorContext::LengthEncodedInteger,
                })))
            },
            Err((e, c)) => {
                &&& final(cursor).position() == old(cursor).position() + c
                &&& r == Err::<u64, ParseError>(e)
            },
        },
{
    let rem = cursor.remaining();
    if rem < 1 {
        return Err(ParseError::new(1, 0));
    }
    let ghost before = cursor.remaining_bytes();
    let first_byte = cursor.peek(0);
    cursor.advance(1);
    proof {
        assert(cursor.remaining_bytes() =~= before.drop_first());
    }
    if first_byte <= 0xFA {
        Ok(first_byte as u64)
    } else if first_byte == 0xFB {
        Err(ParseError::UnrecognizedHeader {
            header: 0xFB,
            context: ErrorContext::LengthEncodedInteger,
        })
    } else if first_byte == 0xFF {
        Err(ParseError::UnrecognizedHeader {
            header: 0xFF,
            context: ErrorContext::LengthEncodedInteger,
        })
    } else {
        let n: usize = if first_byte == 0xFC {
            2
        } else if first_byte == 0xFD {
            3
        } else {
            8
        };
        let r = get_unit_le_length(cursor, n);
        proof {
            if before.drop_first().len() >= n {
                assert(before.drop_first().take(n as int) =~= before.subrange(1, 1 + n as int));
                lemma_le_value_fits_u64(before.subrange(1, 1 + n as int));
            }
        }
        r
    }
}

} // verus!
