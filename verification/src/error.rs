//! The decode-failure values shared by every decoder in the crate.
//!
//! All failures are returned, never raised: a `ParseError` tells the caller
//! exactly why a decode stopped, so the transport layer can decide whether to
//! buffer more bytes (`LengthNotEnough`) or give the stream up as
//! desynchronized (`UnrecognizedHeader`, `UnexpectedLengthField`).

use vstd::prelude::*;

verus! {

/// Where a header byte was being interpreted when it turned out to have no
/// defined meaning.
#[derive(Debug, PartialEq, Eq, Structural, Clone, Copy)]
pub enum ErrorContext {
    /// Decoding a length-encoded integer that had to be a plain integer.
    LengthEncodedInteger,
    /// Dispatching a logical packet's first byte to OK / ERR / EOF.
    ResponsePacket,
}

impl ErrorContext {
    /// The context's name, as the code spells it.
    pub fn name(&self) -> (r: &'static str)
        ensures
            self is LengthEncodedInteger ==> r@ == "LengthEncodedInteger"@,
            self is ResponsePacket ==> r@ == "ResponsePacket"@,
    {
        match self {
            ErrorContext::LengthEncodedInteger => "LengthEncodedInteger",
            ErrorContext::ResponsePacket => "ResponsePacket",
        }
    }
}

/// Why a decode call failed.
///
/// `Null` and `Error` scalars are protocol values, not failures; a
/// `ParseError` is only returned for input the decoder cannot accept.
#[derive(Debug, PartialEq, Eq, Structural, Clone, Copy)]
pub enum ParseError {
    /// The buffer ran out before a fixed-size read could complete:
    /// `expected` bytes were needed, `actual` remained. Recoverable by
    /// buffering more input and retrying.
    LengthNotEnough { expected: u64, actual: u64 },
    /// A discriminator or header byte had no defined meaning in its context.
    /// Not recoverable for this packet.
    UnrecognizedHeader { header: u8, context: ErrorContext },
    /// A length-encoded integer resolved to the Null or Error marker where a
    /// plain length was required. Not recoverable.
    UnexpectedLengthField,
}

impl ParseError {
    /// Builds the error for a read that needed `expected` bytes while only
    /// `actual` remained.
    pub fn new(expected: u64, actual: u64) -> (e: ParseError)
        ensures
            e == (ParseError::LengthNotEnough { expected, actual }),
    {
        ParseError::LengthNotEnough { expected, actual }
    }

    /// Builds the error for a string whose length prefix decoded to the Null
    /// or Error marker instead of a plain integer.
    pub fn new_form_str() -> (e: ParseError)
        ensures
            e == ParseError::UnexpectedLengthField,
    {
        ParseError::UnexpectedLengthField
    }

    /// The variant's name, as the code spells it.
    pub fn name(&self) -> (r: &'static str)
        ensures
            self is LengthNotEnough ==> r@ == "LengthNotEnough"@,
            self is UnrecognizedHeader ==> r@ == "UnrecognizedHeader"@,
            self is UnexpectedLengthField ==> r@ == "UnexpectedLengthField"@,
    {
        match self {
            ParseError::LengthNotEnough { .. } => "LengthNotEnough",
            ParseError::UnrecognizedHeader { .. } => "UnrecognizedHeader",
            ParseError::UnexpectedLengthField => "UnexpectedLengthField",
        }
    }
}

} // verus!
