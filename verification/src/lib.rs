//! Binary wire-protocol codec for a MySQL-style client/server protocol:
//! length-encoded scalars, physical-frame reassembly into logical packets,
//! and the generic OK / ERR / EOF response packets whose layout depends on
//! negotiated capability flags.

pub mod cursor;
pub mod data_type;
pub mod error;
pub mod packet;
pub mod response;
