//! Wire-format codec for the AMQP 0-9-1 messaging protocol.
//!
//! The crate turns frames, field tables and method argument lists into their
//! exact byte sequences and back. Every function carries a contract over a
//! mathematical model of the wire grammar, and Verus proves the contract.
//!
//! - [`wire`]: the big-endian integer layouts, as specifications.
//! - [`buffer`]: the byte buffer of the `bytes` crate, with the contracts
//!   that are believed of it.
//! - [`types`]: the primitive writer [`types::Encoder`] and the primitive
//!   reader [`types::Decoder`].
//! - [`value`]: the values of a field table.
//! - [`table`]: the field-table codec.
//! - [`round_trip`]: what is decoded from an encoded table is the table.
//! - [`key_limit`]: a key of more than 255 bytes makes a table fail.
//! - [`frame`]: the frame envelope.
//! - [`methods`]: the encoders of the outbound methods.
//! - [`text`]: byte strings read as UTF-8.
//! - [`error`]: the errors.
//!
//! Nothing here does I/O, keeps state between calls or blocks: every
//! operation is a function of its arguments.

pub mod buffer;
pub mod error;
pub mod frame;
pub mod key_limit;
pub mod methods;
pub mod round_trip;
pub mod table;
pub mod text;
pub mod types;
pub mod value;
pub mod wire;

use vstd::prelude::*;

verus! {

/// The port of a plain connection.
pub const DEFAULT_PORT: u16 = 5672;

/// The port of a connection over TLS.
pub const TLS_PORT: u16 = 5671;

/// The port of a connection over TLS, under its older name.
pub const SSL_PORT: u16 = 5671;

/// The version of the protocol, as text.
pub fn protocol_version() -> (version: &'static str)
    ensures
        version@ == "0.9.1"@,
{
    "0.9.1"
}

/// The bytes that open a connection: `AMQP`, a zero byte, and the version
/// 0, 9, 1.
pub open spec fn preamble_bytes() -> Seq<u8> {
    seq![0x41, 0x4D, 0x51, 0x50, 0, 0, 9, 1]
}

/// The bytes that open a connection.
pub fn preamble() -> (bytes: [u8; 8])
    ensures
        bytes@ == preamble_bytes(),
{
    let bytes = [0x41, 0x4D, 0x51, 0x50, 0, 0, 9, 1];
    assert(bytes@ =~= preamble_bytes());
    bytes
}

} // verus!
