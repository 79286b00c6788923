//! The errors of the codec, and their mathematical model.

use vstd::prelude::*;

verus! {

/// Everything that an encode or decode operation can fail with.
///
/// No failure is retried or repaired inside the codec: each one ends the
/// operation that raised it and is handed to the caller.
#[derive(Debug, PartialEq, Eq)]
pub enum AmqpError {
    /// The type byte of a frame header is none of 1, 2, 3, 8.
    InvalidFrameType(u8),
    /// A frame type was named by a word that is none of the listed ones.
    FrameTypeError(Vec<&'static str>),
    /// A frame header was asked for and no byte was there.
    EmptyResponse,
    /// A channel number outside 0..=65535.
    ChannelOutOfRange(i64),
    /// A frame was to be built and no payload was given.
    NilPayload,
    /// A table value of a kind that has no wire form: the key it stands
    /// under, and the name of its kind.
    InvalidTableValue(String, String),
    /// A type tag that the table grammar does not know.
    InvalidTableType(char),
    /// A read reached past the end of the input.
    BufferTooShort { needed: usize, available: usize },
    /// A short string of more than 255 bytes.
    ShortStringTooLong(usize),
    /// Any other structural failure while encoding.
    EncodingError(String),
    /// Any other structural failure while decoding.
    DecodingError(String),
}

/// The model of an [`AmqpError`]: the same cases over mathematical values.
pub enum Failure {
    InvalidFrameType(u8),
    FrameTypeError(Seq<Seq<char>>),
    EmptyResponse,
    ChannelOutOfRange(i64),
    NilPayload,
    InvalidTableValue(Seq<char>, Seq<char>),
    InvalidTableType(char),
    BufferTooShort { needed: nat, available: nat },
    ShortStringTooLong(nat),
    EncodingError(Seq<char>),
    DecodingError(Seq<char>),
}

impl View for AmqpError {
    type V = Failure;

    open spec fn view(&self) -> Failure {
        match self {
            AmqpError::InvalidFrameType(byte) => Failure::InvalidFrameType(*byte),
            AmqpError::FrameTypeError(names) => Failure::FrameTypeError(
                Seq::new(names@.len(), |i: int| names@[i]@),
            ),
            AmqpError::EmptyResponse => Failure::EmptyResponse,
            AmqpError::ChannelOutOfRange(channel) => Failure::ChannelOutOfRange(*channel),
            AmqpError::NilPayload => Failure::NilPayload,
            AmqpError::InvalidTableValue(key, kind) => Failure::InvalidTableValue(key@, kind@),
            AmqpError::InvalidTableType(tag) => Failure::InvalidTableType(*tag),
            AmqpError::BufferTooShort { needed, available } => Failure::BufferTooShort {
                needed: *needed as nat,
                available: *available as nat,
            },
            AmqpError::ShortStringTooLong(len) => Failure::ShortStringTooLong(*len as nat),
            AmqpError::EncodingError(message) => Failure::EncodingError(message@),
            AmqpError::DecodingError(message) => Failure::DecodingError(message@),
        }
    }
}

/// What a fallible operation on plain values came to, with the error by its
/// model.
pub open spec fn outcome<T>(r: Result<T, AmqpError>) -> Result<T, Failure> {
    match r {
        Ok(value) => Ok(value),
        Err(error) => Err(error@),
    }
}

/// What a fallible operation that yields bytes came to, over models.
pub open spec fn bytes_outcome(r: Result<Vec<u8>, AmqpError>) -> Result<Seq<u8>, Failure> {
    match r {
        Ok(bytes) => Ok(bytes@),
        Err(error) => Err(error@),
    }
}

} // verus!
