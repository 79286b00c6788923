//! The frame envelope: a seven-byte header, the payload, and the end
//! marker.

use vstd::prelude::*;
use crate::error::{bytes_outcome, outcome, AmqpError, Failure};
use crate::text::same_text;
use crate::types::{Decoder, Encoder};
use crate::wire::{
    be_u16, be_u32, lemma_u16_round_trip, lemma_u32_round_trip, length_field, u16_at, u32_at,
};

verus! {

/// The byte that ends every frame.
pub const FRAME_END: u8 = 0xCE;

/// The highest channel number.
pub const MAX_CHANNEL: u16 = 65535;

/// The size of a frame header: type, channel, payload length.
pub const FRAME_HEADER_SIZE: usize = 7;

/// The kinds of frame.
#[derive(Debug, Clone, Copy, PartialEq, Eq)]
pub enum FrameType {
    /// A method call, type byte 1.
    Method,
    /// The header of a content, type byte 2.
    Headers,
    /// A chunk of a content body, type byte 3.
    Body,
    /// A heartbeat, type byte 8.
    Heartbeat,
}

/// The frame type that the type byte `v` stands for, if any.
pub open spec fn frame_type_of(v: u8) -> Option<FrameType> {
    if v == 1 {
        Some(FrameType::Method)
    } else if v == 2 {
        Some(FrameType::Headers)
    } else if v == 3 {
        Some(FrameType::Body)
    } else if v == 8 {
        Some(FrameType::Heartbeat)
    } else {
        None
    }
}

/// The frame type that the word `name` stands for, if any.
pub open spec fn frame_type_named(name: Seq<char>) -> Option<FrameType> {
    if name == "method"@ {
        Some(FrameType::Method)
    } else if name == "headers"@ {
        Some(FrameType::Headers)
    } else if name == "body"@ {
        Some(FrameType::Body)
    } else if name == "heartbeat"@ {
        Some(FrameType::Heartbeat)
    } else {
        None
    }
}

impl FrameType {
    /// The type byte of this frame type.
    pub open spec fn id(self) -> u8 {
        match self {
            FrameType::Method => 1,
            FrameType::Headers => 2,
            FrameType::Body => 3,
            FrameType::Heartbeat => 8,
        }
    }

    /// The word for this frame type.
    pub open spec fn name(self) -> Seq<char> {
        match self {
            FrameType::Method => "method"@,
            FrameType::Headers => "headers"@,
            FrameType::Body => "body"@,
            FrameType::Heartbeat => "heartbeat"@,
        }
    }

    /// The frame type of a type byte: 1, 2, 3 and 8 are known.
    pub fn from_u8(v: u8) -> (r: Option<Self>)
        ensures
            r == frame_type_of(v),
    {
        match v {
            1 => Some(FrameType::Method),
            2 => Some(FrameType::Headers),
            3 => Some(FrameType::Body),
            8 => Some(FrameType::Heartbeat),
            _ => None,
        }
    }

    /// The type byte of this frame type.
    pub fn to_u8(self) -> (v: u8)
        ensures
            v == self.id(),
    {
        match self {
            FrameType::Method => 1,
            FrameType::Headers => 2,
            FrameType::Body => 3,
            FrameType::Heartbeat => 8,
        }
    }

    /// The frame type of a word: `method`, `headers`, `body` and
    /// `heartbeat` are known.
    pub fn from_symbol(name: &str) -> (r: Option<Self>)
        ensures
            r == frame_type_named(name@),
    {
        if same_text(name, "method") {
            Some(FrameType::Method)
        } else if same_text(name, "headers") {
            Some(FrameType::Headers)
        } else if same_text(name, "body") {
            Some(FrameType::Body)
        } else if same_text(name, "heartbeat") {
            Some(FrameType::Heartbeat)
        } else {
            None
        }
    }

    /// The word for this frame type.
    pub fn symbol_name(self) -> (name: &'static str)
        ensures
            name@ == self.name(),
    {
        match self {
            FrameType::Method => "method",
            FrameType::Headers => "headers",
            FrameType::Body => "body",
            FrameType::Heartbeat => "heartbeat",
        }
    }
}

/// The header of a frame: the type byte, the channel and the four-byte
/// length field of a payload of `len` bytes.
pub open spec fn frame_header_bytes(frame_type: u8, channel: u16, len: nat) -> Seq<u8> {
    seq![frame_type] + be_u16(channel) + be_u32(length_field(len))
}

/// A whole frame: header, payload, end marker.
pub open spec fn frame_bytes(frame_type: u8, channel: u16, payload: Seq<u8>) -> Seq<u8> {
    frame_header_bytes(frame_type, channel, payload.len()) + payload + seq![FRAME_END]
}

/// What the first bytes of a frame say: its type, its channel and the
/// length that it declares for its payload. Fewer than seven bytes are too
/// short; a type byte other than 1, 2, 3 and 8 is invalid.
pub open spec fn parse_frame_header(data: Seq<u8>) -> Result<(FrameType, u16, u32), Failure> {
    if data.len() < FRAME_HEADER_SIZE {
        Err(Failure::BufferTooShort { needed: FRAME_HEADER_SIZE as nat, available: data.len() })
    } else {
        match frame_type_of(data[0]) {
            Some(frame_type) => Ok((frame_type, u16_at(data, 1), u32_at(data, 3))),
            None => Err(Failure::InvalidFrameType(data[0])),
        }
    }
}

/// Encodes a frame: type, channel, payload length, payload, end marker.
/// Neither the type byte nor the length is checked here.
pub fn encode_frame(frame_type: u8, channel: u16, payload: &[u8]) -> (frame: Vec<u8>)
    ensures
        frame@ == frame_bytes(frame_type, channel, payload@),
{
    let room = if payload.len() <= isize::MAX as usize - FRAME_HEADER_SIZE - 1 {
        FRAME_HEADER_SIZE + payload.len() + 1
    } else {
        FRAME_HEADER_SIZE
    };
    let mut encoder = Encoder::with_capacity(room);
    encoder.write_u8(frame_type);
    encoder.write_u16(channel);
    encoder.write_u32(((payload.len() as u64) % 0x1_0000_0000) as u32);
    encoder.write_bytes(payload);
    encoder.write_u8(FRAME_END);
    assert(encoder@ =~= frame_bytes(frame_type, channel, payload@));
    encoder.into_vec()
}

/// Decodes the header of a frame from the first seven bytes of `data`. The
/// payload and the end marker are not looked at: the caller reads as many
/// bytes as the header declares and checks the marker.
pub fn decode_frame_header(data: &[u8]) -> (r: Result<(FrameType, u16, u32), AmqpError>)
    ensures
        outcome(r) == parse_frame_header(data@),
        data@.len() < 7 ==> r == Err::<(FrameType, u16, u32), AmqpError>(
            (AmqpError::BufferTooShort { needed: 7, available: data@.len() as usize }),
        ),
        data@.len() >= 7 && data@[0] != 1 && data@[0] != 2 && data@[0] != 3 && data@[0] != 8 ==> r
            == Err::<(FrameType, u16, u32), AmqpError>(AmqpError::InvalidFrameType(data@[0])),
{
    if data.len() < FRAME_HEADER_SIZE {
        return Err(
            AmqpError::BufferTooShort { needed: FRAME_HEADER_SIZE, available: data.len() },
        );
    }
    let mut decoder = Decoder::new(data);
    let type_id = decoder.read_u8()?;
    let channel = decoder.read_u16()?;
    let size = decoder.read_u32()?;
    match FrameType::from_u8(type_id) {
        Some(frame_type) => Ok((frame_type, channel, size)),
        None => Err(AmqpError::InvalidFrameType(type_id)),
    }
}

/// The header of an encoded frame reads back as what the frame was made
/// of: its type, its channel, and the length field of its payload, which is
/// the length of the payload wherever that fits in 32 bits.
pub proof fn lemma_frame_header_round_trip(frame_type: FrameType, channel: u16, payload: Seq<u8>)
    ensures
        parse_frame_header(frame_bytes(frame_type.id(), channel, payload).subrange(0, 7)) == Ok::<
            (FrameType, u16, u32),
            Failure,
        >((frame_type, channel, length_field(payload.len()))),
        payload.len() <= u32::MAX ==> length_field(payload.len()) == payload.len(),
{
    let header = frame_bytes(frame_type.id(), channel, payload).subrange(0, 7);
    assert(header =~= frame_header_bytes(frame_type.id(), channel, payload.len()));
    assert(header.subrange(1, 3) =~= be_u16(channel));
    assert(header.subrange(3, 7) =~= be_u32(length_field(payload.len())));
    lemma_u16_round_trip(header, 1, channel);
    lemma_u32_round_trip(header, 3, length_field(payload.len()));
}

/// Each frame type is found again from its type byte and from its word.
pub proof fn lemma_frame_type_found_again(frame_type: FrameType)
    ensures
        frame_type_of(frame_type.id()) == Some(frame_type),
        frame_type_named(frame_type.name()) == Some(frame_type),
{
    reveal_strlit("method");
    reveal_strlit("headers");
    reveal_strlit("body");
    reveal_strlit("heartbeat");
    assert("method"@.len() == 6);
    assert("headers"@.len() == 7);
    assert("body"@.len() == 4);
    assert("heartbeat"@.len() == 9);
}

/// How a caller names the type of a frame: by its word, or by its number.
pub enum FrameSelector<'a> {
    /// One of the words `method`, `headers`, `body`, `heartbeat`.
    Symbol(&'a str),
    /// A number, of which the low eight bits are the type byte.
    Id(i64),
}

/// The words that name a frame type.
pub open spec fn frame_type_names() -> Seq<Seq<char>> {
    seq!["method"@, "headers"@, "body"@, "heartbeat"@]
}

/// The low eight bits of `id`.
pub open spec fn low_byte(id: i64) -> u8 {
    (id % 0x100) as u8
}

/// The type byte that a selector stands for. A word that names no frame
/// type fails; a number is cut to its low eight bits.
pub open spec fn selected_type(selector: FrameSelector) -> Result<u8, Failure> {
    match selector {
        FrameSelector::Symbol(name) => match frame_type_named(name@) {
            Some(frame_type) => Ok(frame_type.id()),
            None => Err(Failure::FrameTypeError(frame_type_names())),
        },
        FrameSelector::Id(id) => Ok(low_byte(id)),
    }
}

/// The channel that a number stands for: the number itself from 0 to
/// 65535, a failure outside.
pub open spec fn channel_of(channel: i64) -> Result<u16, Failure> {
    if 0 <= channel <= MAX_CHANNEL {
        Ok(channel as u16)
    } else {
        Err(Failure::ChannelOutOfRange(channel))
    }
}

/// What a frame is built from once channel and type were checked, in that
/// order.
pub open spec fn checked_frame_parts(selector: FrameSelector, channel: i64) -> Result<
    (u8, u16),
    Failure,
> {
    match channel_of(channel) {
        Ok(number) => match selected_type(selector) {
            Ok(frame_type) => Ok((frame_type, number)),
            Err(error) => Err(error),
        },
        Err(error) => Err(error),
    }
}

/// The frame that a checked encoding yields.
pub open spec fn checked_frame(selector: FrameSelector, payload: Seq<u8>, channel: i64) -> Result<
    Seq<u8>,
    Failure,
> {
    match checked_frame_parts(selector, channel) {
        Ok(parts) => Ok(frame_bytes(parts.0, parts.1, payload)),
        Err(error) => Err(error),
    }
}

/// The frame header that a checked encoding yields.
pub open spec fn checked_frame_header(selector: FrameSelector, len: nat, channel: i64) -> Result<
    Seq<u8>,
    Failure,
> {
    match checked_frame_parts(selector, channel) {
        Ok(parts) => Ok(frame_header_bytes(parts.0, parts.1, len)),
        Err(error) => Err(error),
    }
}

/// Checks a channel number given as a wide integer.
pub fn check_channel(channel: i64) -> (r: Result<u16, AmqpError>)
    ensures
        outcome(r) == channel_of(channel),
{
    if channel < 0 || channel > 65535 {
        Err(AmqpError::ChannelOutOfRange(channel))
    } else {
        Ok(channel as u16)
    }
}

/// The type byte that a selector stands for.
pub fn frame_type_id(selector: &FrameSelector) -> (r: Result<u8, AmqpError>)
    ensures
        outcome(r) == selected_type(*selector),
{
    match selector {
        FrameSelector::Symbol(name) => match FrameType::from_symbol(name) {
            Some(frame_type) => Ok(frame_type.to_u8()),
            None => {
                let names = vec!["method", "headers", "body", "heartbeat"];
                let error = AmqpError::FrameTypeError(names);
                assert(error@->FrameTypeError_0 =~= frame_type_names());
                Err(error)
            },
        },
        FrameSelector::Id(id) => {
            let id = *id;
            if id >= 0 {
                Ok(((id as u64) % 0x100) as u8)
            } else {
                let below = (-(id + 1)) as u64;
                Ok((0xFF - below % 0x100) as u8)
            }
        },
    }
}

/// Encodes a frame for a caller that gives the channel as a wide integer
/// and names the frame type: the channel is checked first, then the type.
pub fn encode_frame_checked(selector: &FrameSelector, payload: &[u8], channel: i64) -> (r: Result<
    Vec<u8>,
    AmqpError,
>)
    ensures
        bytes_outcome(r) == checked_frame(*selector, payload@, channel),
{
    let number = check_channel(channel)?;
    let frame_type = frame_type_id(selector)?;
    Ok(encode_frame(frame_type, number, payload))
}

/// Encodes the header alone of a frame whose payload has `payload_len`
/// bytes, for a caller that sends header, payload and end marker apart.
pub fn encode_frame_header_checked(
    selector: &FrameSelector,
    payload_len: usize,
    channel: i64,
) -> (r: Result<Vec<u8>, AmqpError>)
    ensures
        bytes_outcome(r) == checked_frame_header(*selector, payload_len as nat, channel),
{
    let number = check_channel(channel)?;
    let frame_type = frame_type_id(selector)?;
    let mut header = Encoder::with_capacity(FRAME_HEADER_SIZE);
    header.write_u8(frame_type);
    header.write_u16(number);
    header.write_u32(((payload_len as u64) % 0x1_0000_0000) as u32);
    assert(header@ =~= frame_header_bytes(frame_type, number, payload_len as nat));
    Ok(header.into_vec())
}

/// What a named header says, or why it says nothing: no bytes at all are
/// an empty response.
pub open spec fn parse_frame_header_named(data: Seq<u8>) -> Result<(Seq<char>, u16, u32), Failure> {
    if data.len() == 0 {
        Err(Failure::EmptyResponse)
    } else {
        match parse_frame_header(data) {
            Ok(header) => Ok((header.0.name(), header.1, header.2)),
            Err(error) => Err(error),
        }
    }
}

/// What the decoding of a named header came to, over models.
pub open spec fn named_header_outcome(r: Result<(&'static str, u16, u32), AmqpError>) -> Result<
    (Seq<char>, u16, u32),
    Failure,
> {
    match r {
        Ok(header) => Ok((header.0@, header.1, header.2)),
        Err(error) => Err(error@),
    }
}

/// Decodes a frame header and gives the frame type by its word.
pub fn decode_frame_header_named(data: &[u8]) -> (r: Result<(&'static str, u16, u32), AmqpError>)
    ensures
        named_header_outcome(r) == parse_frame_header_named(data@),
{
    if data.len() == 0 {
        return Err(AmqpError::EmptyResponse);
    }
    let (frame_type, channel, size) = decode_frame_header(data)?;
    Ok((frame_type.symbol_name(), channel, size))
}

} // verus!
