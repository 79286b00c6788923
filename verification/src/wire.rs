//! The integer layouts of the wire grammar, as specifications.
//!
//! Every multi-byte integer on the wire is big-endian; signed integers are
//! two's complement.

use vstd::prelude::*;

verus! {

/// The two bytes of `v`, most significant first.
pub open spec fn be_u16(v: u16) -> Seq<u8> {
    seq![(v / 0x100) as u8, (v % 0x100) as u8]
}

/// The four bytes of `v`, most significant first.
pub open spec fn be_u32(v: u32) -> Seq<u8> {
    seq![
        (v / 0x100_0000) as u8,
        (v / 0x1_0000 % 0x100) as u8,
        (v / 0x100 % 0x100) as u8,
        (v % 0x100) as u8,
    ]
}

/// The eight bytes of `v`, most significant first: the four of its high
/// half, then the four of its low half.
pub open spec fn be_u64(v: u64) -> Seq<u8> {
    be_u32((v / 0x1_0000_0000) as u32) + be_u32((v % 0x1_0000_0000) as u32)
}

/// The unsigned 16-bit integer whose two bytes stand at `pos`.
pub open spec fn u16_at(bytes: Seq<u8>, pos: int) -> u16 {
    (bytes[pos] * 0x100 + bytes[pos + 1]) as u16
}

/// The unsigned 32-bit integer whose four bytes stand at `pos`.
pub open spec fn u32_at(bytes: Seq<u8>, pos: int) -> u32 {
    (bytes[pos] * 0x100_0000 + bytes[pos + 1] * 0x1_0000 + bytes[pos + 2] * 0x100 + bytes[pos
        + 3]) as u32
}

/// The unsigned 64-bit integer whose eight bytes stand at `pos`.
pub open spec fn u64_at(bytes: Seq<u8>, pos: int) -> u64 {
    (u32_at(bytes, pos) * 0x1_0000_0000 + u32_at(bytes, pos + 4)) as u64
}

/// The signed reading of a byte.
pub open spec fn signed8(v: u8) -> i8 {
    if v < 0x80 {
        v as i8
    } else {
        (v - 0x100) as i8
    }
}

/// The signed reading of 16 bits.
pub open spec fn signed16(v: u16) -> i16 {
    if v < 0x8000 {
        v as i16
    } else {
        (v - 0x1_0000) as i16
    }
}

/// The signed reading of 32 bits.
pub open spec fn signed32(v: u32) -> i32 {
    if v < 0x8000_0000 {
        v as i32
    } else {
        (v - 0x1_0000_0000) as i32
    }
}

/// The signed reading of 64 bits.
pub open spec fn signed64(v: u64) -> i64 {
    if v < 0x8000_0000_0000_0000 {
        v as i64
    } else {
        (v - 0x1_0000_0000_0000_0000) as i64
    }
}

/// The 64 bits that stand for `v` in two's complement.
pub open spec fn unsigned64(v: i64) -> u64 {
    if v >= 0 {
        v as u64
    } else {
        (v + 0x1_0000_0000_0000_0000) as u64
    }
}

/// The eight bytes of `v` in two's complement, most significant first.
pub open spec fn be_i64(v: i64) -> Seq<u8> {
    be_u64(unsigned64(v))
}

/// What a 32-bit length field holds for a content of `len` bytes: the length
/// itself where it fits, its low 32 bits where it does not.
pub open spec fn length_field(len: nat) -> u32 {
    (len % 0x1_0000_0000) as u32
}

/// Two bytes written big-endian read back as the integer they were made of,
/// wherever in an input they stand.
pub proof fn lemma_u16_round_trip(input: Seq<u8>, pos: int, v: u16)
    requires
        0 <= pos,
        pos + 2 <= input.len(),
        input.subrange(pos, pos + 2) == be_u16(v),
    ensures
        u16_at(input, pos) == v,
{
    let window = input.subrange(pos, pos + 2);
    assert(input[pos] == window[0]);
    assert(input[pos + 1] == window[1]);
}

/// Four bytes written big-endian read back as the integer they were made of,
/// wherever in an input they stand.
pub proof fn lemma_u32_round_trip(input: Seq<u8>, pos: int, v: u32)
    requires
        0 <= pos,
        pos + 4 <= input.len(),
        input.subrange(pos, pos + 4) == be_u32(v),
    ensures
        u32_at(input, pos) == v,
{
    let window = input.subrange(pos, pos + 4);
    assert(input[pos] == window[0]);
    assert(input[pos + 1] == window[1]);
    assert(input[pos + 2] == window[2]);
    assert(input[pos + 3] == window[3]);
}

/// Eight bytes written big-endian read back as the integer they were made
/// of, wherever in an input they stand.
pub proof fn lemma_u64_round_trip(input: Seq<u8>, pos: int, v: u64)
    requires
        0 <= pos,
        pos + 8 <= input.len(),
        input.subrange(pos, pos + 8) == be_u64(v),
    ensures
        u64_at(input, pos) == v,
{
    let high = (v / 0x1_0000_0000) as u32;
    let low = (v % 0x1_0000_0000) as u32;
    let window = input.subrange(pos, pos + 8);
    assert(input.subrange(pos, pos + 4) =~= window.subrange(0, 4));
    assert(input.subrange(pos + 4, pos + 8) =~= window.subrange(4, 8));
    assert(window.subrange(0, 4) =~= be_u32(high));
    assert(window.subrange(4, 8) =~= be_u32(low));
    lemma_u32_round_trip(input, pos, high);
    lemma_u32_round_trip(input, pos + 4, low);
}

/// The two's complement form of a signed integer reads back as that integer.
pub proof fn lemma_signed64_round_trip(v: i64)
    ensures
        signed64(unsigned64(v)) == v,
{
}

} // verus!
