//! The primitive writer and reader of the wire grammar.

use bytes::Bytes;
use bytes::BytesMut;
use vstd::prelude::*;
use vstd::slice::{slice_subrange, slice_to_vec};
use vstd::string::StringSliceAdditionalSpecFns;
use vstd::utf8::{decode_utf8, valid_utf8};
use crate::buffer::{
    buffer_as_slice, buffer_bytes, buffer_freeze, buffer_len, buffer_put_i64, buffer_put_slice,
    buffer_put_u16, buffer_put_u32, buffer_put_u64, buffer_put_u8, buffer_with_capacity,
    frozen_as_slice, frozen_bytes,
};
use crate::error::{outcome, AmqpError, Failure};
use crate::text::text_of;
use crate::wire::{
    be_i64, be_u16, be_u32, be_u64, length_field, signed16, signed32, signed64, signed8, u16_at,
    u32_at, u64_at,
};

verus! {

/// The bytes of a short string: one length byte, then the content.
pub open spec fn short_string_bytes(content: Seq<u8>) -> Seq<u8> {
    seq![content.len() as u8] + content
}

/// The bytes of a long string: a four-byte length field, then the content.
pub open spec fn long_string_bytes(content: Seq<u8>) -> Seq<u8> {
    be_u32(length_field(content.len())) + content
}

/// An outbound byte sequence under construction.
pub struct Encoder {
    buf: BytesMut,
}

impl View for Encoder {
    type V = Seq<u8>;

    /// The bytes written so far.
    closed spec fn view(&self) -> Seq<u8> {
        buffer_bytes(self.buf)
    }
}

impl Encoder {
    /// An empty encoder with room for a small frame.
    pub fn new() -> (encoder: Self)
        ensures
            encoder@ == Seq::<u8>::empty(),
    {
        Encoder { buf: buffer_with_capacity(256) }
    }

    /// An empty encoder. `capacity` is the room that is asked of the
    /// allocator in advance: it decides when the buffer has to grow, never
    /// what the encoder holds. No allocation is larger than `isize::MAX`
    /// bytes.
    pub fn with_capacity(capacity: usize) -> (encoder: Self)
        requires
            capacity <= isize::MAX,
        ensures
            encoder@ == Seq::<u8>::empty(),
    {
        Encoder { buf: buffer_with_capacity(capacity) }
    }

    /// Appends one byte.
    pub fn write_u8(&mut self, v: u8)
        ensures
            final(self)@ == old(self)@.push(v),
    {
        buffer_put_u8(&mut self.buf, v);
    }

    /// Appends `v` as two bytes, big-endian.
    pub fn write_u16(&mut self, v: u16)
        ensures
            final(self)@ == old(self)@ + be_u16(v),
    {
        buffer_put_u16(&mut self.buf, v);
    }

    /// Appends `v` as four bytes, big-endian.
    pub fn write_u32(&mut self, v: u32)
        ensures
            final(self)@ == old(self)@ + be_u32(v),
    {
        buffer_put_u32(&mut self.buf, v);
    }

    /// Appends `v` as eight bytes, two's complement, big-endian.
    pub fn write_i64(&mut self, v: i64)
        ensures
            final(self)@ == old(self)@ + be_i64(v),
    {
        buffer_put_i64(&mut self.buf, v);
    }

    /// Appends an IEEE-754 double, given by its 64 bits, as eight bytes,
    /// big-endian.
    pub fn write_f64(&mut self, bits: u64)
        ensures
            final(self)@ == old(self)@ + be_u64(bits),
    {
        buffer_put_u64(&mut self.buf, bits);
    }

    /// Appends `s` as a short string: one length byte, then the bytes of
    /// `s`. A string of more than 255 bytes is refused and nothing is
    /// written.
    pub fn write_short_string(&mut self, s: &str) -> (r: Result<(), AmqpError>)
        ensures
            s.spec_bytes().len() <= usize::MAX,
            s.spec_bytes().len() <= 255 ==> r.is_ok() && final(self)@ == old(self)@
                + short_string_bytes(s.spec_bytes()),
            s.spec_bytes().len() > 255 ==> r == Err::<(), AmqpError>(
                AmqpError::ShortStringTooLong(s.spec_bytes().len() as usize),
            ) && final(self)@ == old(self)@,
    {
        let bytes = s.as_bytes();
        let len = bytes.len();
        if len > 255 {
            return Err(AmqpError::ShortStringTooLong(len));
        }
        buffer_put_u8(&mut self.buf, len as u8);
        buffer_put_slice(&mut self.buf, bytes);
        assert(self@ =~= old(self)@ + short_string_bytes(s.spec_bytes()));
        Ok(())
    }

    /// Appends `s` as a long string: its length as four bytes, then the
    /// bytes. The length is not checked: of one that does not fit in 32
    /// bits the field holds the low 32 bits.
    pub fn write_long_string(&mut self, s: &[u8])
        ensures
            final(self)@ == old(self)@ + long_string_bytes(s@),
    {
        let field = ((s.len() as u64) % 0x1_0000_0000) as u32;
        buffer_put_u32(&mut self.buf, field);
        buffer_put_slice(&mut self.buf, s);
        assert(self@ =~= old(self)@ + long_string_bytes(s@));
    }

    /// Appends `data` unchanged.
    pub fn write_bytes(&mut self, data: &[u8])
        ensures
            final(self)@ == old(self)@ + data@,
    {
        buffer_put_slice(&mut self.buf, data);
    }

    /// Ends the writing and hands the bytes out.
    pub fn into_bytes(self) -> (bytes: Bytes)
        ensures
            frozen_bytes(bytes) == self@,
    {
        buffer_freeze(self.buf)
    }

    /// Ends the writing and hands the bytes out as a vector.
    pub fn into_vec(self) -> (bytes: Vec<u8>)
        ensures
            bytes@ == self@,
    {
        let frozen = buffer_freeze(self.buf);
        slice_to_vec(frozen_as_slice(&frozen))
    }

    /// The number of bytes written so far.
    pub fn len(&self) -> (len: usize)
        ensures
            len == self@.len(),
    {
        buffer_len(&self.buf)
    }

    /// The bytes written so far.
    pub fn as_slice(&self) -> (bytes: &[u8])
        ensures
            bytes@ == self@,
    {
        buffer_as_slice(&self.buf)
    }
}

impl Default for Encoder {
    fn default() -> (encoder: Self)
        ensures
            encoder@ == Seq::<u8>::empty(),
    {
        Encoder::new()
    }
}

/// One read, as the grammar defines it: what it yields, and by how many
/// bytes it moves the cursor. A read of the primitive reader that fails
/// does not move the cursor at all; a read of a table or an array that
/// fails has moved past the entries that it read before.
pub struct Step<T> {
    pub result: Result<T, Failure>,
    pub used: nat,
}

impl<T> Step<T> {
    /// A read that yields `value` and moves the cursor by `used` bytes.
    pub open spec fn done(value: T, used: nat) -> Step<T> {
        Step { result: Ok(value), used }
    }

    /// A read that fails with `error` after moving the cursor by `used`
    /// bytes.
    pub open spec fn failed(error: Failure, used: nat) -> Step<T> {
        Step { result: Err(error), used }
    }

    /// The same read, made after `n` bytes were already taken.
    pub open spec fn after(self, n: nat) -> Step<T> {
        Step { result: self.result, used: self.used + n }
    }

    /// The same read, with what it yields turned into something else.
    pub open spec fn map<U>(self, f: spec_fn(T) -> U) -> Step<U> {
        match self.result {
            Ok(value) => Step::done(f(value), self.used),
            Err(error) => Step::failed(error, self.used),
        }
    }
}

/// The failure of a read that needs `needed` bytes at `pos` and does not
/// find them.
pub open spec fn too_short(input: Seq<u8>, pos: nat, needed: nat) -> Failure {
    Failure::BufferTooShort { needed, available: (input.len() - pos) as nat }
}

/// Whether `needed` bytes stand at `pos`.
pub open spec fn has_bytes(input: Seq<u8>, pos: nat, needed: nat) -> bool {
    pos + needed <= input.len()
}

/// Reads one byte.
pub open spec fn take_u8(input: Seq<u8>, pos: nat) -> Step<u8> {
    if has_bytes(input, pos, 1) {
        Step::done(input[pos as int], 1)
    } else {
        Step::failed(too_short(input, pos, 1), 0)
    }
}

/// Reads two bytes as an unsigned integer, big-endian.
pub open spec fn take_u16(input: Seq<u8>, pos: nat) -> Step<u16> {
    if has_bytes(input, pos, 2) {
        Step::done(u16_at(input, pos as int), 2)
    } else {
        Step::failed(too_short(input, pos, 2), 0)
    }
}

/// Reads four bytes as an unsigned integer, big-endian.
pub open spec fn take_u32(input: Seq<u8>, pos: nat) -> Step<u32> {
    if has_bytes(input, pos, 4) {
        Step::done(u32_at(input, pos as int), 4)
    } else {
        Step::failed(too_short(input, pos, 4), 0)
    }
}

/// Reads eight bytes as an unsigned integer, big-endian.
pub open spec fn take_u64(input: Seq<u8>, pos: nat) -> Step<u64> {
    if has_bytes(input, pos, 8) {
        Step::done(u64_at(input, pos as int), 8)
    } else {
        Step::failed(too_short(input, pos, 8), 0)
    }
}

/// Reads one byte as a signed integer.
pub open spec fn take_i8(input: Seq<u8>, pos: nat) -> Step<i8> {
    if has_bytes(input, pos, 1) {
        Step::done(signed8(input[pos as int]), 1)
    } else {
        Step::failed(too_short(input, pos, 1), 0)
    }
}

/// Reads two bytes as a signed integer, big-endian.
pub open spec fn take_i16(input: Seq<u8>, pos: nat) -> Step<i16> {
    if has_bytes(input, pos, 2) {
        Step::done(signed16(u16_at(input, pos as int)), 2)
    } else {
        Step::failed(too_short(input, pos, 2), 0)
    }
}

/// Reads four bytes as a signed integer, big-endian.
pub open spec fn take_i32(input: Seq<u8>, pos: nat) -> Step<i32> {
    if has_bytes(input, pos, 4) {
        Step::done(signed32(u32_at(input, pos as int)), 4)
    } else {
        Step::failed(too_short(input, pos, 4), 0)
    }
}

/// Reads eight bytes as a signed integer, big-endian.
pub open spec fn take_i64(input: Seq<u8>, pos: nat) -> Step<i64> {
    if has_bytes(input, pos, 8) {
        Step::done(signed64(u64_at(input, pos as int)), 8)
    } else {
        Step::failed(too_short(input, pos, 8), 0)
    }
}

/// Reads `len` bytes that follow a length prefix of `prefix` bytes. Where
/// they are not all there, the cursor does not move, not even past the
/// prefix: the failure tells how many bytes were needed behind the prefix
/// and how many are there.
pub open spec fn take_body(input: Seq<u8>, pos: nat, prefix: nat, len: nat) -> Step<Seq<u8>> {
    if has_bytes(input, pos + prefix, len) {
        Step::done(input.subrange((pos + prefix) as int, (pos + prefix + len) as int), prefix + len)
    } else {
        Step::failed(too_short(input, pos + prefix, len), 0)
    }
}

/// Reads a short string: one length byte, then that many bytes.
pub open spec fn take_short_string(input: Seq<u8>, pos: nat) -> Step<Seq<u8>> {
    match take_u8(input, pos).result {
        Ok(len) => take_body(input, pos, 1, len as nat),
        Err(error) => Step::failed(error, 0),
    }
}

/// Reads a long string: a four-byte length, then that many bytes.
pub open spec fn take_long_string(input: Seq<u8>, pos: nat) -> Step<Seq<u8>> {
    match take_u32(input, pos).result {
        Ok(len) => take_body(input, pos, 4, len as nat),
        Err(error) => Step::failed(error, 0),
    }
}

/// The message of the failure to read bytes as text.
pub open spec fn invalid_utf8_message() -> Seq<char> {
    "Invalid UTF-8"@
}

/// Reads a short string as text. Bytes that are not well-formed UTF-8
/// fail, and the cursor does not move.
pub open spec fn take_short_text(input: Seq<u8>, pos: nat) -> Step<Seq<char>> {
    let raw = take_short_string(input, pos);
    match raw.result {
        Ok(bytes) => if valid_utf8(bytes) {
            Step::done(decode_utf8(bytes), raw.used)
        } else {
            Step::failed(Failure::DecodingError(invalid_utf8_message()), 0)
        },
        Err(error) => Step::failed(error, 0),
    }
}

/// What a read of bytes came to, over models.
pub open spec fn slice_outcome(r: Result<&[u8], AmqpError>) -> Result<Seq<u8>, Failure> {
    match r {
        Ok(bytes) => Ok(bytes@),
        Err(error) => Err(error@),
    }
}

/// What a read of text came to, over models.
pub open spec fn text_outcome(r: Result<&str, AmqpError>) -> Result<Seq<char>, Failure> {
    match r {
        Ok(text) => Ok(text@),
        Err(error) => Err(error@),
    }
}

/// A cursor over an input that is never changed: every read checks that
/// the bytes it needs are there before it moves.
pub struct Decoder<'a> {
    data: &'a [u8],
    pos: usize,
}

impl<'a> Decoder<'a> {
    /// The whole input.
    pub closed spec fn input(&self) -> Seq<u8> {
        self.data@
    }

    /// The number of bytes read so far.
    pub closed spec fn cursor(&self) -> nat {
        self.pos as nat
    }

    /// The cursor never leaves the input.
    #[verifier::type_invariant]
    pub open spec fn in_bounds(&self) -> bool {
        self.cursor() <= self.input().len()
    }

    /// Whether this decoder is `before` after the read `step`: the same
    /// input, the cursor moved by what the read used.
    pub open spec fn stepped<T>(&self, before: &Decoder<'a>, step: Step<T>) -> bool {
        &&& self.input() == before.input()
        &&& self.cursor() == before.cursor() + step.used
    }

    /// A decoder at the start of `data`.
    pub fn new(data: &'a [u8]) -> (decoder: Self)
        ensures
            decoder.input() == data@,
            decoder.cursor() == 0,
    {
        Decoder { data, pos: 0 }
    }

    /// The number of bytes not read yet.
    pub fn remaining(&self) -> (n: usize)
        ensures
            n == self.input().len() - self.cursor(),
    {
        proof {
            use_type_invariant(self);
        }
        self.data.len() - self.pos
    }

    /// The number of bytes read so far.
    pub fn position(&self) -> (pos: usize)
        ensures
            pos == self.cursor(),
            pos <= self.input().len(),
    {
        proof {
            use_type_invariant(self);
        }
        self.pos
    }

    /// Checks that `n` more bytes can be read.
    pub fn ensure(&self, n: usize) -> (r: Result<(), AmqpError>)
        ensures
            has_bytes(self.input(), self.cursor(), n as nat) ==> r.is_ok(),
            !has_bytes(self.input(), self.cursor(), n as nat) ==> r.is_err() && r->Err_0@
                == too_short(self.input(), self.cursor(), n as nat),
    {
        let available = self.remaining();
        if available < n {
            Err(AmqpError::BufferTooShort { needed: n, available })
        } else {
            Ok(())
        }
    }

    /// Reads one byte.
    pub fn read_u8(&mut self) -> (r: Result<u8, AmqpError>)
        ensures
            final(self).stepped(old(self), take_u8(old(self).input(), old(self).cursor())),
            outcome(r) == take_u8(old(self).input(), old(self).cursor()).result,
    {
        self.ensure(1)?;
        proof {
            use_type_invariant(&*self);
        }
        let v = self.data[self.pos];
        self.pos += 1;
        Ok(v)
    }

    /// Reads one byte as a signed integer.
    pub fn read_i8(&mut self) -> (r: Result<i8, AmqpError>)
        ensures
            final(self).stepped(old(self), take_i8(old(self).input(), old(self).cursor())),
            outcome(r) == take_i8(old(self).input(), old(self).cursor()).result,
    {
        let v = self.read_u8()?;
        if v < 0x80 {
            Ok(v as i8)
        } else {
            Ok((v - 0x80) as i8 + i8::MIN)
        }
    }

    /// Reads two bytes as an unsigned integer, big-endian.
    pub fn read_u16(&mut self) -> (r: Result<u16, AmqpError>)
        ensures
            final(self).stepped(old(self), take_u16(old(self).input(), old(self).cursor())),
            outcome(r) == take_u16(old(self).input(), old(self).cursor()).result,
    {
        self.ensure(2)?;
        proof {
            use_type_invariant(&*self);
        }
        let v = self.data[self.pos] as u16 * 0x100 + self.data[self.pos + 1] as u16;
        self.pos += 2;
        Ok(v)
    }

    /// Reads two bytes as a signed integer, big-endian.
    pub fn read_i16(&mut self) -> (r: Result<i16, AmqpError>)
        ensures
            final(self).stepped(old(self), take_i16(old(self).input(), old(self).cursor())),
            outcome(r) == take_i16(old(self).input(), old(self).cursor()).result,
    {
        let v = self.read_u16()?;
        if v < 0x8000 {
            Ok(v as i16)
        } else {
            Ok((v - 0x8000) as i16 + i16::MIN)
        }
    }

    /// Reads four bytes as an unsigned integer, big-endian.
    pub fn read_u32(&mut self) -> (r: Result<u32, AmqpError>)
        ensures
            final(self).stepped(old(self), take_u32(old(self).input(), old(self).cursor())),
            outcome(r) == take_u32(old(self).input(), old(self).cursor()).result,
    {
        self.ensure(4)?;
        proof {
            use_type_invariant(&*self);
        }
        let v = self.data[self.pos] as u32 * 0x100_0000 + self.data[self.pos + 1] as u32
            * 0x1_0000 + self.data[self.pos + 2] as u32 * 0x100 + self.data[self.pos + 3] as u32;
        self.pos += 4;
        Ok(v)
    }

    /// Reads four bytes as a signed integer, big-endian.
    pub fn read_i32(&mut self) -> (r: Result<i32, AmqpError>)
        ensures
            final(self).stepped(old(self), take_i32(old(self).input(), old(self).cursor())),
            outcome(r) == take_i32(old(self).input(), old(self).cursor()).result,
    {
        let v = self.read_u32()?;
        if v < 0x8000_0000 {
            Ok(v as i32)
        } else {
            Ok((v - 0x8000_0000) as i32 + i32::MIN)
        }
    }

    /// Reads eight bytes as an unsigned integer, big-endian.
    pub fn read_u64(&mut self) -> (r: Result<u64, AmqpError>)
        ensures
            final(self).stepped(old(self), take_u64(old(self).input(), old(self).cursor())),
            outcome(r) == take_u64(old(self).input(), old(self).cursor()).result,
    {
        self.ensure(8)?;
        let high = self.read_u32()?;
        let low = self.read_u32()?;
        Ok(high as u64 * 0x1_0000_0000 + low as u64)
    }

    /// Reads eight bytes as a signed integer, big-endian.
    pub fn read_i64(&mut self) -> (r: Result<i64, AmqpError>)
        ensures
            final(self).stepped(old(self), take_i64(old(self).input(), old(self).cursor())),
            outcome(r) == take_i64(old(self).input(), old(self).cursor()).result,
    {
        let v = self.read_u64()?;
        if v < 0x8000_0000_0000_0000 {
            Ok(v as i64)
        } else {
            Ok((v - 0x8000_0000_0000_0000) as i64 + i64::MIN)
        }
    }

    /// Reads four bytes as the 32 bits of an IEEE-754 single, big-endian.
    pub fn read_f32(&mut self) -> (r: Result<u32, AmqpError>)
        ensures
            final(self).stepped(old(self), take_u32(old(self).input(), old(self).cursor())),
            outcome(r) == take_u32(old(self).input(), old(self).cursor()).result,
    {
        self.read_u32()
    }

    /// Reads eight bytes as the 64 bits of an IEEE-754 double, big-endian.
    pub fn read_f64(&mut self) -> (r: Result<u64, AmqpError>)
        ensures
            final(self).stepped(old(self), take_u64(old(self).input(), old(self).cursor())),
            outcome(r) == take_u64(old(self).input(), old(self).cursor()).result,
    {
        self.read_u64()
    }

    /// The `len` bytes that follow a length prefix of `prefix` bytes at the
    /// cursor, which the caller has found to be there. The cursor does not
    /// move.
    fn peek_body(&self, prefix: usize, len: usize) -> (r: Result<&'a [u8], AmqpError>)
        requires
            has_bytes(self.input(), self.cursor(), prefix as nat),
        ensures
            slice_outcome(r) == take_body(
                self.input(),
                self.cursor(),
                prefix as nat,
                len as nat,
            ).result,
    {
        let available = self.remaining() - prefix;
        if available < len {
            return Err(AmqpError::BufferTooShort { needed: len, available });
        }
        let data: &'a [u8] = self.data;
        assert(self.pos + prefix + len <= data.len());
        Ok(slice_subrange(data, self.pos + prefix, self.pos + prefix + len))
    }

    /// Reads the `len` bytes that follow a length prefix of `prefix` bytes
    /// at the cursor, which the caller has found to be there. The cursor
    /// moves past prefix and bytes together, or not at all.
    fn read_body(&mut self, prefix: usize, len: usize) -> (r: Result<&'a [u8], AmqpError>)
        requires
            has_bytes(old(self).input(), old(self).cursor(), prefix as nat),
        ensures
            final(self).stepped(
                old(self),
                take_body(old(self).input(), old(self).cursor(), prefix as nat, len as nat),
            ),
            slice_outcome(r) == take_body(
                old(self).input(),
                old(self).cursor(),
                prefix as nat,
                len as nat,
            ).result,
    {
        let bytes = self.peek_body(prefix, len)?;
        assert(self.pos + prefix + len <= self.data.len());
        self.pos += prefix + len;
        Ok(bytes)
    }

    /// The byte at the cursor, which the caller has found to be there.
    fn peek_u8(&self) -> (v: u8)
        requires
            has_bytes(self.input(), self.cursor(), 1),
        ensures
            take_u8(self.input(), self.cursor()).result == Ok::<u8, Failure>(v),
    {
        self.data[self.pos]
    }

    /// The four bytes at the cursor as an unsigned integer, big-endian. The
    /// caller has found them to be there.
    fn peek_u32(&self) -> (v: u32)
        requires
            has_bytes(self.input(), self.cursor(), 4),
        ensures
            take_u32(self.input(), self.cursor()).result == Ok::<u32, Failure>(v),
    {
        self.data[self.pos] as u32 * 0x100_0000 + self.data[self.pos + 1] as u32 * 0x1_0000
            + self.data[self.pos + 2] as u32 * 0x100 + self.data[self.pos + 3] as u32
    }

    /// Reads a short string as text: one length byte, then that many bytes,
    /// which must be well-formed UTF-8. Where the read fails the cursor
    /// does not move.
    pub fn read_short_string(&mut self) -> (r: Result<&'a str, AmqpError>)
        ensures
            final(self).stepped(
                old(self),
                take_short_text(old(self).input(), old(self).cursor()),
            ),
            text_outcome(r) == take_short_text(old(self).input(), old(self).cursor()).result,
    {
        self.ensure(1)?;
        let len = self.peek_u8() as usize;
        let bytes = self.peek_body(1, len)?;
        match text_of(bytes) {
            Some(text) => {
                assert(self.pos + 1 + len <= self.data.len());
                self.pos += 1 + len;
                Ok(text)
            },
            None => Err(AmqpError::DecodingError("Invalid UTF-8".to_owned())),
        }
    }

    /// Reads a short string as bytes: one length byte, then that many
    /// bytes. Where they are not all there the cursor does not move.
    pub fn read_short_string_bytes(&mut self) -> (r: Result<&'a [u8], AmqpError>)
        ensures
            final(self).stepped(
                old(self),
                take_short_string(old(self).input(), old(self).cursor()),
            ),
            slice_outcome(r) == take_short_string(old(self).input(), old(self).cursor()).result,
    {
        self.ensure(1)?;
        let len = self.peek_u8() as usize;
        self.read_body(1, len)
    }

    /// Reads a long string: a four-byte length, then that many bytes. The
    /// bytes are a view into the input: nothing is copied. Where they are
    /// not all there the cursor does not move.
    pub fn read_long_string(&mut self) -> (r: Result<&'a [u8], AmqpError>)
        ensures
            final(self).stepped(
                old(self),
                take_long_string(old(self).input(), old(self).cursor()),
            ),
            slice_outcome(r) == take_long_string(old(self).input(), old(self).cursor()).result,
    {
        self.ensure(4)?;
        let len = self.peek_u32() as usize;
        self.read_body(4, len)
    }
}

} // verus!
