//! The field-table grammar: what a table is on the wire, and how bytes are
//! read back as a table.
//!
//! A table is a four-byte length followed by that many bytes of content; the
//! content is a run of entries, each a short-string key, a one-byte type tag
//! and the payload that the tag calls for. An array is the same without
//! keys.

use vstd::prelude::*;
use vstd::utf8::{decode_utf8, encode_utf8, valid_utf8};
use crate::error::{bytes_outcome, outcome, AmqpError, Failure};
use crate::key_limit::{
    entries_are_written, entries_have_long_key, keeps_key_limit, lemma_long_key_found,
    lemma_table_key_limit,
};
use crate::types::{
    has_bytes, long_string_bytes, short_string_bytes, take_i16, take_i32, take_i64, take_i8,
    take_long_string, take_short_string, take_u32, take_u64, take_u8, too_short, Decoder,
    Encoder, Step,
};
use crate::value::{entries_view, items_view, Entries, FieldValue, Value};
use crate::wire::{be_i64, be_u64, u32_at};

verus! {

/// The tag `S` of a long string.
pub const TAG_STRING: u8 = 0x53;

/// The tag `I` of a signed 32-bit integer.
pub const TAG_INTEGER: u8 = 0x49;

/// The tag `T` of a timestamp.
pub const TAG_TIME: u8 = 0x54;

/// The tag `D` of a decimal.
pub const TAG_DECIMAL: u8 = 0x44;

/// The tag `F` of a nested table.
pub const TAG_HASH: u8 = 0x46;

/// The tag `A` of a nested array.
pub const TAG_ARRAY: u8 = 0x41;

/// The tag `b` of a signed 8-bit integer.
pub const TAG_BYTE: u8 = 0x62;

/// The tag `d` of a 64-bit float.
pub const TAG_DOUBLE: u8 = 0x64;

/// The tag `f` of a 32-bit float.
pub const TAG_FLOAT: u8 = 0x66;

/// The tag `l` of a signed 64-bit integer.
pub const TAG_LONG: u8 = 0x6C;

/// The tag `s` of a signed 16-bit integer.
pub const TAG_SHORT: u8 = 0x73;

/// The tag `t` of a boolean.
pub const TAG_BOOLEAN: u8 = 0x74;

/// The tag `x` of a byte array.
pub const TAG_BYTE_ARRAY: u8 = 0x78;

/// The tag `V` of the void value.
pub const TAG_VOID: u8 = 0x56;

/// The longest key, in bytes, that an entry can carry.
pub const MAX_KEY_LEN: usize = 255;

/// The name of the kind of a value, as failures give it.
pub open spec fn kind_name(v: Value) -> Seq<char> {
    match v {
        Value::LongString(_) => "LongString"@,
        Value::ShortInt(_) => "ShortInt"@,
        Value::Int(_) => "Int"@,
        Value::LongInt(_) => "LongInt"@,
        Value::Byte(_) => "Byte"@,
        Value::ByteArray(_) => "ByteArray"@,
        Value::Float32(_) => "Float32"@,
        Value::Float64(_) => "Float64"@,
        Value::Boolean(_) => "Boolean"@,
        Value::Timestamp(_) => "Timestamp"@,
        Value::Decimal { .. } => "Decimal"@,
        Value::Table(_) => "Table"@,
        Value::Array(_) => "Array"@,
        Value::Void => "Void"@,
    }
}

/// The message of the failure to encode a key of more than 255 bytes.
pub open spec fn key_too_long_message() -> Seq<char> {
    "Table key too long (max 255)"@
}

/// The message of the failure to read a key that is not UTF-8.
pub open spec fn invalid_key_message() -> Seq<char> {
    "Invalid UTF-8 in key"@
}

/// The message of the failure to read a table whose last entry ends behind
/// the end that the table declares.
pub open spec fn table_overrun_message() -> Seq<char> {
    "Table entry runs past the declared length"@
}

/// The message of the failure to read an array whose last item ends behind
/// the end that the array declares.
pub open spec fn array_overrun_message() -> Seq<char> {
    "Array item runs past the declared length"@
}

/// A content with its four-byte length in front, where there is a content.
pub open spec fn framed(content: Result<Seq<u8>, Failure>) -> Result<Seq<u8>, Failure> {
    match content {
        Ok(bytes) => Ok(long_string_bytes(bytes)),
        Err(error) => Err(error),
    }
}

/// `first` and then `second`, or the first failure of the two.
pub open spec fn joined(first: Result<Seq<u8>, Failure>, second: Result<Seq<u8>, Failure>)
    -> Result<Seq<u8>, Failure> {
    match first {
        Ok(head) => match second {
            Ok(tail) => Ok(head + tail),
            Err(error) => Err(error),
        },
        Err(error) => Err(error),
    }
}

/// The wire form of one value, tag first. `key` is the key of the table
/// entry that the value stands under, itself or inside an array: a value of
/// a kind that the encoder does not write fails under that key.
pub open spec fn value_bytes(key: Seq<char>, v: Value) -> Result<Seq<u8>, Failure>
    decreases v, 0nat,
{
    match v {
        Value::Void => Ok(seq![TAG_VOID]),
        Value::LongString(bytes) => Ok(seq![TAG_STRING] + long_string_bytes(bytes)),
        Value::LongInt(n) => Ok(seq![TAG_LONG] + be_i64(n)),
        Value::Float64(bits) => Ok(seq![TAG_DOUBLE] + be_u64(bits)),
        Value::Boolean(flag) => Ok(
            seq![
                TAG_BOOLEAN,
                if flag {
                    1u8
                } else {
                    0u8
                },
            ],
        ),
        Value::Table(pairs) => joined(Ok(seq![TAG_HASH]), table_bytes(pairs)),
        Value::Array(items) => joined(Ok(seq![TAG_ARRAY]), array_bytes(key, items)),
        Value::Timestamp(seconds) => Ok(seq![TAG_TIME] + be_i64(seconds)),
        _ => Err(Failure::InvalidTableValue(key, kind_name(v))),
    }
}

/// The wire form of one entry: the key as a short string, then the value.
/// A key of more than 255 bytes fails.
pub open spec fn entry_bytes(key: Seq<char>, v: Value) -> Result<Seq<u8>, Failure>
    decreases v, 1nat,
{
    if encode_utf8(key).len() > MAX_KEY_LEN {
        Err(Failure::EncodingError(key_too_long_message()))
    } else {
        joined(Ok(short_string_bytes(encode_utf8(key))), value_bytes(key, v))
    }
}

/// The wire form of the first `n` entries of `pairs`, one after the other,
/// or the failure of the first entry that has none.
pub open spec fn entries_bytes(pairs: Entries, n: nat) -> Result<Seq<u8>, Failure>
    decreases pairs, n,
{
    if n == 0 || n > pairs.len() {
        Ok(Seq::empty())
    } else {
        joined(entries_bytes(pairs, (n - 1) as nat), entry_bytes(pairs[n - 1].0, pairs[n - 1].1))
    }
}

/// The wire form of the first `n` items of an array, one after the other,
/// or the failure of the first item that has none.
pub open spec fn items_bytes(key: Seq<char>, items: Seq<Value>, n: nat) -> Result<
    Seq<u8>,
    Failure,
>
    decreases items, n,
{
    if n == 0 || n > items.len() {
        Ok(Seq::empty())
    } else {
        joined(items_bytes(key, items, (n - 1) as nat), value_bytes(key, items[n - 1]))
    }
}

/// The wire form of a table: the length of its content, then the content.
pub open spec fn table_bytes(pairs: Entries) -> Result<Seq<u8>, Failure>
    decreases pairs, pairs.len() + 1,
{
    framed(entries_bytes(pairs, pairs.len()))
}

/// The wire form of an array: the length of its content, then the content.
pub open spec fn array_bytes(key: Seq<char>, items: Seq<Value>) -> Result<Seq<u8>, Failure>
    decreases items, items.len() + 1,
{
    framed(items_bytes(key, items, items.len()))
}

/// Whether a write came to what the grammar expects: on success `bytes`
/// were appended, on failure the error is the expected one.
pub open spec fn appended(
    before: Seq<u8>,
    after: Seq<u8>,
    r: Result<(), AmqpError>,
    expected: Result<Seq<u8>, Failure>,
) -> bool {
    match expected {
        Ok(bytes) => r.is_ok() && after == before + bytes,
        Err(error) => r.is_err() && r->Err_0@ == error,
    }
}

/// What a failed write of a value leaves behind: the tag of a nested table
/// or array is written before its content is looked at.
pub open spec fn left_on_failure(v: Value) -> Seq<u8> {
    match v {
        Value::Table(_) => seq![TAG_HASH],
        Value::Array(_) => seq![TAG_ARRAY],
        _ => Seq::empty(),
    }
}

/// Once an entry has failed, so has every longer run of entries.
pub proof fn lemma_entries_failure_stays(pairs: Entries, k: nat, n: nat)
    requires
        k <= n <= pairs.len(),
        entries_bytes(pairs, k).is_err(),
    ensures
        entries_bytes(pairs, n) == entries_bytes(pairs, k),
    decreases n - k,
{
    if k < n {
        lemma_entries_failure_stays(pairs, k, (n - 1) as nat);
    }
}

/// Once an item has failed, so has every longer run of items.
pub proof fn lemma_items_failure_stays(key: Seq<char>, items: Seq<Value>, k: nat, n: nat)
    requires
        k <= n <= items.len(),
        items_bytes(key, items, k).is_err(),
    ensures
        items_bytes(key, items, n) == items_bytes(key, items, k),
    decreases n - k,
{
    if k < n {
        lemma_items_failure_stays(key, items, k, (n - 1) as nat);
    }
}

/// The name of the kind of a value.
pub fn kind_of(value: &FieldValue) -> (name: &'static str)
    ensures
        name@ == kind_name(value@),
{
    match value {
        FieldValue::LongString(_) => "LongString",
        FieldValue::ShortInt(_) => "ShortInt",
        FieldValue::Int(_) => "Int",
        FieldValue::LongInt(_) => "LongInt",
        FieldValue::Byte(_) => "Byte",
        FieldValue::ByteArray(_) => "ByteArray",
        FieldValue::Float32(_) => "Float32",
        FieldValue::Float64(_) => "Float64",
        FieldValue::Boolean(_) => "Boolean",
        FieldValue::Timestamp(_) => "Timestamp",
        FieldValue::Decimal { .. } => "Decimal",
        FieldValue::Table(_) => "Table",
        FieldValue::Array(_) => "Array",
        FieldValue::Void => "Void",
    }
}

/// Encodes a table: the pairs in the order given, behind the length of
/// their content. A key of more than 255 bytes, wherever it stands, makes
/// the table fail: no key is cut and no length wraps.
pub fn encode_table(pairs: &Vec<(String, FieldValue)>) -> (r: Result<Vec<u8>, AmqpError>)
    ensures
        bytes_outcome(r) == table_bytes(entries_view(pairs@)),
        keeps_key_limit(
            bytes_outcome(r),
            entries_have_long_key(entries_view(pairs@), pairs@.len()),
            entries_are_written(entries_view(pairs@), pairs@.len()),
        ),
        (exists|i: int| 0 <= i < pairs@.len() && encode_utf8(#[trigger] pairs@[i].0@).len() > 255)
            ==> r.is_err(),
{
    proof {
        lemma_table_key_limit(entries_view(pairs@));
        if exists|i: int|
            0 <= i < pairs@.len() && encode_utf8(#[trigger] pairs@[i].0@).len() > 255 {
            let i = choose|i: int|
                0 <= i < pairs@.len() && encode_utf8(#[trigger] pairs@[i].0@).len() > 255;
            lemma_long_key_found(entries_view(pairs@), i, pairs@.len());
        }
    }
    let mut encoder = Encoder::new();
    match encode_table_inner(pairs, &mut encoder) {
        Ok(()) => {
            assert(encoder@ =~= table_bytes(entries_view(pairs@))->Ok_0);
            Ok(encoder.into_vec())
        },
        Err(error) => Err(error),
    }
}

/// Appends the wire form of a table to `encoder`. Where an entry cannot be
/// encoded nothing is appended.
pub fn encode_table_inner(pairs: &Vec<(String, FieldValue)>, encoder: &mut Encoder) -> (r:
    Result<(), AmqpError>)
    ensures
        appended(old(encoder)@, final(encoder)@, r, table_bytes(entries_view(pairs@))),
        r.is_err() ==> final(encoder)@ == old(encoder)@,
    decreases pairs,
{
    let ghost entries = entries_view(pairs@);
    let mut content = Encoder::new();
    let mut i: usize = 0;
    while i < pairs.len()
        invariant
            i <= pairs.len(),
            entries == entries_view(pairs@),
            entries_bytes(entries, i as nat) == Ok::<Seq<u8>, Failure>(content@),
            encoder@ == old(encoder)@,
        decreases pairs.len() - i,
    {
        let key = pairs[i].0.as_str();
        let key_bytes = key.as_bytes();
        let ghost before = content@;
        assert(entries[i as int] == (pairs[i as int].0@, pairs[i as int].1@));
        if key_bytes.len() > MAX_KEY_LEN {
            proof {
                lemma_entries_failure_stays(entries, (i + 1) as nat, pairs.len() as nat);
            }
            return Err(AmqpError::EncodingError("Table key too long (max 255)".to_owned()));
        }
        content.write_u8(key_bytes.len() as u8);
        content.write_bytes(key_bytes);
        assert(content@ =~= before + short_string_bytes(encode_utf8(key@)));
        match encode_field_value(key, &pairs[i].1, &mut content) {
            Ok(()) => {},
            Err(error) => {
                proof {
                    lemma_entries_failure_stays(entries, (i + 1) as nat, pairs.len() as nat);
                }
                return Err(error);
            },
        }
        assert(content@ =~= before + entry_bytes(entries[i as int].0, entries[i as int].1)->Ok_0);
        i += 1;
    }
    encoder.write_long_string(content.as_slice());
    Ok(())
}

/// Appends the wire form of one value, tag first. A value of a kind that
/// has no wire form fails under `key`, the key of the entry it belongs to.
pub fn encode_field_value(key: &str, value: &FieldValue, encoder: &mut Encoder) -> (r: Result<
    (),
    AmqpError,
>)
    ensures
        appended(old(encoder)@, final(encoder)@, r, value_bytes(key@, value@)),
        r.is_err() ==> final(encoder)@ == old(encoder)@ + left_on_failure(value@),
    decreases value,
{
    match value {
        FieldValue::Void => {
            encoder.write_u8(TAG_VOID);
            assert(encoder@ =~= old(encoder)@ + seq![TAG_VOID]);
            Ok(())
        },
        FieldValue::LongString(bytes) => {
            encoder.write_u8(TAG_STRING);
            encoder.write_long_string(bytes.as_slice());
            assert(encoder@ =~= old(encoder)@ + (seq![TAG_STRING] + long_string_bytes(bytes@)));
            Ok(())
        },
        FieldValue::LongInt(n) => {
            encoder.write_u8(TAG_LONG);
            encoder.write_i64(*n);
            assert(encoder@ =~= old(encoder)@ + (seq![TAG_LONG] + be_i64(*n)));
            Ok(())
        },
        FieldValue::Float64(bits) => {
            encoder.write_u8(TAG_DOUBLE);
            encoder.write_f64(*bits);
            assert(encoder@ =~= old(encoder)@ + (seq![TAG_DOUBLE] + be_u64(*bits)));
            Ok(())
        },
        FieldValue::Boolean(flag) => {
            encoder.write_u8(TAG_BOOLEAN);
            encoder.write_u8(
                if *flag {
                    1
                } else {
                    0
                },
            );
            assert(encoder@ =~= old(encoder)@ + value_bytes(key@, value@)->Ok_0);
            Ok(())
        },
        FieldValue::Table(pairs) => {
            encoder.write_u8(TAG_HASH);
            let ghost tagged = encoder@;
            let r = encode_table_inner(pairs, encoder);
            proof {
                assert(tagged =~= old(encoder)@ + seq![TAG_HASH]);
                if r.is_ok() {
                    assert(encoder@ =~= old(encoder)@ + value_bytes(key@, value@)->Ok_0);
                }
            }
            r
        },
        FieldValue::Array(items) => {
            encoder.write_u8(TAG_ARRAY);
            let ghost tagged = encoder@;
            let r = encode_array(key, items, encoder);
            proof {
                assert(tagged =~= old(encoder)@ + seq![TAG_ARRAY]);
                if r.is_ok() {
                    assert(encoder@ =~= old(encoder)@ + value_bytes(key@, value@)->Ok_0);
                }
            }
            r
        },
        FieldValue::Timestamp(seconds) => {
            encoder.write_u8(TAG_TIME);
            encoder.write_i64(*seconds);
            assert(encoder@ =~= old(encoder)@ + (seq![TAG_TIME] + be_i64(*seconds)));
            Ok(())
        },
        _ => {
            assert(encoder@ =~= old(encoder)@ + left_on_failure(value@));
            Err(AmqpError::InvalidTableValue(key.to_owned(), kind_of(value).to_owned()))
        },
    }
}

/// Appends the wire form of an array: the items in order, without keys,
/// behind the length of their content. Where an item cannot be encoded
/// nothing is appended.
pub fn encode_array(key: &str, items: &Vec<FieldValue>, encoder: &mut Encoder) -> (r: Result<
    (),
    AmqpError,
>)
    ensures
        appended(old(encoder)@, final(encoder)@, r, array_bytes(key@, items_view(items@))),
        r.is_err() ==> final(encoder)@ == old(encoder)@,
    decreases items,
{
    let ghost values = items_view(items@);
    let mut content = Encoder::new();
    let mut i: usize = 0;
    while i < items.len()
        invariant
            i <= items.len(),
            values == items_view(items@),
            items_bytes(key@, values, i as nat) == Ok::<Seq<u8>, Failure>(content@),
            encoder@ == old(encoder)@,
        decreases items.len() - i,
    {
        assert(values[i as int] == items[i as int]@);
        match encode_field_value(key, &items[i], &mut content) {
            Ok(()) => {},
            Err(error) => {
                proof {
                    lemma_items_failure_stays(key@, values, (i + 1) as nat, items.len() as nat);
                }
                return Err(error);
            },
        }
        i += 1;
    }
    encoder.write_long_string(content.as_slice());
    Ok(())
}

/// How much of the input lies at or behind `pos`, counted so that a
/// position inside the input has more left than any position behind it.
pub open spec fn budget(input: Seq<u8>, pos: nat) -> nat {
    if pos <= input.len() {
        (input.len() - pos + 1) as nat
    } else {
        0
    }
}

/// Reads a decimal: one byte of scale, then four bytes of magnitude. The
/// five bytes are read together or not at all.
pub open spec fn parse_decimal(input: Seq<u8>, pos: nat) -> Step<Value> {
    if has_bytes(input, pos, 5) {
        Step::done(
            Value::Decimal { scale: input[pos as int], magnitude: u32_at(input, pos as int + 1) },
            5,
        )
    } else {
        Step::failed(too_short(input, pos, 5), 0)
    }
}

/// Reads the payload that the tag `tag` calls for, at `pos`. A tag that the
/// grammar does not know fails and nothing is read.
pub open spec fn parse_value(tag: u8, input: Seq<u8>, pos: nat) -> Step<Value>
    decreases budget(input, pos), 2nat,
{
    if tag == TAG_STRING {
        take_long_string(input, pos).map(|bytes: Seq<u8>| Value::LongString(bytes))
    } else if tag == TAG_BYTE_ARRAY {
        take_long_string(input, pos).map(|bytes: Seq<u8>| Value::ByteArray(bytes))
    } else if tag == TAG_INTEGER {
        take_i32(input, pos).map(|n: i32| Value::Int(n))
    } else if tag == TAG_LONG {
        take_i64(input, pos).map(|n: i64| Value::LongInt(n))
    } else if tag == TAG_SHORT {
        take_i16(input, pos).map(|n: i16| Value::ShortInt(n))
    } else if tag == TAG_BYTE {
        take_i8(input, pos).map(|n: i8| Value::Byte(n))
    } else if tag == TAG_TIME {
        take_i64(input, pos).map(|seconds: i64| Value::Timestamp(seconds))
    } else if tag == TAG_DECIMAL {
        parse_decimal(input, pos)
    } else if tag == TAG_FLOAT {
        take_u32(input, pos).map(|bits: u32| Value::Float32(bits))
    } else if tag == TAG_DOUBLE {
        take_u64(input, pos).map(|bits: u64| Value::Float64(bits))
    } else if tag == TAG_BOOLEAN {
        take_u8(input, pos).map(|byte: u8| Value::Boolean(byte != 0))
    } else if tag == TAG_HASH {
        parse_table(input, pos).map(|pairs: Entries| Value::Table(pairs))
    } else if tag == TAG_ARRAY {
        parse_array(input, pos).map(|items: Seq<Value>| Value::Array(items))
    } else if tag == TAG_VOID {
        Step::done(Value::Void, 0)
    } else {
        Step::failed(Failure::InvalidTableType(tag as char), 0)
    }
}

/// Reads a table at `pos`: the four-byte length of the content, then
/// entries until the content is used up.
pub open spec fn parse_table(input: Seq<u8>, pos: nat) -> Step<Entries>
    decreases budget(input, pos), 1nat,
{
    match take_u32(input, pos).result {
        Ok(len) => parse_entries(input, pos + 4, pos + 4 + len as nat).after(4),
        Err(error) => Step::failed(error, 0),
    }
}

/// Reads an array at `pos`: the four-byte length of the content, then
/// items until the content is used up.
pub open spec fn parse_array(input: Seq<u8>, pos: nat) -> Step<Seq<Value>>
    decreases budget(input, pos), 1nat,
{
    match take_u32(input, pos).result {
        Ok(len) => parse_items(input, pos + 4, pos + 4 + len as nat).after(4),
        Err(error) => Step::failed(error, 0),
    }
}

/// Reads the key of an entry: a short string that must be UTF-8. A key
/// that is not fails, and the cursor does not move.
pub open spec fn parse_key(input: Seq<u8>, pos: nat) -> Step<Seq<char>> {
    let raw = take_short_string(input, pos);
    match raw.result {
        Ok(bytes) => if valid_utf8(bytes) {
            Step::done(decode_utf8(bytes), raw.used)
        } else {
            Step::failed(Failure::DecodingError(invalid_key_message()), 0)
        },
        Err(error) => Step::failed(error, 0),
    }
}

/// `first`, read over `used` bytes, in front of what `rest` read.
pub open spec fn followed_by<T>(first: T, used: nat, rest: Step<Seq<T>>) -> Step<Seq<T>> {
    rest.map(|others: Seq<T>| seq![first] + others).after(used)
}

/// Reads entries from `pos` on until the cursor stands at `end` exactly.
/// An entry that ends behind `end` makes the table malformed: the read
/// fails behind that entry.
pub open spec fn parse_entries(input: Seq<u8>, pos: nat, end: nat) -> Step<Entries>
    decreases budget(input, pos), 0nat,
{
    if pos == end {
        Step::done(Seq::empty(), 0)
    } else if pos > end {
        Step::failed(Failure::DecodingError(table_overrun_message()), 0)
    } else {
        let key = parse_key(input, pos);
        match key.result {
            Ok(name) => {
                let tag = take_u8(input, pos + key.used);
                match tag.result {
                    Ok(tag_byte) => {
                        let head = key.used + 1;
                        let value = parse_value(tag_byte, input, pos + head);
                        match value.result {
                            Ok(v) => followed_by(
                                (name, v),
                                head + value.used,
                                parse_entries(input, pos + head + value.used, end),
                            ),
                            Err(error) => Step::failed(error, head + value.used),
                        }
                    },
                    Err(error) => Step::failed(error, key.used),
                }
            },
            Err(error) => Step::failed(error, key.used),
        }
    }
}

/// Reads items from `pos` on until the cursor stands at `end` exactly. An
/// item that ends behind `end` makes the array malformed: the read fails
/// behind that item.
pub open spec fn parse_items(input: Seq<u8>, pos: nat, end: nat) -> Step<Seq<Value>>
    decreases budget(input, pos), 0nat,
{
    if pos == end {
        Step::done(Seq::empty(), 0)
    } else if pos > end {
        Step::failed(Failure::DecodingError(array_overrun_message()), 0)
    } else {
        let tag = take_u8(input, pos);
        match tag.result {
            Ok(tag_byte) => {
                let value = parse_value(tag_byte, input, pos + 1);
                match value.result {
                    Ok(v) => followed_by(
                        v,
                        1 + value.used,
                        parse_items(input, pos + 1 + value.used, end),
                    ),
                    Err(error) => Step::failed(error, 1 + value.used),
                }
            },
            Err(error) => Step::failed(error, 0),
        }
    }
}

/// Reads one entry at `pos`: the key, the tag, and the payload that the tag
/// calls for.
pub open spec fn parse_entry(input: Seq<u8>, pos: nat) -> Step<(Seq<char>, Value)> {
    let key = parse_key(input, pos);
    match key.result {
        Ok(name) => match take_u8(input, pos + key.used).result {
            Ok(tag_byte) => parse_value(tag_byte, input, pos + key.used + 1).map(
                |v: Value| (name, v),
            ).after(key.used + 1),
            Err(error) => Step::failed(error, key.used),
        },
        Err(error) => Step::failed(error, key.used),
    }
}

/// A run of entries is its first entry and then the run behind it.
pub proof fn lemma_entries_unfold(input: Seq<u8>, pos: nat, end: nat)
    requires
        pos < end,
    ensures
        parse_entries(input, pos, end) == (match parse_entry(input, pos).result {
            Ok(entry) => followed_by(
                entry,
                parse_entry(input, pos).used,
                parse_entries(input, pos + parse_entry(input, pos).used, end),
            ),
            Err(error) => Step::<Entries>::failed(error, parse_entry(input, pos).used),
        }),
{
}

/// Reads one item of an array at `pos`: the tag, and the payload that the
/// tag calls for.
pub open spec fn parse_item(input: Seq<u8>, pos: nat) -> Step<Value> {
    match take_u8(input, pos).result {
        Ok(tag_byte) => parse_value(tag_byte, input, pos + 1).after(1),
        Err(error) => Step::failed(error, 0),
    }
}

/// A run of items is its first item and then the run behind it.
pub proof fn lemma_items_unfold(input: Seq<u8>, pos: nat, end: nat)
    requires
        pos < end,
    ensures
        parse_items(input, pos, end) == (match parse_item(input, pos).result {
            Ok(item) => followed_by(
                item,
                parse_item(input, pos).used,
                parse_items(input, pos + parse_item(input, pos).used, end),
            ),
            Err(error) => Step::<Seq<Value>>::failed(error, parse_item(input, pos).used),
        }),
{
}

/// A run of entries that starts at its end is empty.
pub proof fn lemma_entries_end(input: Seq<u8>, end: nat)
    ensures
        parse_entries(input, end, end) == Step::<Entries>::done(Seq::empty(), 0),
{
}

/// A run of entries whose first entry is read, and whose run behind it is
/// read, is that entry in front of that run.
pub proof fn lemma_entries_cons(input: Seq<u8>, here: nat, end: nat)
    requires
        here < end,
        parse_entry(input, here).result.is_ok(),
        parse_entries(input, here + parse_entry(input, here).used, end).result.is_ok(),
    ensures
        parse_entries(input, here, end) == Step::<Entries>::done(
            seq![parse_entry(input, here).result->Ok_0] + parse_entries(
                input,
                here + parse_entry(input, here).used,
                end,
            ).result->Ok_0,
            parse_entry(input, here).used + parse_entries(
                input,
                here + parse_entry(input, here).used,
                end,
            ).used,
        ),
{
    lemma_entries_unfold(input, here, end);
}

/// A run of items that starts at its end is empty.
pub proof fn lemma_items_end(input: Seq<u8>, end: nat)
    ensures
        parse_items(input, end, end) == Step::<Seq<Value>>::done(Seq::empty(), 0),
{
}

/// A run of items whose first item is read, and whose run behind it is
/// read, is that item in front of that run.
pub proof fn lemma_items_cons(input: Seq<u8>, here: nat, end: nat)
    requires
        here < end,
        parse_item(input, here).result.is_ok(),
        parse_items(input, here + parse_item(input, here).used, end).result.is_ok(),
    ensures
        parse_items(input, here, end) == Step::<Seq<Value>>::done(
            seq![parse_item(input, here).result->Ok_0] + parse_items(
                input,
                here + parse_item(input, here).used,
                end,
            ).result->Ok_0,
            parse_item(input, here).used + parse_items(
                input,
                here + parse_item(input, here).used,
                end,
            ).used,
        ),
{
    lemma_items_unfold(input, here, end);
}

/// What the decoding of an entry came to, over models.
pub open spec fn entry_outcome(r: Result<(String, FieldValue), AmqpError>) -> Result<
    (Seq<char>, Value),
    Failure,
> {
    match r {
        Ok(entry) => Ok((entry.0@, entry.1@)),
        Err(error) => Err(error@),
    }
}

/// What a run of reads comes to when `seen` was read over `used` bytes
/// before `rest` was.
pub open spec fn prefixed<T>(seen: Seq<T>, used: nat, rest: Step<Seq<T>>) -> Step<Seq<T>> {
    rest.map(|others: Seq<T>| seen + others).after(used)
}

/// One more entry in a run of entries: where the entry at `here` is read,
/// what was seen grows by it and the run goes on behind it; where it fails,
/// the run fails with it.
pub proof fn lemma_entries_step(input: Seq<u8>, start: nat, here: nat, end: nat, seen: Entries)
    requires
        start <= here < end,
    ensures
        prefixed(seen, (here - start) as nat, parse_entries(input, here, end))
            == (match parse_entry(input, here).result {
            Ok(entry) => prefixed(
                seen.push(entry),
                (here - start + parse_entry(input, here).used) as nat,
                parse_entries(input, here + parse_entry(input, here).used, end),
            ),
            Err(error) => Step::<Entries>::failed(
                error,
                (here - start + parse_entry(input, here).used) as nat,
            ),
        }),
{
    lemma_entries_unfold(input, here, end);
    let one = parse_entry(input, here);
    match one.result {
        Ok(entry) => {
            let rest = parse_entries(input, here + one.used, end);
            match rest.result {
                Ok(others) => {
                    assert(seen + (seq![entry] + others) =~= seen.push(entry) + others);
                },
                Err(_) => {},
            }
        },
        Err(_) => {},
    }
}

/// One more item in a run of items: where the item at `here` is read, what
/// was seen grows by it and the run goes on behind it; where it fails, the
/// run fails with it.
pub proof fn lemma_items_step(input: Seq<u8>, start: nat, here: nat, end: nat, seen: Seq<Value>)
    requires
        start <= here < end,
    ensures
        prefixed(seen, (here - start) as nat, parse_items(input, here, end))
            == (match parse_item(input, here).result {
            Ok(item) => prefixed(
                seen.push(item),
                (here - start + parse_item(input, here).used) as nat,
                parse_items(input, here + parse_item(input, here).used, end),
            ),
            Err(error) => Step::<Seq<Value>>::failed(
                error,
                (here - start + parse_item(input, here).used) as nat,
            ),
        }),
{
    lemma_items_unfold(input, here, end);
    let one = parse_item(input, here);
    match one.result {
        Ok(item) => {
            let rest = parse_items(input, here + one.used, end);
            match rest.result {
                Ok(others) => {
                    assert(seen + (seq![item] + others) =~= seen.push(item) + others);
                },
                Err(_) => {},
            }
        },
        Err(_) => {},
    }
}

/// Whether the grammar knows the tag.
pub open spec fn is_known_tag(tag: u8) -> bool {
    tag == TAG_STRING || tag == TAG_INTEGER || tag == TAG_TIME || tag == TAG_DECIMAL || tag
        == TAG_HASH || tag == TAG_ARRAY || tag == TAG_BYTE || tag == TAG_DOUBLE || tag == TAG_FLOAT
        || tag == TAG_LONG || tag == TAG_SHORT || tag == TAG_BOOLEAN || tag == TAG_BYTE_ARRAY || tag
        == TAG_VOID
}

/// Whether a tag is one of the eight that the encoder writes.
pub open spec fn is_written_tag(tag: u8) -> bool {
    tag == TAG_VOID || tag == TAG_STRING || tag == TAG_LONG || tag == TAG_DOUBLE || tag
        == TAG_BOOLEAN || tag == TAG_HASH || tag == TAG_ARRAY || tag == TAG_TIME
}

/// The encoder writes eight of the tags that the decoder reads: a value
/// that has a wire form begins with one of them, and is of none of the
/// kinds that come from the decoder only.
pub proof fn lemma_written_tags(key: Seq<char>, v: Value)
    requires
        value_bytes(key, v).is_ok(),
    ensures
        value_bytes(key, v)->Ok_0.len() >= 1,
        is_written_tag(value_bytes(key, v)->Ok_0[0]),
        is_known_tag(value_bytes(key, v)->Ok_0[0]),
        !(v is ShortInt || v is Int || v is Byte || v is ByteArray || v is Float32 || v is Decimal),
{
}

/// A key of more than 255 bytes makes the whole table fail, with the
/// failure of the key itself where every entry before it can be encoded.
pub proof fn lemma_long_key_fails(pairs: Entries, i: int)
    requires
        0 <= i < pairs.len(),
        encode_utf8(pairs[i].0).len() > MAX_KEY_LEN,
    ensures
        table_bytes(pairs).is_err(),
        entries_bytes(pairs, i as nat).is_ok() ==> table_bytes(pairs) == Err::<Seq<u8>, Failure>(
            Failure::EncodingError(key_too_long_message()),
        ),
{
    let n = (i + 1) as nat;
    assert(pairs[n - 1] == pairs[i]);
    assert(entry_bytes(pairs[i].0, pairs[i].1) == Err::<Seq<u8>, Failure>(
        Failure::EncodingError(key_too_long_message()),
    ));
    assert(entries_bytes(pairs, n) == joined(
        entries_bytes(pairs, (n - 1) as nat),
        entry_bytes(pairs[n - 1].0, pairs[n - 1].1),
    ));
    lemma_entries_failure_stays(pairs, n, pairs.len());
}

/// A table whose declared length is zero is empty, and reading it uses the
/// four bytes of the length and nothing more.
pub proof fn lemma_empty_table(input: Seq<u8>, pos: nat)
    requires
        take_u32(input, pos).result == Ok::<u32, Failure>(0),
    ensures
        parse_table(input, pos) == Step::<Entries>::done(Seq::empty(), 4),
{
}

/// A tag that the grammar does not know fails, and nothing is read.
pub proof fn lemma_unknown_tag_fails(tag: u8, input: Seq<u8>, pos: nat)
    requires
        !is_known_tag(tag),
    ensures
        parse_value(tag, input, pos) == Step::<Value>::failed(
            Failure::InvalidTableType(tag as char),
            0,
        ),
{
}

/// What the decoding of a value came to, over models.
pub open spec fn value_outcome(r: Result<FieldValue, AmqpError>) -> Result<Value, Failure> {
    match r {
        Ok(value) => Ok(value@),
        Err(error) => Err(error@),
    }
}

/// What the decoding of a table came to, over models.
pub open spec fn entries_outcome(r: Result<Vec<(String, FieldValue)>, AmqpError>) -> Result<
    Entries,
    Failure,
> {
    match r {
        Ok(pairs) => Ok(entries_view(pairs@)),
        Err(error) => Err(error@),
    }
}

/// What the decoding of an array came to, over models.
pub open spec fn items_outcome(r: Result<Vec<FieldValue>, AmqpError>) -> Result<
    Seq<Value>,
    Failure,
> {
    match r {
        Ok(items) => Ok(items_view(items@)),
        Err(error) => Err(error@),
    }
}

/// Decodes a table from the start of `data`. Bytes behind the table are
/// not looked at.
pub fn decode_table(data: &[u8]) -> (r: Result<Vec<(String, FieldValue)>, AmqpError>)
    ensures
        entries_outcome(r) == parse_table(data@, 0).result,
        take_u32(data@, 0).result == Ok::<u32, Failure>(0) ==> r.is_ok() && r->Ok_0@.len() == 0,
{
    let mut decoder = Decoder::new(data);
    decode_table_inner(&mut decoder)
}

/// Decodes a table at the cursor: the length of the content, then entries
/// until the cursor stands at the end of the content exactly. A table
/// whose last entry ends behind that end is malformed and fails.
pub fn decode_table_inner(decoder: &mut Decoder) -> (r: Result<
    Vec<(String, FieldValue)>,
    AmqpError,
>)
    ensures
        final(decoder).stepped(
            old(decoder),
            parse_table(old(decoder).input(), old(decoder).cursor()),
        ),
        entries_outcome(r) == parse_table(old(decoder).input(), old(decoder).cursor()).result,
        take_u32(old(decoder).input(), old(decoder).cursor()).result == Ok::<u32, Failure>(0)
            ==> r.is_ok() && r->Ok_0@.len() == 0 && final(decoder).cursor() == old(
            decoder,
        ).cursor() + 4,
    decreases budget(old(decoder).input(), old(decoder).cursor()), 1nat,
{
    let ghost input = decoder.input();
    let ghost origin = decoder.cursor();
    let mut pairs: Vec<(String, FieldValue)> = Vec::new();
    let table_length = decoder.read_u32()? as usize;
    if table_length == 0 {
        assert(entries_view(pairs@) =~= Seq::empty());
        return Ok(pairs);
    }
    let start = decoder.position();
    let ghost end = (start + table_length) as nat;
    assert(entries_view(pairs@) =~= Seq::empty());
    assert(parse_entries(input, start as nat, end) == prefixed(
        entries_view(pairs@),
        0,
        parse_entries(input, decoder.cursor(), end),
    ));
    while decoder.position() - start < table_length
        invariant
            decoder.input() == input,
            old(decoder).input() == input,
            old(decoder).cursor() == origin,
            start == origin + 4,
            end == start + table_length,
            start <= decoder.cursor() <= input.len(),
            parse_table(input, origin) == parse_entries(input, start as nat, end).after(4),
            parse_entries(input, start as nat, end) == prefixed(
                entries_view(pairs@),
                (decoder.cursor() - start) as nat,
                parse_entries(input, decoder.cursor(), end),
            ),
        decreases budget(input, decoder.cursor()),
    {
        let ghost here = decoder.cursor();
        let ghost seen = entries_view(pairs@);
        proof {
            lemma_entries_step(input, start as nat, here, end, seen);
        }
        let entry = decode_entry(decoder)?;
        let ghost model = (entry.0@, entry.1@);
        pairs.push(entry);
        proof {
            use_type_invariant(&*decoder);
            assert(entries_view(pairs@) =~= seen.push(model));
        }
    }
    if decoder.position() - start > table_length {
        return Err(
            AmqpError::DecodingError("Table entry runs past the declared length".to_owned()),
        );
    }
    Ok(pairs)
}

/// Decodes one entry at the cursor: the key, which must be UTF-8, the tag,
/// and the value.
pub fn decode_entry(decoder: &mut Decoder) -> (r: Result<(String, FieldValue), AmqpError>)
    ensures
        final(decoder).stepped(
            old(decoder),
            parse_entry(old(decoder).input(), old(decoder).cursor()),
        ),
        entry_outcome(r) == parse_entry(old(decoder).input(), old(decoder).cursor()).result,
    decreases budget(old(decoder).input(), old(decoder).cursor()), 3nat,
{
    let key = match decoder.read_short_string() {
        Ok(text) => text,
        Err(AmqpError::DecodingError(_)) => {
            return Err(AmqpError::DecodingError("Invalid UTF-8 in key".to_owned()));
        },
        Err(error) => {
            return Err(error);
        },
    };
    let type_tag = decoder.read_u8()?;
    let value = decode_field_value(type_tag, decoder)?;
    Ok((key.to_owned(), value))
}

/// Decodes the payload that the tag `type_tag` calls for, at the cursor.
pub fn decode_field_value(type_tag: u8, decoder: &mut Decoder) -> (r: Result<
    FieldValue,
    AmqpError,
>)
    ensures
        final(decoder).stepped(
            old(decoder),
            parse_value(type_tag, old(decoder).input(), old(decoder).cursor()),
        ),
        value_outcome(r) == parse_value(
            type_tag,
            old(decoder).input(),
            old(decoder).cursor(),
        ).result,
        !is_known_tag(type_tag) ==> r.is_err() && r->Err_0@ == Failure::InvalidTableType(
            type_tag as char,
        ) && final(decoder).cursor() == old(decoder).cursor(),
    decreases budget(old(decoder).input(), old(decoder).cursor()), 2nat,
{
    if type_tag == TAG_STRING {
        let bytes = decoder.read_long_string()?;
        Ok(FieldValue::LongString(vstd::slice::slice_to_vec(bytes)))
    } else if type_tag == TAG_BYTE_ARRAY {
        let bytes = decoder.read_long_string()?;
        Ok(FieldValue::ByteArray(vstd::slice::slice_to_vec(bytes)))
    } else if type_tag == TAG_INTEGER {
        Ok(FieldValue::Int(decoder.read_i32()?))
    } else if type_tag == TAG_LONG {
        Ok(FieldValue::LongInt(decoder.read_i64()?))
    } else if type_tag == TAG_SHORT {
        Ok(FieldValue::ShortInt(decoder.read_i16()?))
    } else if type_tag == TAG_BYTE {
        Ok(FieldValue::Byte(decoder.read_i8()?))
    } else if type_tag == TAG_TIME {
        Ok(FieldValue::Timestamp(decoder.read_i64()?))
    } else if type_tag == TAG_DECIMAL {
        decoder.ensure(5)?;
        let scale = decoder.read_u8()?;
        let magnitude = decoder.read_u32()?;
        Ok(FieldValue::Decimal { scale, magnitude })
    } else if type_tag == TAG_FLOAT {
        Ok(FieldValue::Float32(decoder.read_f32()?))
    } else if type_tag == TAG_DOUBLE {
        Ok(FieldValue::Float64(decoder.read_f64()?))
    } else if type_tag == TAG_BOOLEAN {
        let byte = decoder.read_u8()?;
        Ok(FieldValue::Boolean(byte != 0))
    } else if type_tag == TAG_HASH {
        let pairs = decode_table_inner(decoder)?;
        Ok(FieldValue::Table(pairs))
    } else if type_tag == TAG_ARRAY {
        let items = decode_array(decoder)?;
        Ok(FieldValue::Array(items))
    } else if type_tag == TAG_VOID {
        Ok(FieldValue::Void)
    } else {
        Err(AmqpError::InvalidTableType(type_tag as char))
    }
}

/// Decodes one item of an array at the cursor: the tag, and the value.
pub fn decode_item(decoder: &mut Decoder) -> (r: Result<FieldValue, AmqpError>)
    ensures
        final(decoder).stepped(
            old(decoder),
            parse_item(old(decoder).input(), old(decoder).cursor()),
        ),
        value_outcome(r) == parse_item(old(decoder).input(), old(decoder).cursor()).result,
    decreases budget(old(decoder).input(), old(decoder).cursor()), 3nat,
{
    let type_tag = decoder.read_u8()?;
    decode_field_value(type_tag, decoder)
}

/// Decodes an array at the cursor: the length of the content, then items
/// until the cursor stands at the end of the content exactly. An array
/// whose last item ends behind that end is malformed and fails.
pub fn decode_array(decoder: &mut Decoder) -> (r: Result<Vec<FieldValue>, AmqpError>)
    ensures
        final(decoder).stepped(
            old(decoder),
            parse_array(old(decoder).input(), old(decoder).cursor()),
        ),
        items_outcome(r) == parse_array(old(decoder).input(), old(decoder).cursor()).result,
    decreases budget(old(decoder).input(), old(decoder).cursor()), 1nat,
{
    let ghost input = decoder.input();
    let ghost origin = decoder.cursor();
    let mut items: Vec<FieldValue> = Vec::new();
    let array_length = decoder.read_u32()? as usize;
    if array_length == 0 {
        assert(items_view(items@) =~= Seq::empty());
        return Ok(items);
    }
    let start = decoder.position();
    let ghost end = (start + array_length) as nat;
    assert(items_view(items@) =~= Seq::empty());
    assert(parse_items(input, start as nat, end) == prefixed(
        items_view(items@),
        0,
        parse_items(input, decoder.cursor(), end),
    ));
    while decoder.position() - start < array_length
        invariant
            decoder.input() == input,
            old(decoder).input() == input,
            old(decoder).cursor() == origin,
            start == origin + 4,
            end == start + array_length,
            start <= decoder.cursor() <= input.len(),
            parse_array(input, origin) == parse_items(input, start as nat, end).after(4),
            parse_items(input, start as nat, end) == prefixed(
                items_view(items@),
                (decoder.cursor() - start) as nat,
                parse_items(input, decoder.cursor(), end),
            ),
        decreases budget(input, decoder.cursor()),
    {
        let ghost here = decoder.cursor();
        let ghost seen = items_view(items@);
        proof {
            lemma_items_step(input, start as nat, here, end, seen);
        }
        let item = decode_item(decoder)?;
        let ghost model = item@;
        items.push(item);
        proof {
            use_type_invariant(&*decoder);
            assert(items_view(items@) =~= seen.push(model));
        }
    }
    if decoder.position() - start > array_length {
        return Err(
            AmqpError::DecodingError("Array item runs past the declared length".to_owned()),
        );
    }
    Ok(items)
}

/// The length that a table declares for its content: the four bytes at the
/// start of `data`, big-endian.
pub fn table_length(data: &[u8]) -> (r: Result<u32, AmqpError>)
    ensures
        outcome(r) == take_u32(data@, 0).result,
{
    let mut decoder = Decoder::new(data);
    decoder.read_u32()
}

} // verus!
