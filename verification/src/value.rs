//! The values that a field table holds.

use vstd::prelude::*;

verus! {

/// One value of a field table or field array.
///
/// The encoder writes the kinds `LongString`, `LongInt`, `Float64`,
/// `Boolean`, `Timestamp`, `Table`, `Array` and `Void`. The other kinds come
/// out of the decoder only: they have no wire form on the way out.
/// Floating-point numbers are held by their IEEE-754 bits.
#[derive(Debug, PartialEq, Eq)]
pub enum FieldValue {
    /// A byte string with a four-byte length.
    LongString(Vec<u8>),
    /// A signed 16-bit integer.
    ShortInt(i16),
    /// A signed 32-bit integer.
    Int(i32),
    /// A signed 64-bit integer.
    LongInt(i64),
    /// A signed 8-bit integer.
    Byte(i8),
    /// A byte array, on the wire the same as a long string.
    ByteArray(Vec<u8>),
    /// The 32 bits of an IEEE-754 single.
    Float32(u32),
    /// The 64 bits of an IEEE-754 double.
    Float64(u64),
    /// A truth value.
    Boolean(bool),
    /// Seconds since the epoch.
    Timestamp(i64),
    /// The number `magnitude / 10^scale`.
    Decimal { scale: u8, magnitude: u32 },
    /// A nested table: pairs of key and value, in the order they were given.
    Table(Vec<(String, FieldValue)>),
    /// A nested array.
    Array(Vec<FieldValue>),
    /// No value.
    Void,
}

/// The model of a [`FieldValue`]: the same kinds over mathematical
/// sequences.
pub enum Value {
    LongString(Seq<u8>),
    ShortInt(i16),
    Int(i32),
    LongInt(i64),
    Byte(i8),
    ByteArray(Seq<u8>),
    Float32(u32),
    Float64(u64),
    Boolean(bool),
    Timestamp(i64),
    Decimal { scale: u8, magnitude: u32 },
    Table(Seq<(Seq<char>, Value)>),
    Array(Seq<Value>),
    Void,
}

/// The model of a table: the pairs of key and value, in order.
pub type Entries = Seq<(Seq<char>, Value)>;

impl View for FieldValue {
    type V = Value;

    open spec fn view(&self) -> Value
        decreases self,
    {
        match self {
            FieldValue::LongString(bytes) => Value::LongString(bytes@),
            FieldValue::ShortInt(v) => Value::ShortInt(*v),
            FieldValue::Int(v) => Value::Int(*v),
            FieldValue::LongInt(v) => Value::LongInt(*v),
            FieldValue::Byte(v) => Value::Byte(*v),
            FieldValue::ByteArray(bytes) => Value::ByteArray(bytes@),
            FieldValue::Float32(bits) => Value::Float32(*bits),
            FieldValue::Float64(bits) => Value::Float64(*bits),
            FieldValue::Boolean(v) => Value::Boolean(*v),
            FieldValue::Timestamp(v) => Value::Timestamp(*v),
            FieldValue::Decimal { scale, magnitude } => Value::Decimal {
                scale: *scale,
                magnitude: *magnitude,
            },
            FieldValue::Table(pairs) => Value::Table(entries_view(pairs@)),
            FieldValue::Array(items) => Value::Array(items_view(items@)),
            FieldValue::Void => Value::Void,
        }
    }
}

/// The model of the pairs of a table.
pub open spec fn entries_view(pairs: Seq<(String, FieldValue)>) -> Entries
    decreases pairs,
{
    Seq::new(
        pairs.len(),
        |i: int|
            if 0 <= i < pairs.len() {
                (pairs[i].0@, pairs[i].1.view())
            } else {
                arbitrary()
            },
    )
}

/// The model of the items of an array.
pub open spec fn items_view(items: Seq<FieldValue>) -> Seq<Value>
    decreases items,
{
    Seq::new(
        items.len(),
        |i: int|
            if 0 <= i < items.len() {
                items[i].view()
            } else {
                arbitrary()
            },
    )
}

} // verus!
