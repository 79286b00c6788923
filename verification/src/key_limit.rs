//! The limit on keys: a key of more than 255 bytes, wherever in a table it
//! stands, makes the table fail.

use vstd::prelude::*;
use vstd::utf8::encode_utf8;
use crate::error::Failure;
use crate::table::{
    entries_bytes, entry_bytes, items_bytes, key_too_long_message, table_bytes, value_bytes,
    MAX_KEY_LEN,
};
use crate::value::{Entries, Value};

verus! {

/// Whether a key of more than 255 bytes stands somewhere inside `v`.
pub open spec fn value_has_long_key(v: Value) -> bool
    decreases v, 0nat,
{
    match v {
        Value::Table(pairs) => entries_have_long_key(pairs, pairs.len()),
        Value::Array(items) => items_have_long_key(items, items.len()),
        _ => false,
    }
}

/// Whether a key of more than 255 bytes stands among the first `n` pairs:
/// as the key of one of them, or somewhere inside its value.
pub open spec fn entries_have_long_key(pairs: Entries, n: nat) -> bool
    decreases pairs, n,
{
    if n == 0 || n > pairs.len() {
        false
    } else {
        entries_have_long_key(pairs, (n - 1) as nat) || encode_utf8(pairs[n - 1].0).len()
            > MAX_KEY_LEN || value_has_long_key(pairs[n - 1].1)
    }
}

/// Whether a key of more than 255 bytes stands somewhere inside the first
/// `n` items.
pub open spec fn items_have_long_key(items: Seq<Value>, n: nat) -> bool
    decreases items, n,
{
    if n == 0 || n > items.len() {
        false
    } else {
        items_have_long_key(items, (n - 1) as nat) || value_has_long_key(items[n - 1])
    }
}

/// Whether `v`, and every value inside it, is of a kind that the encoder
/// writes.
pub open spec fn value_is_written(v: Value) -> bool
    decreases v, 0nat,
{
    match v {
        Value::Table(pairs) => entries_are_written(pairs, pairs.len()),
        Value::Array(items) => items_are_written(items, items.len()),
        Value::Void => true,
        Value::LongString(_) => true,
        Value::LongInt(_) => true,
        Value::Float64(_) => true,
        Value::Boolean(_) => true,
        Value::Timestamp(_) => true,
        _ => false,
    }
}

/// Whether the values of the first `n` pairs, and every value inside them,
/// are of kinds that the encoder writes.
pub open spec fn entries_are_written(pairs: Entries, n: nat) -> bool
    decreases pairs, n,
{
    if n == 0 || n > pairs.len() {
        true
    } else {
        entries_are_written(pairs, (n - 1) as nat) && value_is_written(pairs[n - 1].1)
    }
}

/// Whether the first `n` items, and every value inside them, are of kinds
/// that the encoder writes.
pub open spec fn items_are_written(items: Seq<Value>, n: nat) -> bool
    decreases items, n,
{
    if n == 0 || n > items.len() {
        true
    } else {
        items_are_written(items, (n - 1) as nat) && value_is_written(items[n - 1])
    }
}

/// What the limit on keys means for an encoding: a long key makes it fail;
/// and where every kind is one that the encoder writes, it fails for no
/// other reason and with the failure of the key.
pub open spec fn keeps_key_limit(
    encoded: Result<Seq<u8>, Failure>,
    has_long_key: bool,
    is_written: bool,
) -> bool {
    &&& has_long_key ==> encoded.is_err()
    &&& is_written && encoded.is_err() ==> has_long_key && encoded == Err::<Seq<u8>, Failure>(
        Failure::EncodingError(key_too_long_message()),
    )
}

/// The limit on keys, of one value.
pub proof fn lemma_value_key_limit(key: Seq<char>, v: Value)
    ensures
        keeps_key_limit(value_bytes(key, v), value_has_long_key(v), value_is_written(v)),
    decreases v, 0nat,
{
    match v {
        Value::Table(pairs) => {
            lemma_entries_key_limit(pairs, pairs.len());
        },
        Value::Array(items) => {
            lemma_items_key_limit(key, items, items.len());
        },
        _ => {},
    }
}

/// The limit on keys, of the first `n` pairs of a table.
pub proof fn lemma_entries_key_limit(pairs: Entries, n: nat)
    requires
        n <= pairs.len(),
    ensures
        keeps_key_limit(
            entries_bytes(pairs, n),
            entries_have_long_key(pairs, n),
            entries_are_written(pairs, n),
        ),
    decreases pairs, n,
{
    if n > 0 {
        let key = pairs[n - 1].0;
        let v = pairs[n - 1].1;
        lemma_entries_key_limit(pairs, (n - 1) as nat);
        lemma_value_key_limit(key, v);
        assert(keeps_key_limit(
            entry_bytes(key, v),
            encode_utf8(key).len() > MAX_KEY_LEN || value_has_long_key(v),
            value_is_written(v),
        ));
    }
}

/// The limit on keys, of the first `n` items of an array.
pub proof fn lemma_items_key_limit(key: Seq<char>, items: Seq<Value>, n: nat)
    requires
        n <= items.len(),
    ensures
        keeps_key_limit(
            items_bytes(key, items, n),
            items_have_long_key(items, n),
            items_are_written(items, n),
        ),
    decreases items, n,
{
    if n > 0 {
        lemma_items_key_limit(key, items, (n - 1) as nat);
        lemma_value_key_limit(key, items[n - 1]);
    }
}

/// The limit on keys, of a whole table: a key of more than 255 bytes,
/// wherever it stands, also inside a nested table or array, makes the
/// table fail; and a table of values that the encoder writes fails only
/// for such a key, with the failure of the key.
pub proof fn lemma_table_key_limit(pairs: Entries)
    ensures
        keeps_key_limit(
            table_bytes(pairs),
            entries_have_long_key(pairs, pairs.len()),
            entries_are_written(pairs, pairs.len()),
        ),
{
    lemma_entries_key_limit(pairs, pairs.len());
}

/// A long key among the pairs themselves is a long key of the table.
pub proof fn lemma_long_key_found(pairs: Entries, i: int, n: nat)
    requires
        0 <= i < n <= pairs.len(),
        encode_utf8(pairs[i].0).len() > MAX_KEY_LEN,
    ensures
        entries_have_long_key(pairs, n),
    decreases n,
{
    if i < n - 1 {
        lemma_long_key_found(pairs, i, (n - 1) as nat);
    }
}

} // verus!
