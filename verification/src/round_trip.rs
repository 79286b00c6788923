//! What holds between the two directions of the table codec.

use vstd::prelude::*;
use vstd::utf8::{encode_utf8, encode_utf8_decode_utf8, encode_utf8_valid_utf8};
use crate::error::Failure;
use crate::table::{
    array_bytes, entries_bytes, entry_bytes, items_bytes, lemma_entries_cons,
    lemma_entries_end, lemma_items_cons, lemma_items_end, parse_array, parse_entries,
    parse_entry, parse_item, parse_items, parse_key, parse_table, parse_value, table_bytes,
    value_bytes, TAG_ARRAY, TAG_HASH,
};
use crate::types::{
    long_string_bytes, short_string_bytes, take_long_string, take_short_string, take_u32,
    take_u8, Step,
};
use crate::value::{Entries, Value};
use crate::wire::{
    be_i64, be_u32, be_u64, lemma_signed64_round_trip, lemma_u32_round_trip,
    lemma_u64_round_trip, length_field, unsigned64,
};

verus! {

/// Whether every length inside `v` fits the 32-bit field that carries it,
/// when `v` is encoded under `key`.
pub open spec fn value_fits(key: Seq<char>, v: Value) -> bool
    decreases v, 0nat,
{
    match v {
        Value::LongString(bytes) => bytes.len() <= u32::MAX,
        Value::Table(pairs) => table_fits(pairs),
        Value::Array(items) => array_fits(key, items),
        _ => true,
    }
}

/// Whether the content of a table, and every length inside it, fits the
/// 32-bit field that carries it.
pub open spec fn table_fits(pairs: Entries) -> bool
    decreases pairs, 1nat,
{
    &&& entries_bytes(pairs, pairs.len()) matches Ok(content) && content.len() <= u32::MAX
    &&& forall|i: int| 0 <= i < pairs.len() ==> value_fits(pairs[i].0, pairs[i].1)
}

/// Whether the content of an array, and every length inside it, fits the
/// 32-bit field that carries it.
pub open spec fn array_fits(key: Seq<char>, items: Seq<Value>) -> bool
    decreases items, 1nat,
{
    &&& items_bytes(key, items, items.len()) matches Ok(content) && content.len() <= u32::MAX
    &&& forall|i: int| 0 <= i < items.len() ==> value_fits(key, items[i])
}

/// A run of entries that has a wire form begins with the wire form of each
/// shorter run.
pub proof fn lemma_entries_prefix(pairs: Entries, k: nat, n: nat)
    requires
        k <= n <= pairs.len(),
        entries_bytes(pairs, n).is_ok(),
    ensures
        entries_bytes(pairs, k).is_ok(),
        entries_bytes(pairs, k)->Ok_0.len() <= entries_bytes(pairs, n)->Ok_0.len(),
        entries_bytes(pairs, n)->Ok_0.subrange(0, entries_bytes(pairs, k)->Ok_0.len() as int)
            == entries_bytes(pairs, k)->Ok_0,
    decreases n - k,
{
    if k < n {
        lemma_entries_prefix(pairs, k, (n - 1) as nat);
        let shorter = entries_bytes(pairs, (n - 1) as nat)->Ok_0;
        let whole = entries_bytes(pairs, n)->Ok_0;
        let head = entries_bytes(pairs, k)->Ok_0;
        assert(whole.subrange(0, head.len() as int) =~= shorter.subrange(0, head.len() as int));
    } else {
        let whole = entries_bytes(pairs, n)->Ok_0;
        assert(whole.subrange(0, whole.len() as int) =~= whole);
    }
}

/// A run of items that has a wire form begins with the wire form of each
/// shorter run.
pub proof fn lemma_items_prefix(key: Seq<char>, items: Seq<Value>, k: nat, n: nat)
    requires
        k <= n <= items.len(),
        items_bytes(key, items, n).is_ok(),
    ensures
        items_bytes(key, items, k).is_ok(),
        items_bytes(key, items, k)->Ok_0.len() <= items_bytes(key, items, n)->Ok_0.len(),
        items_bytes(key, items, n)->Ok_0.subrange(
            0,
            items_bytes(key, items, k)->Ok_0.len() as int,
        ) == items_bytes(key, items, k)->Ok_0,
    decreases n - k,
{
    if k < n {
        lemma_items_prefix(key, items, k, (n - 1) as nat);
        let shorter = items_bytes(key, items, (n - 1) as nat)->Ok_0;
        let whole = items_bytes(key, items, n)->Ok_0;
        let head = items_bytes(key, items, k)->Ok_0;
        assert(whole.subrange(0, head.len() as int) =~= shorter.subrange(0, head.len() as int));
    } else {
        let whole = items_bytes(key, items, n)->Ok_0;
        assert(whole.subrange(0, whole.len() as int) =~= whole);
    }
}

/// A long string written into an input reads back as the bytes it was made
/// of, where its length fits 32 bits.
pub proof fn lemma_long_string_round_trip(input: Seq<u8>, pos: nat, content: Seq<u8>)
    requires
        content.len() <= u32::MAX,
        pos + 4 + content.len() <= input.len(),
        input.subrange(pos as int, (pos + 4 + content.len()) as int) == long_string_bytes(
            content,
        ),
    ensures
        take_long_string(input, pos) == Step::done(content, 4 + content.len()),
{
    let p = pos as int;
    let n = content.len() as int;
    let written = long_string_bytes(content);
    assert(input.subrange(p, p + 4) =~= written.subrange(0, 4));
    assert(written.subrange(0, 4) =~= be_u32(length_field(content.len())));
    lemma_u32_round_trip(input, p, length_field(content.len()));
    assert(input.subrange(p + 4, p + 4 + n) =~= written.subrange(4, 4 + n));
    assert(written.subrange(4, 4 + n) =~= content);
}

/// Where the `k`-th entry stands in the content of a table: behind the
/// entries before it.
pub proof fn lemma_entry_slice(pairs: Entries, k: nat)
    requires
        k < pairs.len(),
        entries_bytes(pairs, pairs.len()).is_ok(),
    ensures
        entries_bytes(pairs, k).is_ok(),
        entry_bytes(pairs[k as int].0, pairs[k as int].1).is_ok(),
        entries_bytes(pairs, k)->Ok_0.len() + entry_bytes(
            pairs[k as int].0,
            pairs[k as int].1,
        )->Ok_0.len() <= entries_bytes(pairs, pairs.len())->Ok_0.len(),
        entries_bytes(pairs, k + 1) == Ok::<Seq<u8>, Failure>(
            entries_bytes(pairs, k)->Ok_0 + entry_bytes(pairs[k as int].0, pairs[k as int].1)->Ok_0,
        ),
        entries_bytes(pairs, pairs.len())->Ok_0.subrange(
            entries_bytes(pairs, k)->Ok_0.len() as int,
            (entries_bytes(pairs, k)->Ok_0.len() + entry_bytes(
                pairs[k as int].0,
                pairs[k as int].1,
            )->Ok_0.len()) as int,
        ) == entry_bytes(pairs[k as int].0, pairs[k as int].1)->Ok_0,
{
    let len = pairs.len();
    let content = entries_bytes(pairs, len)->Ok_0;
    lemma_entries_prefix(pairs, k, len);
    lemma_entries_prefix(pairs, k + 1, len);
    let head = entries_bytes(pairs, k)->Ok_0;
    let next = entries_bytes(pairs, k + 1)->Ok_0;
    let entry = entry_bytes(pairs[k as int].0, pairs[k as int].1)->Ok_0;
    assert(next == head + entry);
    assert(content.subrange(0, next.len() as int) == next);
    assert forall|i: int| 0 <= i < entry.len() implies content[head.len() + i] == entry[i] by {
        assert(content[head.len() + i] == content.subrange(0, next.len() as int)[head.len() + i]);
    }
    assert(content.subrange(head.len() as int, (head.len() + entry.len()) as int) =~= entry);
}

/// Where the `k`-th item stands in the content of an array: behind the
/// items before it.
pub proof fn lemma_item_slice(key: Seq<char>, items: Seq<Value>, k: nat)
    requires
        k < items.len(),
        items_bytes(key, items, items.len()).is_ok(),
    ensures
        items_bytes(key, items, k).is_ok(),
        value_bytes(key, items[k as int]).is_ok(),
        items_bytes(key, items, k)->Ok_0.len() + value_bytes(key, items[k as int])->Ok_0.len()
            <= items_bytes(key, items, items.len())->Ok_0.len(),
        items_bytes(key, items, k + 1) == Ok::<Seq<u8>, Failure>(
            items_bytes(key, items, k)->Ok_0 + value_bytes(key, items[k as int])->Ok_0,
        ),
        items_bytes(key, items, items.len())->Ok_0.subrange(
            items_bytes(key, items, k)->Ok_0.len() as int,
            (items_bytes(key, items, k)->Ok_0.len() + value_bytes(
                key,
                items[k as int],
            )->Ok_0.len()) as int,
        ) == value_bytes(key, items[k as int])->Ok_0,
{
    let len = items.len();
    let content = items_bytes(key, items, len)->Ok_0;
    lemma_items_prefix(key, items, k, len);
    lemma_items_prefix(key, items, k + 1, len);
    let head = items_bytes(key, items, k)->Ok_0;
    let next = items_bytes(key, items, k + 1)->Ok_0;
    let body = value_bytes(key, items[k as int])->Ok_0;
    assert(next == head + body);
    assert(content.subrange(0, next.len() as int) == next);
    assert forall|i: int| 0 <= i < body.len() implies content[head.len() + i] == body[i] by {
        assert(content[head.len() + i] == content.subrange(0, next.len() as int)[head.len() + i]);
    }
    assert(content.subrange(head.len() as int, (head.len() + body.len()) as int) =~= body);
}

/// A piece of a content that stands in an input stands in the input
/// itself, as far behind the start of the content as it stands in it.
pub proof fn lemma_window(input: Seq<u8>, start: int, content: Seq<u8>, off: int, piece: Seq<u8>)
    requires
        0 <= start,
        start + content.len() <= input.len(),
        input.subrange(start, start + content.len()) == content,
        0 <= off,
        off + piece.len() <= content.len(),
        content.subrange(off, off + piece.len()) == piece,
    ensures
        input.subrange(start + off, start + off + piece.len()) == piece,
{
    assert forall|i: int| 0 <= i < piece.len() implies input[start + off + i] == piece[i] by {
        assert(input[start + off + i] == input.subrange(start, start + content.len())[off + i]);
        assert(content[off + i] == content.subrange(off, off + piece.len())[i]);
    }
    assert(input.subrange(start + off, start + off + piece.len()) =~= piece);
}

/// Whether a value is one of the kinds that the encoder writes and that
/// hold no other value.
pub open spec fn is_plain(v: Value) -> bool {
    v is Void || v is LongString || v is LongInt || v is Timestamp || v is Float64 || v is Boolean
}

/// A plain value written into an input reads back as itself under the tag
/// that it was written with.
pub proof fn lemma_plain_round_trip(key: Seq<char>, v: Value, input: Seq<u8>, pos: nat)
    requires
        is_plain(v),
        value_fits(key, v),
        pos + value_bytes(key, v)->Ok_0.len() <= input.len(),
        input.subrange(pos as int, (pos + value_bytes(key, v)->Ok_0.len()) as int) == value_bytes(
            key,
            v,
        )->Ok_0,
    ensures
        value_bytes(key, v).is_ok(),
        value_bytes(key, v)->Ok_0.len() >= 1,
        parse_value(value_bytes(key, v)->Ok_0[0], input, pos + 1) == Step::done(
            v,
            (value_bytes(key, v)->Ok_0.len() - 1) as nat,
        ),
{
    let bytes = value_bytes(key, v)->Ok_0;
    let p = pos as int;
    let n = bytes.len() as int;
    let window = input.subrange(p, p + n);
    assert(input[p] == window[0]);
    assert(bytes.subrange(1, n).len() == n - 1);
    lemma_window(input, p, bytes, 1, bytes.subrange(1, n));
    match v {
        Value::LongString(content) => {
            assert(bytes.subrange(1, n) =~= long_string_bytes(content));
            lemma_long_string_round_trip(input, pos + 1, content);
        },
        Value::LongInt(number) => {
            assert(bytes.subrange(1, n) =~= be_i64(number));
            lemma_u64_round_trip(input, p + 1, unsigned64(number));
            lemma_signed64_round_trip(number);
        },
        Value::Timestamp(seconds) => {
            assert(bytes.subrange(1, n) =~= be_i64(seconds));
            lemma_u64_round_trip(input, p + 1, unsigned64(seconds));
            lemma_signed64_round_trip(seconds);
        },
        Value::Float64(bits) => {
            assert(bytes.subrange(1, n) =~= be_u64(bits));
            lemma_u64_round_trip(input, p + 1, bits);
        },
        Value::Boolean(flag) => {
            assert(input[p + 1] == window[1]);
        },
        _ => {},
    }
}

/// A value that has a wire form, written into an input, reads back as
/// itself under the tag that it was written with, where every length inside
/// it fits its field.
pub proof fn lemma_value_round_trip(key: Seq<char>, v: Value, input: Seq<u8>, pos: nat)
    requires
        value_bytes(key, v).is_ok(),
        value_fits(key, v),
        pos + value_bytes(key, v)->Ok_0.len() <= input.len(),
        input.subrange(pos as int, (pos + value_bytes(key, v)->Ok_0.len()) as int) == value_bytes(
            key,
            v,
        )->Ok_0,
    ensures
        value_bytes(key, v)->Ok_0.len() >= 1,
        parse_value(value_bytes(key, v)->Ok_0[0], input, pos + 1) == Step::done(
            v,
            (value_bytes(key, v)->Ok_0.len() - 1) as nat,
        ),
    decreases v, 0nat,
{
    let bytes = value_bytes(key, v)->Ok_0;
    let p = pos as int;
    let n = bytes.len() as int;
    match v {
        Value::Table(pairs) => {
            let framed = table_bytes(pairs)->Ok_0;
            assert(bytes == seq![TAG_HASH] + framed);
            assert(input[p] == input.subrange(p, p + n)[0]);
            assert(bytes.subrange(1, n) =~= framed);
            lemma_window(input, p, bytes, 1, framed);
            lemma_table_round_trip_at(pairs, input, pos + 1);
        },
        Value::Array(items) => {
            let framed = array_bytes(key, items)->Ok_0;
            assert(bytes == seq![TAG_ARRAY] + framed);
            assert(input[p] == input.subrange(p, p + n)[0]);
            assert(bytes.subrange(1, n) =~= framed);
            lemma_window(input, p, bytes, 1, framed);
            lemma_array_round_trip_at(key, items, input, pos + 1);
        },
        _ => {
            lemma_plain_round_trip(key, v, input, pos);
        },
    }
}

/// An entry that has a wire form, written into an input, reads back as
/// itself.
pub proof fn lemma_entry_round_trip(key: Seq<char>, v: Value, input: Seq<u8>, pos: nat)
    requires
        entry_bytes(key, v).is_ok(),
        value_fits(key, v),
        pos + entry_bytes(key, v)->Ok_0.len() <= input.len(),
        input.subrange(pos as int, (pos + entry_bytes(key, v)->Ok_0.len()) as int) == entry_bytes(
            key,
            v,
        )->Ok_0,
    ensures
        entry_bytes(key, v)->Ok_0.len() >= 2,
        parse_entry(input, pos) == Step::done((key, v), entry_bytes(key, v)->Ok_0.len()),
    decreases v, 1nat,
{
    let entry = entry_bytes(key, v)->Ok_0;
    let key_bytes = encode_utf8(key);
    let body = value_bytes(key, v)->Ok_0;
    let p = pos as int;
    let kl = key_bytes.len() as int;
    assert(entry == short_string_bytes(key_bytes) + body);
    assert(input[p] == input.subrange(p, p + entry.len())[0]);
    assert(entry.subrange(1, 1 + kl) =~= key_bytes);
    lemma_window(input, p, entry, 1, key_bytes);
    encode_utf8_valid_utf8(key);
    encode_utf8_decode_utf8(key);
    assert(take_short_string(input, pos) == Step::done(key_bytes, (1 + kl) as nat));
    assert(parse_key(input, pos) == Step::done(key, (1 + kl) as nat));
    assert(entry.subrange(1 + kl, 1 + kl + body.len()) =~= body);
    lemma_window(input, p, entry, 1 + kl, body);
    lemma_value_round_trip(key, v, input, (pos + 1 + kl) as nat);
    assert(input[p + 1 + kl] == body[0]) by {
        assert(input[p + 1 + kl] == input.subrange(p + 1 + kl, p + 1 + kl + body.len())[0]);
    }
    assert(take_u8(input, (pos + 1 + kl) as nat) == Step::done(body[0], 1));
}

/// An item that has a wire form, written into an input, reads back as
/// itself.
pub proof fn lemma_item_round_trip(key: Seq<char>, v: Value, input: Seq<u8>, pos: nat)
    requires
        value_bytes(key, v).is_ok(),
        value_fits(key, v),
        pos + value_bytes(key, v)->Ok_0.len() <= input.len(),
        input.subrange(pos as int, (pos + value_bytes(key, v)->Ok_0.len()) as int) == value_bytes(
            key,
            v,
        )->Ok_0,
    ensures
        value_bytes(key, v)->Ok_0.len() >= 1,
        parse_item(input, pos) == Step::done(v, value_bytes(key, v)->Ok_0.len()),
    decreases v, 1nat,
{
    let body = value_bytes(key, v)->Ok_0;
    lemma_value_round_trip(key, v, input, pos);
    assert(input[pos as int] == body[0]) by {
        assert(input[pos as int] == input.subrange(pos as int, (pos + body.len()) as int)[0]);
    }
    assert(take_u8(input, pos) == Step::done(body[0], 1));
}

/// The length field of a framed content reads back as the length of the
/// content, and the content stands behind it.
pub proof fn lemma_framed_round_trip(input: Seq<u8>, pos: nat, content: Seq<u8>)
    requires
        content.len() <= u32::MAX,
        pos + 4 + content.len() <= input.len(),
        input.subrange(pos as int, (pos + 4 + content.len()) as int) == long_string_bytes(
            content,
        ),
    ensures
        take_u32(input, pos) == Step::done(content.len() as u32, 4),
        input.subrange((pos + 4) as int, (pos + 4 + content.len()) as int) == content,
{
    lemma_long_string_round_trip(input, pos, content);
}

/// A table that has a wire form, written into an input at `pos`, reads
/// back as itself.
pub proof fn lemma_table_round_trip_at(pairs: Entries, input: Seq<u8>, pos: nat)
    requires
        table_bytes(pairs).is_ok(),
        table_fits(pairs),
        pos + table_bytes(pairs)->Ok_0.len() <= input.len(),
        input.subrange(pos as int, (pos + table_bytes(pairs)->Ok_0.len()) as int) == table_bytes(
            pairs,
        )->Ok_0,
    ensures
        parse_table(input, pos) == Step::done(pairs, table_bytes(pairs)->Ok_0.len()),
    decreases pairs, pairs.len() + 2,
{
    let content = entries_bytes(pairs, pairs.len())->Ok_0;
    assert(table_bytes(pairs)->Ok_0 == long_string_bytes(content));
    lemma_framed_round_trip(input, pos, content);
    lemma_entries_round_trip(pairs, input, pos + 4, 0);
    assert(pairs.subrange(0, pairs.len() as int) =~= pairs);
    assert(entries_bytes(pairs, 0)->Ok_0.len() == 0);
}

/// The entries of a table from the `k`-th on, written into an input whose
/// content starts at `start`, read back as themselves.
pub proof fn lemma_entries_round_trip(pairs: Entries, input: Seq<u8>, start: nat, k: nat)
    requires
        k <= pairs.len(),
        table_fits(pairs),
        entries_bytes(pairs, pairs.len()).is_ok(),
        start + entries_bytes(pairs, pairs.len())->Ok_0.len() <= input.len(),
        input.subrange(
            start as int,
            (start + entries_bytes(pairs, pairs.len())->Ok_0.len()) as int,
        ) == entries_bytes(pairs, pairs.len())->Ok_0,
    ensures
        entries_bytes(pairs, k).is_ok(),
        entries_bytes(pairs, k)->Ok_0.len() <= entries_bytes(pairs, pairs.len())->Ok_0.len(),
        parse_entries(
            input,
            start + entries_bytes(pairs, k)->Ok_0.len(),
            start + entries_bytes(pairs, pairs.len())->Ok_0.len(),
        ) == Step::done(
            pairs.subrange(k as int, pairs.len() as int),
            (entries_bytes(pairs, pairs.len())->Ok_0.len() - entries_bytes(
                pairs,
                k,
            )->Ok_0.len()) as nat,
        ),
    decreases pairs, pairs.len() - k,
{
    let len = pairs.len();
    let content = entries_bytes(pairs, len)->Ok_0;
    let end = start + content.len();
    if k == len {
        lemma_entries_end(input, end);
        assert(pairs.subrange(k as int, len as int) =~= Seq::<(Seq<char>, Value)>::empty());
    } else {
        let key = pairs[k as int].0;
        let v = pairs[k as int].1;
        lemma_entry_slice(pairs, k);
        let head = entries_bytes(pairs, k)->Ok_0;
        let here = start + head.len();
        let entry = entry_bytes(key, v)->Ok_0;
        lemma_window(input, start as int, content, head.len() as int, entry);
        assert(value_fits(key, v));
        lemma_entry_round_trip(key, v, input, here);
        lemma_entries_round_trip(pairs, input, start, k + 1);
        assert(entries_bytes(pairs, k + 1)->Ok_0.len() == head.len() + entry.len());
        assert(here < end);
        lemma_entries_cons(input, here, end);
        assert(seq![(key, v)] + pairs.subrange(k + 1 as int, len as int) =~= pairs.subrange(
            k as int,
            len as int,
        ));
    }
}

/// An array that has a wire form, written into an input at `pos`, reads
/// back as itself.
pub proof fn lemma_array_round_trip_at(key: Seq<char>, items: Seq<Value>, input: Seq<u8>, pos: nat)
    requires
        array_bytes(key, items).is_ok(),
        array_fits(key, items),
        pos + array_bytes(key, items)->Ok_0.len() <= input.len(),
        input.subrange(pos as int, (pos + array_bytes(key, items)->Ok_0.len()) as int)
            == array_bytes(key, items)->Ok_0,
    ensures
        parse_array(input, pos) == Step::done(items, array_bytes(key, items)->Ok_0.len()),
    decreases items, items.len() + 2,
{
    let content = items_bytes(key, items, items.len())->Ok_0;
    assert(array_bytes(key, items)->Ok_0 == long_string_bytes(content));
    lemma_framed_round_trip(input, pos, content);
    lemma_items_round_trip(key, items, input, pos + 4, 0);
    assert(items.subrange(0, items.len() as int) =~= items);
    assert(items_bytes(key, items, 0)->Ok_0.len() == 0);
}

/// The items of an array from the `k`-th on, written into an input whose
/// content starts at `start`, read back as themselves.
pub proof fn lemma_items_round_trip(
    key: Seq<char>,
    items: Seq<Value>,
    input: Seq<u8>,
    start: nat,
    k: nat,
)
    requires
        k <= items.len(),
        array_fits(key, items),
        items_bytes(key, items, items.len()).is_ok(),
        start + items_bytes(key, items, items.len())->Ok_0.len() <= input.len(),
        input.subrange(
            start as int,
            (start + items_bytes(key, items, items.len())->Ok_0.len()) as int,
        ) == items_bytes(key, items, items.len())->Ok_0,
    ensures
        items_bytes(key, items, k).is_ok(),
        items_bytes(key, items, k)->Ok_0.len() <= items_bytes(key, items, items.len())->Ok_0.len(),
        parse_items(
            input,
            start + items_bytes(key, items, k)->Ok_0.len(),
            start + items_bytes(key, items, items.len())->Ok_0.len(),
        ) == Step::done(
            items.subrange(k as int, items.len() as int),
            (items_bytes(key, items, items.len())->Ok_0.len() - items_bytes(
                key,
                items,
                k,
            )->Ok_0.len()) as nat,
        ),
    decreases items, items.len() - k,
{
    let len = items.len();
    let content = items_bytes(key, items, len)->Ok_0;
    let end = start + content.len();
    if k == len {
        lemma_items_end(input, end);
        assert(items.subrange(k as int, len as int) =~= Seq::<Value>::empty());
    } else {
        let v = items[k as int];
        lemma_item_slice(key, items, k);
        let head = items_bytes(key, items, k)->Ok_0;
        let here = start + head.len();
        let body = value_bytes(key, v)->Ok_0;
        lemma_window(input, start as int, content, head.len() as int, body);
        assert(value_fits(key, v));
        lemma_item_round_trip(key, v, input, here);
        lemma_items_round_trip(key, items, input, start, k + 1);
        assert(items_bytes(key, items, k + 1)->Ok_0.len() == head.len() + body.len());
        assert(here < end);
        lemma_items_cons(input, here, end);
        assert(seq![v] + items.subrange(k + 1 as int, len as int) =~= items.subrange(
            k as int,
            len as int,
        ));
    }
}

/// Round trip: a table of values that the encoder writes, with keys of at
/// most 255 bytes, decodes from its own encoding as the same pairs in the
/// same order, whatever the depth of nesting, and the decoder uses up the
/// whole encoding. Every length inside the table has to fit the 32-bit
/// field that carries it.
pub proof fn lemma_table_round_trip(pairs: Entries)
    requires
        table_bytes(pairs).is_ok(),
        table_fits(pairs),
    ensures
        parse_table(table_bytes(pairs)->Ok_0, 0) == Step::done(
            pairs,
            table_bytes(pairs)->Ok_0.len(),
        ),
{
    let bytes = table_bytes(pairs)->Ok_0;
    assert(bytes.subrange(0, bytes.len() as int) =~= bytes);
    lemma_table_round_trip_at(pairs, bytes, 0);
}

} // verus!
