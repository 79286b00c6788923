use amq_protocol_native::error::AmqpError;
use amq_protocol_native::table::{
    decode_array, decode_entry, decode_field_value, decode_item, decode_table,
    decode_table_inner, encode_array,
    encode_field_value, encode_table, encode_table_inner, kind_of, table_length,
};
use amq_protocol_native::types::{Decoder, Encoder};
use amq_protocol_native::value::FieldValue;

fn pair(key: &str, value: FieldValue) -> (String, FieldValue) {
    (key.to_string(), value)
}

fn text(s: &str) -> FieldValue {
    FieldValue::LongString(s.as_bytes().to_vec())
}

#[test]
fn encode_table_of_boolean_and_string() {
    let table = vec![pair("a", FieldValue::Boolean(true)), pair("b", text("x"))];
    assert_eq!(
        encode_table(&table),
        Ok(vec![
            0, 0, 0, 12, 0x01, b'a', b't', 0x01, 0x01, b'b', b'S', 0x00, 0x00, 0x00, 0x01, b'x'
        ])
    );
}

#[test]
fn encode_empty_table() {
    assert_eq!(encode_table(&vec![]), Ok(vec![0, 0, 0, 0]));
}

#[test]
fn encode_table_keeps_the_order_of_its_pairs() {
    let table = vec![
        pair("z", FieldValue::Void),
        pair("a", FieldValue::Void),
        pair("z", FieldValue::Boolean(false)),
    ];
    assert_eq!(
        encode_table(&table),
        Ok(vec![0, 0, 0, 10, 1, b'z', b'V', 1, b'a', b'V', 1, b'z', b't', 0])
    );
}

#[test]
fn encode_each_kind_that_has_a_wire_form() {
    let mut encoder = Encoder::new();
    assert_eq!(encode_field_value("k", &FieldValue::Void, &mut encoder), Ok(()));
    assert_eq!(encode_field_value("k", &text("hi"), &mut encoder), Ok(()));
    assert_eq!(encode_field_value("k", &FieldValue::LongInt(-2), &mut encoder), Ok(()));
    assert_eq!(
        encode_field_value("k", &FieldValue::Float64(1.2f64.to_bits()), &mut encoder),
        Ok(())
    );
    assert_eq!(encode_field_value("k", &FieldValue::Boolean(false), &mut encoder), Ok(()));
    assert_eq!(encode_field_value("k", &FieldValue::Timestamp(0x01020304), &mut encoder), Ok(()));
    assert_eq!(
        encode_field_value(
            "k",
            &FieldValue::Table(vec![pair("n", FieldValue::Void)]),
            &mut encoder
        ),
        Ok(())
    );
    assert_eq!(
        encode_field_value(
            "k",
            &FieldValue::Array(vec![FieldValue::Boolean(true), FieldValue::Void]),
            &mut encoder
        ),
        Ok(())
    );
    let expected: Vec<u8> = vec![
        b'V', //
        b'S', 0, 0, 0, 2, b'h', b'i', //
        b'l', 0xFF, 0xFF, 0xFF, 0xFF, 0xFF, 0xFF, 0xFF, 0xFE, //
        b'd', 0x3F, 0xF3, 0x33, 0x33, 0x33, 0x33, 0x33, 0x33, //
        b't', 0, //
        b'T', 0, 0, 0, 0, 1, 2, 3, 4, //
        b'F', 0, 0, 0, 3, 1, b'n', b'V', //
        b'A', 0, 0, 0, 3, b't', 1, b'V',
    ];
    assert_eq!(encoder.as_slice(), &expected[..]);
}

#[test]
fn encode_refuses_kinds_that_come_from_the_decoder_only() {
    let cases = [
        (FieldValue::ShortInt(1), "ShortInt"),
        (FieldValue::Int(1), "Int"),
        (FieldValue::Byte(1), "Byte"),
        (FieldValue::ByteArray(vec![1]), "ByteArray"),
        (FieldValue::Float32(1.5f32.to_bits()), "Float32"),
        (FieldValue::Decimal { scale: 2, magnitude: 314 }, "Decimal"),
    ];
    for (value, kind) in cases {
        assert_eq!(kind_of(&value), kind);
        let mut encoder = Encoder::new();
        encoder.write_u8(9);
        assert_eq!(
            encode_field_value("the key", &value, &mut encoder),
            Err(AmqpError::InvalidTableValue("the key".to_string(), kind.to_string()))
        );
        assert_eq!(encoder.as_slice(), &[9]);
        let table = vec![pair("fine", FieldValue::Void), pair("bad", value)];
        assert_eq!(
            encode_table(&table),
            Err(AmqpError::InvalidTableValue("bad".to_string(), kind.to_string()))
        );
    }
}

#[test]
fn encode_names_the_kinds_that_have_a_wire_form() {
    assert_eq!(kind_of(&text("")), "LongString");
    assert_eq!(kind_of(&FieldValue::LongInt(0)), "LongInt");
    assert_eq!(kind_of(&FieldValue::Float64(0)), "Float64");
    assert_eq!(kind_of(&FieldValue::Boolean(true)), "Boolean");
    assert_eq!(kind_of(&FieldValue::Timestamp(0)), "Timestamp");
    assert_eq!(kind_of(&FieldValue::Table(vec![])), "Table");
    assert_eq!(kind_of(&FieldValue::Array(vec![])), "Array");
    assert_eq!(kind_of(&FieldValue::Void), "Void");
}

#[test]
fn encode_reports_the_key_above_a_value_inside_an_array() {
    let table = vec![pair(
        "outer",
        FieldValue::Array(vec![FieldValue::Void, FieldValue::Array(vec![FieldValue::Int(3)])]),
    )];
    assert_eq!(
        encode_table(&table),
        Err(AmqpError::InvalidTableValue("outer".to_string(), "Int".to_string()))
    );
    let table = vec![pair(
        "outer",
        FieldValue::Table(vec![pair("inner", FieldValue::Array(vec![FieldValue::Byte(3)]))]),
    )];
    assert_eq!(
        encode_table(&table),
        Err(AmqpError::InvalidTableValue("inner".to_string(), "Byte".to_string()))
    );
}

#[test]
fn encode_leaves_the_tag_of_a_nested_value_that_fails() {
    let mut encoder = Encoder::new();
    let table = FieldValue::Table(vec![pair("k", FieldValue::Int(1))]);
    assert!(encode_field_value("x", &table, &mut encoder).is_err());
    assert_eq!(encoder.as_slice(), &[b'F']);
    let mut encoder = Encoder::new();
    let array = FieldValue::Array(vec![FieldValue::Void, FieldValue::Int(1)]);
    assert!(encode_field_value("x", &array, &mut encoder).is_err());
    assert_eq!(encoder.as_slice(), &[b'A']);
    let mut encoder = Encoder::new();
    assert!(encode_table_inner(&vec![pair("k", FieldValue::Int(1))], &mut encoder).is_err());
    assert_eq!(encoder.len(), 0);
    assert!(encode_array("k", &vec![FieldValue::Int(1)], &mut encoder).is_err());
    assert_eq!(encoder.len(), 0);
}

#[test]
fn encode_takes_key_of_255_bytes() {
    let key = "k".repeat(255);
    let encoded = encode_table(&vec![pair(&key, FieldValue::Void)]).unwrap();
    assert_eq!(encoded.len(), 4 + 1 + 255 + 1);
    assert_eq!(&encoded[..5], &[0, 0, 1, 1, 255]);
    assert_eq!(decode_table(&encoded), Ok(vec![pair(&key, FieldValue::Void)]));
}

#[test]
fn encode_refuses_key_of_256_bytes() {
    let key = "k".repeat(256);
    assert_eq!(
        encode_table(&vec![pair(&key, FieldValue::Void)]),
        Err(AmqpError::EncodingError("Table key too long (max 255)".to_string()))
    );
    let key = "\u{e9}".repeat(128);
    assert_eq!(
        encode_table(&vec![pair("fine", FieldValue::Void), pair(&key, FieldValue::Void)]),
        Err(AmqpError::EncodingError("Table key too long (max 255)".to_string()))
    );
    let nested = vec![pair("outer", FieldValue::Table(vec![pair(&key, FieldValue::Void)]))];
    assert_eq!(
        encode_table(&nested),
        Err(AmqpError::EncodingError("Table key too long (max 255)".to_string()))
    );
}

#[test]
fn encode_refuses_long_key_wherever_it_stands() {
    let key = "k".repeat(300);
    let too_long = || AmqpError::EncodingError("Table key too long (max 255)".to_string());
    let inside_array = vec![
        pair("first", FieldValue::LongInt(1)),
        pair(
            "list",
            FieldValue::Array(vec![
                FieldValue::Void,
                FieldValue::Table(vec![pair("fine", text("x")), pair(&key, FieldValue::Void)]),
            ]),
        ),
        pair("last", FieldValue::Void),
    ];
    assert_eq!(encode_table(&inside_array), Err(too_long()));
    let deep = vec![pair(
        "a",
        FieldValue::Table(vec![pair(
            "b",
            FieldValue::Table(vec![pair("c", FieldValue::Table(vec![pair(&key, text("v"))]))]),
        )]),
    )];
    assert_eq!(encode_table(&deep), Err(too_long()));
    let last = vec![pair("a", FieldValue::Void), pair("b", FieldValue::Void), pair(&key, text(""))];
    assert_eq!(encode_table(&last), Err(too_long()));
}

#[test]
fn encode_fails_with_the_first_failure_in_order() {
    let key = "k".repeat(256);
    let table = vec![pair("a", FieldValue::Int(1)), pair(&key, FieldValue::Void)];
    assert_eq!(
        encode_table(&table),
        Err(AmqpError::InvalidTableValue("a".to_string(), "Int".to_string()))
    );
    let table = vec![pair(&key, FieldValue::Void), pair("a", FieldValue::Int(1))];
    assert_eq!(
        encode_table(&table),
        Err(AmqpError::EncodingError("Table key too long (max 255)".to_string()))
    );
}

fn deep_table() -> Vec<(String, FieldValue)> {
    vec![
        pair("string", text("hello")),
        pair("empty", text("")),
        pair("integer", FieldValue::LongInt(-1234567890123)),
        pair("float", FieldValue::Float64(3.25f64.to_bits())),
        pair("yes", FieldValue::Boolean(true)),
        pair("no", FieldValue::Boolean(false)),
        pair("nothing", FieldValue::Void),
        pair("when", FieldValue::Timestamp(1700000000)),
        pair("", FieldValue::LongInt(i64::MIN)),
        pair("cl\u{e9}", FieldValue::LongInt(i64::MAX)),
        pair(
            "level1",
            FieldValue::Table(vec![
                pair("x", FieldValue::LongInt(1)),
                pair(
                    "level2",
                    FieldValue::Array(vec![
                        FieldValue::Void,
                        text("in array"),
                        FieldValue::Table(vec![pair(
                            "level3",
                            FieldValue::Array(vec![
                                FieldValue::Array(vec![]),
                                FieldValue::Table(vec![]),
                                FieldValue::Table(vec![pair("level5", FieldValue::Boolean(true))]),
                            ]),
                        )]),
                    ]),
                ),
            ]),
        ),
        pair("string", text("again")),
    ]
}

#[test]
fn table_round_trip() {
    let table = deep_table();
    let encoded = encode_table(&table).unwrap();
    assert_eq!(decode_table(&encoded), Ok(deep_table()));
    let length = u32::from_be_bytes([encoded[0], encoded[1], encoded[2], encoded[3]]);
    assert_eq!(length as usize, encoded.len() - 4);
    let mut decoder = Decoder::new(&encoded);
    assert_eq!(decode_table_inner(&mut decoder), Ok(deep_table()));
    assert_eq!(decoder.remaining(), 0);
}

#[test]
fn table_round_trip_of_small_tables() {
    let tables: Vec<Vec<(String, FieldValue)>> = vec![
        vec![],
        vec![pair("a", FieldValue::Void)],
        vec![pair("a", FieldValue::Table(vec![]))],
        vec![pair("a", FieldValue::Array(vec![]))],
        vec![pair("bytes", FieldValue::LongString(vec![0, 0xFF, 0xCE, b'V']))],
    ];
    for table in tables {
        let encoded = encode_table(&table).unwrap();
        assert_eq!(decode_table(&encoded).as_ref(), Ok(&table));
    }
}

#[test]
fn decode_table_of_zero_length() {
    assert_eq!(decode_table(&[0, 0, 0, 0]), Ok(vec![]));
    let data = [0u8, 0, 0, 0, 1, b'a', b'V'];
    assert_eq!(decode_table(&data), Ok(vec![]));
    let mut decoder = Decoder::new(&data);
    assert_eq!(decode_table_inner(&mut decoder), Ok(vec![]));
    assert_eq!(decoder.position(), 4);
    let mut decoder = Decoder::new(&data);
    assert_eq!(decode_array(&mut decoder), Ok(vec![]));
    assert_eq!(decoder.position(), 4);
}

#[test]
fn decode_field_value_of_unknown_tag() {
    for tag in [b'Z', b'a', b'B', b'L', b'U', b'u', 0u8, 0xFF] {
        let data = [1u8, 2, 3, 4, 5, 6, 7, 8, 9];
        let mut decoder = Decoder::new(&data);
        assert_eq!(
            decode_field_value(tag, &mut decoder),
            Err(AmqpError::InvalidTableType(tag as char))
        );
        assert_eq!(decoder.position(), 0);
    }
    assert_eq!(
        decode_table(&[0, 0, 0, 3, 1, b'k', b'Z']),
        Err(AmqpError::InvalidTableType('Z'))
    );
}

#[test]
fn decode_each_tag() {
    let cases: Vec<(u8, Vec<u8>, FieldValue)> = vec![
        (b'S', vec![0, 0, 0, 2, b'h', b'i'], text("hi")),
        (b'x', vec![0, 0, 0, 2, 0xFF, 0x00], FieldValue::ByteArray(vec![0xFF, 0x00])),
        (b'I', vec![0xFF, 0xFF, 0xFF, 0xFE], FieldValue::Int(-2)),
        (b'I', vec![0x00, 0x01, 0x00, 0x00], FieldValue::Int(65536)),
        (b'l', vec![0, 0, 0, 0, 0, 0, 1, 0], FieldValue::LongInt(256)),
        (b'l', vec![0xFF; 8], FieldValue::LongInt(-1)),
        (b's', vec![0x80, 0x00], FieldValue::ShortInt(i16::MIN)),
        (b's', vec![0x01, 0x02], FieldValue::ShortInt(258)),
        (b'b', vec![0xFE], FieldValue::Byte(-2)),
        (b'b', vec![0x7F], FieldValue::Byte(127)),
        (b'T', vec![0, 0, 0, 0, 0x65, 0x53, 0xF1, 0x00], FieldValue::Timestamp(1700000000)),
        (b'D', vec![2, 0, 0, 0x01, 0x3A], FieldValue::Decimal { scale: 2, magnitude: 314 }),
        (b'f', vec![0x3F, 0xC0, 0x00, 0x00], FieldValue::Float32(1.5f32.to_bits())),
        (
            b'd',
            vec![0x3F, 0xF3, 0x33, 0x33, 0x33, 0x33, 0x33, 0x33],
            FieldValue::Float64(1.2f64.to_bits()),
        ),
        (b't', vec![0], FieldValue::Boolean(false)),
        (b't', vec![1], FieldValue::Boolean(true)),
        (b't', vec![2], FieldValue::Boolean(true)),
        (b't', vec![0xFF], FieldValue::Boolean(true)),
        (
            b'F',
            vec![0, 0, 0, 4, 1, b'k', b't', 1],
            FieldValue::Table(vec![pair("k", FieldValue::Boolean(true))]),
        ),
        (
            b'A',
            vec![0, 0, 0, 4, b'b', 5, b't', 0],
            FieldValue::Array(vec![FieldValue::Byte(5), FieldValue::Boolean(false)]),
        ),
        (b'V', vec![], FieldValue::Void),
    ];
    for (tag, payload, expected) in cases {
        let mut data = payload.clone();
        data.push(0xEE);
        let mut decoder = Decoder::new(&data);
        assert_eq!(decode_field_value(tag, &mut decoder), Ok(expected));
        assert_eq!(decoder.position(), payload.len());
    }
}

#[test]
fn decode_fails_where_the_input_ends() {
    let cases: Vec<(u8, Vec<u8>, usize, usize, usize)> = vec![
        (b'S', vec![0, 0, 0], 4, 3, 0),
        (b'S', vec![0, 0, 0, 2, b'h'], 2, 1, 0),
        (b'x', vec![0, 0, 0, 1], 1, 0, 0),
        (b'I', vec![1, 2, 3], 4, 3, 0),
        (b'l', vec![1, 2, 3, 4, 5, 6, 7], 8, 7, 0),
        (b's', vec![1], 2, 1, 0),
        (b'b', vec![], 1, 0, 0),
        (b'T', vec![], 8, 0, 0),
        (b'D', vec![], 5, 0, 0),
        (b'D', vec![2, 0, 0, 1], 5, 4, 0),
        (b'f', vec![1, 2], 4, 2, 0),
        (b'd', vec![1, 2, 3, 4], 8, 4, 0),
        (b't', vec![], 1, 0, 0),
        (b'F', vec![0, 0], 4, 2, 0),
        (b'F', vec![0, 0, 0, 5, 1, b'k'], 1, 0, 6),
        (b'F', vec![0, 0, 0, 5, 3, b'k'], 3, 1, 4),
        (b'A', vec![0], 4, 1, 0),
        (b'A', vec![0, 0, 0, 9, b'l', 1, 2], 8, 2, 5),
        (b'A', vec![0, 0, 0, 9, b't', 1], 1, 0, 6),
    ];
    for (tag, data, needed, available, cursor) in cases {
        let mut decoder = Decoder::new(&data);
        assert_eq!(
            decode_field_value(tag, &mut decoder),
            Err(AmqpError::BufferTooShort { needed, available })
        );
        assert_eq!(decoder.position(), cursor);
    }
}

#[test]
fn decode_table_with_several_entries() {
    let data = [
        0u8, 0, 0, 16, 1, b'a', b't', 1, 1, b'b', b'S', 0, 0, 0, 1, b'x', 2, b'c', b'd', b'V',
    ];
    assert_eq!(
        decode_table(&data),
        Ok(vec![
            pair("a", FieldValue::Boolean(true)),
            pair("b", text("x")),
            pair("cd", FieldValue::Void)
        ])
    );
}

#[test]
fn decode_table_keeps_entries_with_the_same_key() {
    let data = [0u8, 0, 0, 7, 1, b'a', b'V', 1, b'a', b't', 1];
    assert_eq!(
        decode_table(&data),
        Ok(vec![pair("a", FieldValue::Void), pair("a", FieldValue::Boolean(true))])
    );
}

#[test]
fn decode_table_stops_at_its_declared_length() {
    let data = [0u8, 0, 0, 3, 1, b'a', b'V', 1, b'b', b'V'];
    let mut decoder = Decoder::new(&data);
    assert_eq!(decode_table_inner(&mut decoder), Ok(vec![pair("a", FieldValue::Void)]));
    assert_eq!(decoder.position(), 7);
}

#[test]
fn decode_table_refuses_entry_that_runs_past_the_declared_end() {
    let overrun = AmqpError::DecodingError("Table entry runs past the declared length".to_string());
    assert_eq!(decode_table(&[0x00, 0x00, 0x00, 0x03, 0x01, 0x61, 0x74, 0x01]), Err(overrun));
    let data = [0u8, 0, 0, 1, 1, b'a', b't', 1, 0xEE];
    let mut decoder = Decoder::new(&data);
    assert_eq!(
        decode_table_inner(&mut decoder),
        Err(AmqpError::DecodingError("Table entry runs past the declared length".to_string()))
    );
    assert_eq!(decoder.position(), 8);
    let data = [0u8, 0, 0, 5, 1, b'a', b'V', 1, b'b', b't', 1];
    let mut decoder = Decoder::new(&data);
    assert_eq!(
        decode_table_inner(&mut decoder),
        Err(AmqpError::DecodingError("Table entry runs past the declared length".to_string()))
    );
    assert_eq!(decoder.position(), 11);
    let nested = [0u8, 0, 0, 9, 1, b'o', b'F', 0, 0, 0, 1, 0, b't', 1];
    assert_eq!(
        decode_table(&nested),
        Err(AmqpError::DecodingError("Table entry runs past the declared length".to_string()))
    );
}

#[test]
fn decode_array_refuses_item_that_runs_past_the_declared_end() {
    let data = [0u8, 0, 0, 1, b't', 1, 0xEE];
    let mut decoder = Decoder::new(&data);
    assert_eq!(
        decode_array(&mut decoder),
        Err(AmqpError::DecodingError("Array item runs past the declared length".to_string()))
    );
    assert_eq!(decoder.position(), 6);
    let data = [0u8, 0, 0, 2, b't', 1, 0xEE];
    let mut decoder = Decoder::new(&data);
    assert_eq!(decode_array(&mut decoder), Ok(vec![FieldValue::Boolean(true)]));
    assert_eq!(decoder.position(), 6);
}

#[test]
fn decode_item_reads_tag_and_value() {
    let data = [b's', 0x01, 0x02, 9];
    let mut decoder = Decoder::new(&data);
    assert_eq!(decode_item(&mut decoder), Ok(FieldValue::ShortInt(258)));
    assert_eq!(decoder.position(), 3);
    let mut decoder = Decoder::new(&data[3..]);
    assert_eq!(decode_item(&mut decoder), Err(AmqpError::InvalidTableType('\t')));
    assert_eq!(decoder.position(), 1);
}

#[test]
fn decode_table_that_is_cut_off() {
    assert_eq!(
        decode_table(&[0, 0, 0]),
        Err(AmqpError::BufferTooShort { needed: 4, available: 3 })
    );
    assert_eq!(decode_table(&[]), Err(AmqpError::BufferTooShort { needed: 4, available: 0 }));
    assert_eq!(
        decode_table(&[0, 0, 0, 9, 1, b'a', b'V']),
        Err(AmqpError::BufferTooShort { needed: 1, available: 0 })
    );
    assert_eq!(
        decode_table(&[0, 0, 0, 9, 1, b'a']),
        Err(AmqpError::BufferTooShort { needed: 1, available: 0 })
    );
    assert_eq!(
        decode_table(&[0, 0, 0, 9, 4, b'a']),
        Err(AmqpError::BufferTooShort { needed: 4, available: 1 })
    );
}

#[test]
fn decode_table_with_key_that_is_not_utf8() {
    let data = [0u8, 0, 0, 4, 2, 0xC3, 0x28, b'V'];
    let mut decoder = Decoder::new(&data);
    assert_eq!(
        decode_table_inner(&mut decoder),
        Err(AmqpError::DecodingError("Invalid UTF-8 in key".to_string()))
    );
    assert_eq!(decoder.position(), 4);
    let mut decoder = Decoder::new(&data[4..]);
    assert_eq!(
        decode_entry(&mut decoder),
        Err(AmqpError::DecodingError("Invalid UTF-8 in key".to_string()))
    );
    assert_eq!(decoder.position(), 0);
}

#[test]
fn decode_entry_reads_key_tag_and_value() {
    let data = [2u8, b'o', b'k', b's', 0xFF, 0xFF, 9];
    let mut decoder = Decoder::new(&data);
    assert_eq!(decode_entry(&mut decoder), Ok(pair("ok", FieldValue::ShortInt(-1))));
    assert_eq!(decoder.position(), 6);
}

#[test]
fn decode_array_of_items() {
    let data = [0u8, 0, 0, 8, b'V', b't', 1, b'S', 0, 0, 0, 0];
    let mut decoder = Decoder::new(&data);
    assert_eq!(
        decode_array(&mut decoder),
        Ok(vec![FieldValue::Void, FieldValue::Boolean(true), text("")])
    );
    assert_eq!(decoder.position(), 12);
}

#[test]
fn encode_array_of_items() {
    let mut encoder = Encoder::new();
    assert_eq!(
        encode_array("k", &vec![FieldValue::LongInt(1), text("a")], &mut encoder),
        Ok(())
    );
    assert_eq!(
        encoder.as_slice(),
        &[0, 0, 0, 15, b'l', 0, 0, 0, 0, 0, 0, 0, 1, b'S', 0, 0, 0, 1, b'a']
    );
    let mut encoder = Encoder::new();
    assert_eq!(encode_array("k", &vec![], &mut encoder), Ok(()));
    assert_eq!(encoder.as_slice(), &[0, 0, 0, 0]);
}

#[test]
fn table_length_reads_the_first_four_bytes() {
    assert_eq!(table_length(&[0, 0, 1, 2, 9, 9]), Ok(258));
    assert_eq!(table_length(&[0xFF, 0xFF, 0xFF, 0xFF]), Ok(u32::MAX));
    assert_eq!(
        table_length(&[0, 0, 1]),
        Err(AmqpError::BufferTooShort { needed: 4, available: 3 })
    );
}
