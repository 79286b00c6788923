use amq_protocol_native::error::AmqpError;
use amq_protocol_native::methods::{
    encode_argument, encode_basic_ack, encode_basic_cancel, encode_basic_consume,
    encode_basic_get, encode_basic_nack, encode_basic_publish, encode_basic_qos,
    encode_basic_recover, encode_basic_recover_async, encode_basic_reject, encode_channel_close,
    encode_channel_close_ok, encode_channel_flow, encode_channel_flow_ok, encode_channel_open,
    encode_confirm_select, encode_confirm_select_ok, encode_connection_blocked,
    encode_connection_close, encode_connection_close_ok, encode_connection_open,
    encode_connection_secure_ok, encode_connection_start_ok, encode_connection_tune_ok,
    encode_connection_unblocked, encode_connection_update_secret,
    encode_connection_update_secret_ok, encode_exchange_bind, encode_exchange_declare,
    encode_exchange_delete, encode_exchange_unbind, encode_method, encode_queue_bind,
    encode_queue_declare, encode_queue_delete, encode_queue_purge, encode_queue_unbind,
    encode_tx_commit, encode_tx_rollback, encode_tx_select, pack_flags, pack_u64_be,
    write_method_header, Argument, Method,
};
use amq_protocol_native::types::Encoder;
use amq_protocol_native::value::FieldValue;

fn no_table() -> Vec<(String, FieldValue)> {
    vec![]
}

fn one_entry() -> Vec<(String, FieldValue)> {
    vec![("k".to_string(), FieldValue::Boolean(true))]
}

const ONE_ENTRY: [u8; 8] = [0, 0, 0, 4, 1, b'k', b't', 1];

fn concat(parts: &[&[u8]]) -> Vec<u8> {
    let mut all = Vec::new();
    for part in parts {
        all.extend_from_slice(part);
    }
    all
}

#[test]
fn queue_declare_packs_durable_into_bit_one() {
    let encoded =
        encode_queue_declare(b"q", false, true, false, false, false, &no_table()).unwrap();
    assert_eq!(encoded, vec![0, 50, 0, 10, 0, 0, 1, b'q', 0b0000_0010, 0, 0, 0, 0]);
    assert_eq!(encoded[8], 0b00000010);
}

#[test]
fn queue_declare_packs_each_flag_into_its_bit() {
    let flags = |p, d, e, a, n| encode_queue_declare(b"", p, d, e, a, n, &no_table()).unwrap()[7];
    assert_eq!(flags(false, false, false, false, false), 0);
    assert_eq!(flags(true, false, false, false, false), 1);
    assert_eq!(flags(false, true, false, false, false), 2);
    assert_eq!(flags(false, false, true, false, false), 4);
    assert_eq!(flags(false, false, false, true, false), 8);
    assert_eq!(flags(false, false, false, false, true), 16);
    assert_eq!(flags(true, true, true, true, true), 31);
    assert_eq!(flags(true, false, true, false, true), 21);
}

#[test]
fn pack_flags_puts_the_first_flag_lowest() {
    assert_eq!(pack_flags(&[]), 0);
    assert_eq!(pack_flags(&[true]), 1);
    assert_eq!(pack_flags(&[false, true]), 2);
    assert_eq!(pack_flags(&[true, true, false, true]), 0b1011);
    assert_eq!(pack_flags(&[true; 8]), 0xFF);
    assert_eq!(pack_flags(&[false, false, false, false, false, false, false, true]), 0x80);
    assert_eq!(pack_flags(&[false, false, false, false, false, false, false, false, true]), 0);
    assert_eq!(pack_flags(&[true; 11]), 0xFF);
}

#[test]
fn pack_u64_be_is_big_endian() {
    assert_eq!(pack_u64_be(0x0102030405060708), [1, 2, 3, 4, 5, 6, 7, 8]);
    assert_eq!(pack_u64_be(0), [0; 8]);
    assert_eq!(pack_u64_be(u64::MAX), [0xFF; 8]);
    assert_eq!(pack_u64_be(0x1_0000_0000), [0, 0, 0, 1, 0, 0, 0, 0]);
}

#[test]
fn method_header_is_class_then_method() {
    let mut encoder = Encoder::new();
    write_method_header(&mut encoder, 60, 120);
    write_method_header(&mut encoder, 0x0102, 0x0304);
    assert_eq!(encoder.as_slice(), &[0, 60, 0, 120, 1, 2, 3, 4]);
}

#[test]
fn arguments_are_encoded_by_kind() {
    let table = one_entry();
    let cases: Vec<(Argument, Vec<u8>)> = vec![
        (Argument::Octet(7), vec![7]),
        (Argument::Short(0x0102), vec![1, 2]),
        (Argument::Long(0x01020304), vec![1, 2, 3, 4]),
        (Argument::LongLong(0x0102030405060708), vec![1, 2, 3, 4, 5, 6, 7, 8]),
        (Argument::Flags(&[false, true, true]), vec![6]),
        (Argument::ShortText(b"abc", "zz"), vec![3, b'a', b'b', b'c']),
        (Argument::ShortText(&[0xFF, 0xFE], "zz"), vec![2, b'z', b'z']),
        (Argument::LongBytes(&[0xFF, 0xFE]), vec![0, 0, 0, 2, 0xFF, 0xFE]),
        (Argument::Table(&table), ONE_ENTRY.to_vec()),
    ];
    for (argument, expected) in cases {
        let mut encoder = Encoder::new();
        encoder.write_u8(0xEE);
        assert_eq!(encode_argument(&argument, &mut encoder), Ok(()));
        assert_eq!(&encoder.as_slice()[1..], &expected[..]);
    }
}

#[test]
fn argument_that_fails_writes_nothing() {
    let long = vec![b'a'; 256];
    let mut encoder = Encoder::new();
    encoder.write_u8(0xEE);
    assert_eq!(
        encode_argument(&Argument::ShortText(&long, ""), &mut encoder),
        Err(AmqpError::ShortStringTooLong(256))
    );
    let table = vec![("k".to_string(), FieldValue::Int(1))];
    assert_eq!(
        encode_argument(&Argument::Table(&table), &mut encoder),
        Err(AmqpError::InvalidTableValue("k".to_string(), "Int".to_string()))
    );
    assert_eq!(encoder.as_slice(), &[0xEE]);
}

#[test]
fn encode_method_puts_arguments_in_order() {
    let arguments = [Argument::Octet(1), Argument::Short(2), Argument::ShortText(b"x", "")];
    assert_eq!(
        encode_method(Method::BasicQos, &arguments),
        Ok(vec![0, 60, 0, 10, 1, 0, 2, 1, b'x'])
    );
    assert_eq!(encode_method(Method::TxSelect, &[]), Ok(vec![0, 90, 0, 10]));
}

#[test]
fn encode_method_fails_with_the_first_failure() {
    let long = vec![b'a'; 300];
    let table = vec![("k".to_string(), FieldValue::Int(1))];
    let arguments =
        [Argument::Octet(1), Argument::ShortText(&long, ""), Argument::Table(&table)];
    assert_eq!(
        encode_method(Method::BasicQos, &arguments),
        Err(AmqpError::ShortStringTooLong(300))
    );
    let arguments =
        [Argument::Table(&table), Argument::ShortText(&long, ""), Argument::Octet(1)];
    assert_eq!(
        encode_method(Method::BasicQos, &arguments),
        Err(AmqpError::InvalidTableValue("k".to_string(), "Int".to_string()))
    );
}

#[test]
fn connection_start_ok() {
    assert_eq!(
        encode_connection_start_ok(&one_entry(), b"AMQPLAIN", &[0, 1, 2], b"de_DE"),
        Ok(concat(&[
            &[0, 10, 0, 11],
            &ONE_ENTRY,
            &[8],
            b"AMQPLAIN",
            &[0, 0, 0, 3, 0, 1, 2],
            &[5],
            b"de_DE"
        ]))
    );
}

#[test]
fn connection_start_ok_falls_back_where_text_is_not_utf8() {
    assert_eq!(
        encode_connection_start_ok(&no_table(), &[0xFF], b"", &[0xC0, 0x80]),
        Ok(concat(&[
            &[0, 10, 0, 11],
            &[0, 0, 0, 0],
            &[5],
            b"PLAIN",
            &[0, 0, 0, 0],
            &[5],
            b"en_US"
        ]))
    );
}

#[test]
fn connection_start_ok_fails_in_the_order_of_its_arguments() {
    let long = vec![b'm'; 256];
    let bad = vec![("k".to_string(), FieldValue::Byte(1))];
    assert_eq!(
        encode_connection_start_ok(&bad, &long, b"", b""),
        Err(AmqpError::InvalidTableValue("k".to_string(), "Byte".to_string()))
    );
    assert_eq!(
        encode_connection_start_ok(&no_table(), &long, b"", &vec![b'l'; 400]),
        Err(AmqpError::ShortStringTooLong(256))
    );
    assert_eq!(
        encode_connection_start_ok(&no_table(), b"PLAIN", b"", &vec![b'l'; 400]),
        Err(AmqpError::ShortStringTooLong(400))
    );
}

#[test]
fn connection_secure_ok() {
    assert_eq!(
        encode_connection_secure_ok(b"resp"),
        Ok(concat(&[&[0, 10, 0, 21], &[0, 0, 0, 4], b"resp"]))
    );
}

#[test]
fn connection_tune_ok() {
    assert_eq!(
        encode_connection_tune_ok(2047, 131072, 60),
        Ok(vec![0, 10, 0, 31, 0x07, 0xFF, 0x00, 0x02, 0x00, 0x00, 0x00, 60])
    );
}

#[test]
fn connection_open() {
    assert_eq!(
        encode_connection_open(b"/prod"),
        Ok(concat(&[&[0, 10, 0, 40], &[5], b"/prod", &[0], &[0]]))
    );
    assert_eq!(encode_connection_open(&[0xFF]), Ok(vec![0, 10, 0, 40, 1, b'/', 0, 0]));
    assert_eq!(encode_connection_open(b""), Ok(vec![0, 10, 0, 40, 0, 0, 0]));
}

#[test]
fn connection_close() {
    assert_eq!(
        encode_connection_close(320, b"bye", 10, 50),
        Ok(concat(&[&[0, 10, 0, 50], &[0x01, 0x40], &[3], b"bye", &[0, 10, 0, 50]]))
    );
    assert_eq!(
        encode_connection_close(200, &[0x80], 0, 0),
        Ok(vec![0, 10, 0, 50, 0, 200, 0, 0, 0, 0, 0])
    );
}

#[test]
fn methods_without_arguments() {
    assert_eq!(encode_connection_close_ok(), Ok(vec![0, 10, 0, 51]));
    assert_eq!(encode_connection_unblocked(), Ok(vec![0, 10, 0, 61]));
    assert_eq!(encode_connection_update_secret_ok(), Ok(vec![0, 10, 0, 71]));
    assert_eq!(encode_channel_close_ok(), Ok(vec![0, 20, 0, 41]));
    assert_eq!(encode_tx_select(), Ok(vec![0, 90, 0, 10]));
    assert_eq!(encode_tx_commit(), Ok(vec![0, 90, 0, 20]));
    assert_eq!(encode_tx_rollback(), Ok(vec![0, 90, 0, 30]));
    assert_eq!(encode_confirm_select_ok(), Ok(vec![0, 85, 0, 11]));
}

#[test]
fn connection_blocked_and_update_secret() {
    assert_eq!(
        encode_connection_blocked(b"low memory"),
        Ok(concat(&[&[0, 10, 0, 60], &[10], b"low memory"]))
    );
    assert_eq!(
        encode_connection_update_secret(b"s3cret", b"rotated"),
        Ok(concat(&[&[0, 10, 0, 70], &[0, 0, 0, 6], b"s3cret", &[7], b"rotated"]))
    );
}

#[test]
fn channel_methods() {
    assert_eq!(encode_channel_open(b""), Ok(vec![0, 20, 0, 10, 0]));
    assert_eq!(encode_channel_open(b"oob"), Ok(vec![0, 20, 0, 10, 3, b'o', b'o', b'b']));
    assert_eq!(encode_channel_flow(true), Ok(vec![0, 20, 0, 20, 1]));
    assert_eq!(encode_channel_flow(false), Ok(vec![0, 20, 0, 20, 0]));
    assert_eq!(encode_channel_flow_ok(true), Ok(vec![0, 20, 0, 21, 1]));
    assert_eq!(
        encode_channel_close(404, b"NOT_FOUND", 50, 10),
        Ok(concat(&[&[0, 20, 0, 40], &[0x01, 0x94], &[9], b"NOT_FOUND", &[0, 50, 0, 10]]))
    );
}

#[test]
fn exchange_declare() {
    assert_eq!(
        encode_exchange_declare(b"logs", b"fanout", false, true, false, true, false, &one_entry()),
        Ok(concat(&[
            &[0, 40, 0, 10],
            &[0, 0],
            &[4],
            b"logs",
            &[6],
            b"fanout",
            &[0b0000_1010],
            &ONE_ENTRY
        ]))
    );
    assert_eq!(
        encode_exchange_declare(b"x", &[0xFF], true, false, true, false, true, &no_table()),
        Ok(concat(&[
            &[0, 40, 0, 10],
            &[0, 0],
            &[1],
            b"x",
            &[6],
            b"direct",
            &[0b0001_0101],
            &[0, 0, 0, 0]
        ]))
    );
}

#[test]
fn exchange_delete_bind_unbind() {
    assert_eq!(
        encode_exchange_delete(b"x", false, true),
        Ok(vec![0, 40, 0, 20, 0, 0, 1, b'x', 2])
    );
    assert_eq!(
        encode_exchange_delete(b"x", true, false),
        Ok(vec![0, 40, 0, 20, 0, 0, 1, b'x', 1])
    );
    assert_eq!(
        encode_exchange_bind(b"d", b"s", b"rk", true, &one_entry()),
        Ok(concat(&[&[0, 40, 0, 30, 0, 0, 1, b'd', 1, b's', 2, b'r', b'k', 1], &ONE_ENTRY]))
    );
    assert_eq!(
        encode_exchange_unbind(b"d", b"s", b"rk", false, &no_table()),
        Ok(vec![0, 40, 0, 40, 0, 0, 1, b'd', 1, b's', 2, b'r', b'k', 0, 0, 0, 0, 0])
    );
}

#[test]
fn queue_methods() {
    assert_eq!(
        encode_queue_declare(b"jobs", true, true, true, true, true, &one_entry()),
        Ok(concat(&[&[0, 50, 0, 10, 0, 0, 4], b"jobs", &[0b0001_1111], &ONE_ENTRY]))
    );
    assert_eq!(
        encode_queue_bind(b"q", b"x", b"", true, &no_table()),
        Ok(vec![0, 50, 0, 20, 0, 0, 1, b'q', 1, b'x', 0, 1, 0, 0, 0, 0])
    );
    assert_eq!(
        encode_queue_unbind(b"q", b"x", b"r", &one_entry()),
        Ok(concat(&[&[0, 50, 0, 50, 0, 0, 1, b'q', 1, b'x', 1, b'r'], &ONE_ENTRY]))
    );
    assert_eq!(encode_queue_purge(b"q", true), Ok(vec![0, 50, 0, 30, 0, 0, 1, b'q', 1]));
    assert_eq!(
        encode_queue_delete(b"q", true, false, true),
        Ok(vec![0, 50, 0, 40, 0, 0, 1, b'q', 0b101])
    );
    assert_eq!(
        encode_queue_delete(b"q", false, true, false),
        Ok(vec![0, 50, 0, 40, 0, 0, 1, b'q', 0b010])
    );
}

#[test]
fn queue_declare_refuses_name_of_256_bytes() {
    let name = vec![b'q'; 256];
    assert_eq!(
        encode_queue_declare(&name, false, false, false, false, false, &no_table()),
        Err(AmqpError::ShortStringTooLong(256))
    );
    let name = vec![b'q'; 255];
    assert_eq!(
        encode_queue_declare(&name, false, false, false, false, false, &no_table())
            .unwrap()
            .len(),
        4 + 2 + 256 + 1 + 4
    );
}

#[test]
fn basic_methods() {
    assert_eq!(
        encode_basic_qos(0x01020304, 0x0506, true),
        Ok(vec![0, 60, 0, 10, 1, 2, 3, 4, 5, 6, 1])
    );
    assert_eq!(
        encode_basic_consume(b"q", b"tag", false, true, false, true, &one_entry()),
        Ok(concat(&[
            &[0, 60, 0, 20, 0, 0, 1, b'q', 3, b't', b'a', b'g', 0b1010],
            &ONE_ENTRY
        ]))
    );
    assert_eq!(
        encode_basic_cancel(b"tag", true),
        Ok(vec![0, 60, 0, 30, 3, b't', b'a', b'g', 1])
    );
    assert_eq!(
        encode_basic_publish(b"x", b"rk", true, false),
        Ok(vec![0, 60, 0, 40, 0, 0, 1, b'x', 2, b'r', b'k', 1])
    );
    assert_eq!(
        encode_basic_publish(b"", b"", false, true),
        Ok(vec![0, 60, 0, 40, 0, 0, 0, 0, 2])
    );
    assert_eq!(encode_basic_get(b"q", true), Ok(vec![0, 60, 0, 70, 0, 0, 1, b'q', 1]));
    assert_eq!(
        encode_basic_ack(0x0102030405060708, false),
        Ok(vec![0, 60, 0, 80, 1, 2, 3, 4, 5, 6, 7, 8, 0])
    );
    assert_eq!(
        encode_basic_ack(u64::MAX, true),
        Ok(vec![0, 60, 0, 80, 255, 255, 255, 255, 255, 255, 255, 255, 1])
    );
    assert_eq!(
        encode_basic_reject(7, true),
        Ok(vec![0, 60, 0, 90, 0, 0, 0, 0, 0, 0, 0, 7, 1])
    );
    assert_eq!(
        encode_basic_nack(7, false, true),
        Ok(vec![0, 60, 0, 120, 0, 0, 0, 0, 0, 0, 0, 7, 2])
    );
    assert_eq!(
        encode_basic_nack(7, true, true),
        Ok(vec![0, 60, 0, 120, 0, 0, 0, 0, 0, 0, 0, 7, 3])
    );
    assert_eq!(encode_basic_recover(true), Ok(vec![0, 60, 0, 110, 1]));
    assert_eq!(encode_basic_recover_async(false), Ok(vec![0, 60, 0, 100, 0]));
    assert_eq!(encode_confirm_select(true), Ok(vec![0, 85, 0, 10, 1]));
}

#[test]
fn method_ids_names_and_indices() {
    let table: [(Method, u16, u16, u32, &str, &str); 39] = [
        (Method::ConnectionStartOk, 10, 11, 0x000A000B, "connection.start-ok", "connection"),
        (Method::ConnectionSecureOk, 10, 21, 0x000A0015, "connection.secure-ok", "connection"),
        (Method::ConnectionTuneOk, 10, 31, 0x000A001F, "connection.tune-ok", "connection"),
        (Method::ConnectionOpen, 10, 40, 0x000A0028, "connection.open", "connection"),
        (Method::ConnectionClose, 10, 50, 0x000A0032, "connection.close", "connection"),
        (Method::ConnectionCloseOk, 10, 51, 0x000A0033, "connection.close-ok", "connection"),
        (Method::ConnectionBlocked, 10, 60, 0x000A003C, "connection.blocked", "connection"),
        (Method::ConnectionUnblocked, 10, 61, 0x000A003D, "connection.unblocked", "connection"),
        (
            Method::ConnectionUpdateSecret,
            10,
            70,
            0x000A0046,
            "connection.update-secret",
            "connection",
        ),
        (
            Method::ConnectionUpdateSecretOk,
            10,
            71,
            0x000A0047,
            "connection.update-secret-ok",
            "connection",
        ),
        (Method::ChannelOpen, 20, 10, 0x0014000A, "channel.open", "channel"),
        (Method::ChannelFlow, 20, 20, 0x00140014, "channel.flow", "channel"),
        (Method::ChannelFlowOk, 20, 21, 0x00140015, "channel.flow-ok", "channel"),
        (Method::ChannelClose, 20, 40, 0x00140028, "channel.close", "channel"),
        (Method::ChannelCloseOk, 20, 41, 0x00140029, "channel.close-ok", "channel"),
        (Method::ExchangeDeclare, 40, 10, 0x0028000A, "exchange.declare", "exchange"),
        (Method::ExchangeDelete, 40, 20, 0x00280014, "exchange.delete", "exchange"),
        (Method::ExchangeBind, 40, 30, 0x0028001E, "exchange.bind", "exchange"),
        (Method::ExchangeUnbind, 40, 40, 0x00280028, "exchange.unbind", "exchange"),
        (Method::QueueDeclare, 50, 10, 0x0032000A, "queue.declare", "queue"),
        (Method::QueueBind, 50, 20, 0x00320014, "queue.bind", "queue"),
        (Method::QueueUnbind, 50, 50, 0x00320032, "queue.unbind", "queue"),
        (Method::QueuePurge, 50, 30, 0x0032001E, "queue.purge", "queue"),
        (Method::QueueDelete, 50, 40, 0x00320028, "queue.delete", "queue"),
        (Method::BasicQos, 60, 10, 0x003C000A, "basic.qos", "basic"),
        (Method::BasicConsume, 60, 20, 0x003C0014, "basic.consume", "basic"),
        (Method::BasicCancel, 60, 30, 0x003C001E, "basic.cancel", "basic"),
        (Method::BasicPublish, 60, 40, 0x003C0028, "basic.publish", "basic"),
        (Method::BasicGet, 60, 70, 0x003C0046, "basic.get", "basic"),
        (Method::BasicAck, 60, 80, 0x003C0050, "basic.ack", "basic"),
        (Method::BasicReject, 60, 90, 0x003C005A, "basic.reject", "basic"),
        (Method::BasicRecoverAsync, 60, 100, 0x003C0064, "basic.recover-async", "basic"),
        (Method::BasicRecover, 60, 110, 0x003C006E, "basic.recover", "basic"),
        (Method::BasicNack, 60, 120, 0x003C0078, "basic.nack", "basic"),
        (Method::TxSelect, 90, 10, 0x005A000A, "tx.select", "tx"),
        (Method::TxCommit, 90, 20, 0x005A0014, "tx.commit", "tx"),
        (Method::TxRollback, 90, 30, 0x005A001E, "tx.rollback", "tx"),
        (Method::ConfirmSelect, 85, 10, 0x0055000A, "confirm.select", "confirm"),
        (Method::ConfirmSelectOk, 85, 11, 0x0055000B, "confirm.select-ok", "confirm"),
    ];
    for (method, class_id, method_id, index, name, class_name) in table {
        assert_eq!(method.class_id(), class_id);
        assert_eq!(method.method_id(), method_id);
        assert_eq!(method.index(), index);
        assert_eq!(method.index(), ((class_id as u32) << 16) | method_id as u32);
        assert_eq!(method.name(), name);
        assert_eq!(method.class_name(), class_name);
        let encoded = encode_method(method, &[]).unwrap();
        assert_eq!(encoded, vec![0, class_id as u8, 0, method_id as u8]);
    }
}
