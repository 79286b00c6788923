//! The encoding of outbound methods.
//!
//! A method is its class id and its method id, two bytes each, followed by
//! its arguments in the order that the protocol declares them, each in the
//! form that its kind calls for.

use vstd::prelude::*;
use vstd::utf8::{encode_utf8, valid_utf8};
use crate::error::{bytes_outcome, AmqpError, Failure};
use crate::table::{encode_table_inner, joined, table_bytes, appended};
use crate::text::text_or_default;
use crate::types::{long_string_bytes, short_string_bytes, Encoder};
use crate::value::{entries_view, Entries, FieldValue};
use crate::wire::{be_u16, be_u32, be_u64};

verus! {

/// The methods that this codec encodes.
#[derive(Debug, Clone, Copy, PartialEq, Eq)]
pub enum Method {
    /// `connection.start-ok`
    ConnectionStartOk,
    /// `connection.secure-ok`
    ConnectionSecureOk,
    /// `connection.tune-ok`
    ConnectionTuneOk,
    /// `connection.open`
    ConnectionOpen,
    /// `connection.close`
    ConnectionClose,
    /// `connection.close-ok`
    ConnectionCloseOk,
    /// `connection.blocked`
    ConnectionBlocked,
    /// `connection.unblocked`
    ConnectionUnblocked,
    /// `connection.update-secret`
    ConnectionUpdateSecret,
    /// `connection.update-secret-ok`
    ConnectionUpdateSecretOk,
    /// `channel.open`
    ChannelOpen,
    /// `channel.flow`
    ChannelFlow,
    /// `channel.flow-ok`
    ChannelFlowOk,
    /// `channel.close`
    ChannelClose,
    /// `channel.close-ok`
    ChannelCloseOk,
    /// `exchange.declare`
    ExchangeDeclare,
    /// `exchange.delete`
    ExchangeDelete,
    /// `exchange.bind`
    ExchangeBind,
    /// `exchange.unbind`
    ExchangeUnbind,
    /// `queue.declare`
    QueueDeclare,
    /// `queue.bind`
    QueueBind,
    /// `queue.unbind`
    QueueUnbind,
    /// `queue.purge`
    QueuePurge,
    /// `queue.delete`
    QueueDelete,
    /// `basic.qos`
    BasicQos,
    /// `basic.consume`
    BasicConsume,
    /// `basic.cancel`
    BasicCancel,
    /// `basic.publish`
    BasicPublish,
    /// `basic.get`
    BasicGet,
    /// `basic.ack`
    BasicAck,
    /// `basic.reject`
    BasicReject,
    /// `basic.recover-async`
    BasicRecoverAsync,
    /// `basic.recover`
    BasicRecover,
    /// `basic.nack`
    BasicNack,
    /// `tx.select`
    TxSelect,
    /// `tx.commit`
    TxCommit,
    /// `tx.rollback`
    TxRollback,
    /// `confirm.select`
    ConfirmSelect,
    /// `confirm.select-ok`
    ConfirmSelectOk,
}

impl Method {
    /// The id of the class that the method belongs to.
    pub open spec fn class(self) -> u16 {
        match self {
            Method::ConnectionStartOk => 10,
            Method::ConnectionSecureOk => 10,
            Method::ConnectionTuneOk => 10,
            Method::ConnectionOpen => 10,
            Method::ConnectionClose => 10,
            Method::ConnectionCloseOk => 10,
            Method::ConnectionBlocked => 10,
            Method::ConnectionUnblocked => 10,
            Method::ConnectionUpdateSecret => 10,
            Method::ConnectionUpdateSecretOk => 10,
            Method::ChannelOpen => 20,
            Method::ChannelFlow => 20,
            Method::ChannelFlowOk => 20,
            Method::ChannelClose => 20,
            Method::ChannelCloseOk => 20,
            Method::ExchangeDeclare => 40,
            Method::ExchangeDelete => 40,
            Method::ExchangeBind => 40,
            Method::ExchangeUnbind => 40,
            Method::QueueDeclare => 50,
            Method::QueueBind => 50,
            Method::QueueUnbind => 50,
            Method::QueuePurge => 50,
            Method::QueueDelete => 50,
            Method::BasicQos => 60,
            Method::BasicConsume => 60,
            Method::BasicCancel => 60,
            Method::BasicPublish => 60,
            Method::BasicGet => 60,
            Method::BasicAck => 60,
            Method::BasicReject => 60,
            Method::BasicRecoverAsync => 60,
            Method::BasicRecover => 60,
            Method::BasicNack => 60,
            Method::TxSelect => 90,
            Method::TxCommit => 90,
            Method::TxRollback => 90,
            Method::ConfirmSelect => 85,
            Method::ConfirmSelectOk => 85,
        }
    }

    /// The id of the method inside its class.
    pub open spec fn number(self) -> u16 {
        match self {
            Method::ConnectionStartOk => 11,
            Method::ConnectionSecureOk => 21,
            Method::ConnectionTuneOk => 31,
            Method::ConnectionOpen => 40,
            Method::ConnectionClose => 50,
            Method::ConnectionCloseOk => 51,
            Method::ConnectionBlocked => 60,
            Method::ConnectionUnblocked => 61,
            Method::ConnectionUpdateSecret => 70,
            Method::ConnectionUpdateSecretOk => 71,
            Method::ChannelOpen => 10,
            Method::ChannelFlow => 20,
            Method::ChannelFlowOk => 21,
            Method::ChannelClose => 40,
            Method::ChannelCloseOk => 41,
            Method::ExchangeDeclare => 10,
            Method::ExchangeDelete => 20,
            Method::ExchangeBind => 30,
            Method::ExchangeUnbind => 40,
            Method::QueueDeclare => 10,
            Method::QueueBind => 20,
            Method::QueueUnbind => 50,
            Method::QueuePurge => 30,
            Method::QueueDelete => 40,
            Method::BasicQos => 10,
            Method::BasicConsume => 20,
            Method::BasicCancel => 30,
            Method::BasicPublish => 40,
            Method::BasicGet => 70,
            Method::BasicAck => 80,
            Method::BasicReject => 90,
            Method::BasicRecoverAsync => 100,
            Method::BasicRecover => 110,
            Method::BasicNack => 120,
            Method::TxSelect => 10,
            Method::TxCommit => 20,
            Method::TxRollback => 30,
            Method::ConfirmSelect => 10,
            Method::ConfirmSelectOk => 11,
        }
    }

    /// The name of the method: the name of its class, a dot, and its own
    /// name.
    pub open spec fn label(self) -> Seq<char> {
        match self {
            Method::ConnectionStartOk => "connection.start-ok"@,
            Method::ConnectionSecureOk => "connection.secure-ok"@,
            Method::ConnectionTuneOk => "connection.tune-ok"@,
            Method::ConnectionOpen => "connection.open"@,
            Method::ConnectionClose => "connection.close"@,
            Method::ConnectionCloseOk => "connection.close-ok"@,
            Method::ConnectionBlocked => "connection.blocked"@,
            Method::ConnectionUnblocked => "connection.unblocked"@,
            Method::ConnectionUpdateSecret => "connection.update-secret"@,
            Method::ConnectionUpdateSecretOk => "connection.update-secret-ok"@,
            Method::ChannelOpen => "channel.open"@,
            Method::ChannelFlow => "channel.flow"@,
            Method::ChannelFlowOk => "channel.flow-ok"@,
            Method::ChannelClose => "channel.close"@,
            Method::ChannelCloseOk => "channel.close-ok"@,
            Method::ExchangeDeclare => "exchange.declare"@,
            Method::ExchangeDelete => "exchange.delete"@,
            Method::ExchangeBind => "exchange.bind"@,
            Method::ExchangeUnbind => "exchange.unbind"@,
            Method::QueueDeclare => "queue.declare"@,
            Method::QueueBind => "queue.bind"@,
            Method::QueueUnbind => "queue.unbind"@,
            Method::QueuePurge => "queue.purge"@,
            Method::QueueDelete => "queue.delete"@,
            Method::BasicQos => "basic.qos"@,
            Method::BasicConsume => "basic.consume"@,
            Method::BasicCancel => "basic.cancel"@,
            Method::BasicPublish => "basic.publish"@,
            Method::BasicGet => "basic.get"@,
            Method::BasicAck => "basic.ack"@,
            Method::BasicReject => "basic.reject"@,
            Method::BasicRecoverAsync => "basic.recover-async"@,
            Method::BasicRecover => "basic.recover"@,
            Method::BasicNack => "basic.nack"@,
            Method::TxSelect => "tx.select"@,
            Method::TxCommit => "tx.commit"@,
            Method::TxRollback => "tx.rollback"@,
            Method::ConfirmSelect => "confirm.select"@,
            Method::ConfirmSelectOk => "confirm.select-ok"@,
        }
    }

    /// The name of the class that the method belongs to.
    pub open spec fn class_label(self) -> Seq<char> {
        match self {
            Method::ConnectionStartOk => "connection"@,
            Method::ConnectionSecureOk => "connection"@,
            Method::ConnectionTuneOk => "connection"@,
            Method::ConnectionOpen => "connection"@,
            Method::ConnectionClose => "connection"@,
            Method::ConnectionCloseOk => "connection"@,
            Method::ConnectionBlocked => "connection"@,
            Method::ConnectionUnblocked => "connection"@,
            Method::ConnectionUpdateSecret => "connection"@,
            Method::ConnectionUpdateSecretOk => "connection"@,
            Method::ChannelOpen => "channel"@,
            Method::ChannelFlow => "channel"@,
            Method::ChannelFlowOk => "channel"@,
            Method::ChannelClose => "channel"@,
            Method::ChannelCloseOk => "channel"@,
            Method::ExchangeDeclare => "exchange"@,
            Method::ExchangeDelete => "exchange"@,
            Method::ExchangeBind => "exchange"@,
            Method::ExchangeUnbind => "exchange"@,
            Method::QueueDeclare => "queue"@,
            Method::QueueBind => "queue"@,
            Method::QueueUnbind => "queue"@,
            Method::QueuePurge => "queue"@,
            Method::QueueDelete => "queue"@,
            Method::BasicQos => "basic"@,
            Method::BasicConsume => "basic"@,
            Method::BasicCancel => "basic"@,
            Method::BasicPublish => "basic"@,
            Method::BasicGet => "basic"@,
            Method::BasicAck => "basic"@,
            Method::BasicReject => "basic"@,
            Method::BasicRecoverAsync => "basic"@,
            Method::BasicRecover => "basic"@,
            Method::BasicNack => "basic"@,
            Method::TxSelect => "tx"@,
            Method::TxCommit => "tx"@,
            Method::TxRollback => "tx"@,
            Method::ConfirmSelect => "confirm"@,
            Method::ConfirmSelectOk => "confirm"@,
        }
    }

    /// The index of the method: the class id in the high 16 bits, the
    /// method id in the low 16 bits.
    pub open spec fn wire_index(self) -> u32 {
        (self.class() * 0x1_0000 + self.number()) as u32
    }

    /// The id of the class that the method belongs to.
    pub fn class_id(self) -> (r: u16)
        ensures
            r == self.class(),
    {
        match self {
            Method::ConnectionStartOk => 10,
            Method::ConnectionSecureOk => 10,
            Method::ConnectionTuneOk => 10,
            Method::ConnectionOpen => 10,
            Method::ConnectionClose => 10,
            Method::ConnectionCloseOk => 10,
            Method::ConnectionBlocked => 10,
            Method::ConnectionUnblocked => 10,
            Method::ConnectionUpdateSecret => 10,
            Method::ConnectionUpdateSecretOk => 10,
            Method::ChannelOpen => 20,
            Method::ChannelFlow => 20,
            Method::ChannelFlowOk => 20,
            Method::ChannelClose => 20,
            Method::ChannelCloseOk => 20,
            Method::ExchangeDeclare => 40,
            Method::ExchangeDelete => 40,
            Method::ExchangeBind => 40,
            Method::ExchangeUnbind => 40,
            Method::QueueDeclare => 50,
            Method::QueueBind => 50,
            Method::QueueUnbind => 50,
            Method::QueuePurge => 50,
            Method::QueueDelete => 50,
            Method::BasicQos => 60,
            Method::BasicConsume => 60,
            Method::BasicCancel => 60,
            Method::BasicPublish => 60,
            Method::BasicGet => 60,
            Method::BasicAck => 60,
            Method::BasicReject => 60,
            Method::BasicRecoverAsync => 60,
            Method::BasicRecover => 60,
            Method::BasicNack => 60,
            Method::TxSelect => 90,
            Method::TxCommit => 90,
            Method::TxRollback => 90,
            Method::ConfirmSelect => 85,
            Method::ConfirmSelectOk => 85,
        }
    }

    /// The id of the method inside its class.
    pub fn method_id(self) -> (r: u16)
        ensures
            r == self.number(),
    {
        match self {
            Method::ConnectionStartOk => 11,
            Method::ConnectionSecureOk => 21,
            Method::ConnectionTuneOk => 31,
            Method::ConnectionOpen => 40,
            Method::ConnectionClose => 50,
            Method::ConnectionCloseOk => 51,
            Method::ConnectionBlocked => 60,
            Method::ConnectionUnblocked => 61,
            Method::ConnectionUpdateSecret => 70,
            Method::ConnectionUpdateSecretOk => 71,
            Method::ChannelOpen => 10,
            Method::ChannelFlow => 20,
            Method::ChannelFlowOk => 21,
            Method::ChannelClose => 40,
            Method::ChannelCloseOk => 41,
            Method::ExchangeDeclare => 10,
            Method::ExchangeDelete => 20,
            Method::ExchangeBind => 30,
            Method::ExchangeUnbind => 40,
            Method::QueueDeclare => 10,
            Method::QueueBind => 20,
            Method::QueueUnbind => 50,
            Method::QueuePurge => 30,
            Method::QueueDelete => 40,
            Method::BasicQos => 10,
            Method::BasicConsume => 20,
            Method::BasicCancel => 30,
            Method::BasicPublish => 40,
            Method::BasicGet => 70,
            Method::BasicAck => 80,
            Method::BasicReject => 90,
            Method::BasicRecoverAsync => 100,
            Method::BasicRecover => 110,
            Method::BasicNack => 120,
            Method::TxSelect => 10,
            Method::TxCommit => 20,
            Method::TxRollback => 30,
            Method::ConfirmSelect => 10,
            Method::ConfirmSelectOk => 11,
        }
    }

    /// The name of the method.
    pub fn name(self) -> (r: &'static str)
        ensures
            r@ == self.label(),
    {
        match self {
            Method::ConnectionStartOk => "connection.start-ok",
            Method::ConnectionSecureOk => "connection.secure-ok",
            Method::ConnectionTuneOk => "connection.tune-ok",
            Method::ConnectionOpen => "connection.open",
            Method::ConnectionClose => "connection.close",
            Method::ConnectionCloseOk => "connection.close-ok",
            Method::ConnectionBlocked => "connection.blocked",
            Method::ConnectionUnblocked => "connection.unblocked",
            Method::ConnectionUpdateSecret => "connection.update-secret",
            Method::ConnectionUpdateSecretOk => "connection.update-secret-ok",
            Method::ChannelOpen => "channel.open",
            Method::ChannelFlow => "channel.flow",
            Method::ChannelFlowOk => "channel.flow-ok",
            Method::ChannelClose => "channel.close",
            Method::ChannelCloseOk => "channel.close-ok",
            Method::ExchangeDeclare => "exchange.declare",
            Method::ExchangeDelete => "exchange.delete",
            Method::ExchangeBind => "exchange.bind",
            Method::ExchangeUnbind => "exchange.unbind",
            Method::QueueDeclare => "queue.declare",
            Method::QueueBind => "queue.bind",
            Method::QueueUnbind => "queue.unbind",
            Method::QueuePurge => "queue.purge",
            Method::QueueDelete => "queue.delete",
            Method::BasicQos => "basic.qos",
            Method::BasicConsume => "basic.consume",
            Method::BasicCancel => "basic.cancel",
            Method::BasicPublish => "basic.publish",
            Method::BasicGet => "basic.get",
            Method::BasicAck => "basic.ack",
            Method::BasicReject => "basic.reject",
            Method::BasicRecoverAsync => "basic.recover-async",
            Method::BasicRecover => "basic.recover",
            Method::BasicNack => "basic.nack",
            Method::TxSelect => "tx.select",
            Method::TxCommit => "tx.commit",
            Method::TxRollback => "tx.rollback",
            Method::ConfirmSelect => "confirm.select",
            Method::ConfirmSelectOk => "confirm.select-ok",
        }
    }

    /// The name of the class that the method belongs to.
    pub fn class_name(self) -> (r: &'static str)
        ensures
            r@ == self.class_label(),
    {
        match self {
            Method::ConnectionStartOk => "connection",
            Method::ConnectionSecureOk => "connection",
            Method::ConnectionTuneOk => "connection",
            Method::ConnectionOpen => "connection",
            Method::ConnectionClose => "connection",
            Method::ConnectionCloseOk => "connection",
            Method::ConnectionBlocked => "connection",
            Method::ConnectionUnblocked => "connection",
            Method::ConnectionUpdateSecret => "connection",
            Method::ConnectionUpdateSecretOk => "connection",
            Method::ChannelOpen => "channel",
            Method::ChannelFlow => "channel",
            Method::ChannelFlowOk => "channel",
            Method::ChannelClose => "channel",
            Method::ChannelCloseOk => "channel",
            Method::ExchangeDeclare => "exchange",
            Method::ExchangeDelete => "exchange",
            Method::ExchangeBind => "exchange",
            Method::ExchangeUnbind => "exchange",
            Method::QueueDeclare => "queue",
            Method::QueueBind => "queue",
            Method::QueueUnbind => "queue",
            Method::QueuePurge => "queue",
            Method::QueueDelete => "queue",
            Method::BasicQos => "basic",
            Method::BasicConsume => "basic",
            Method::BasicCancel => "basic",
            Method::BasicPublish => "basic",
            Method::BasicGet => "basic",
            Method::BasicAck => "basic",
            Method::BasicReject => "basic",
            Method::BasicRecoverAsync => "basic",
            Method::BasicRecover => "basic",
            Method::BasicNack => "basic",
            Method::TxSelect => "tx",
            Method::TxCommit => "tx",
            Method::TxRollback => "tx",
            Method::ConfirmSelect => "confirm",
            Method::ConfirmSelectOk => "confirm",
        }
    }

    /// The index of the method: the class id in the high 16 bits, the
    /// method id in the low 16 bits.
    pub fn index(self) -> (r: u32)
        ensures
            r == self.wire_index(),
            r == self.class() * 0x1_0000 + self.number(),
    {
        self.class_id() as u32 * 0x1_0000 + self.method_id() as u32
    }
}

/// One argument of a method, with the kind that decides its wire form.
pub enum Argument<'a> {
    /// One byte.
    Octet(u8),
    /// Two bytes, big-endian.
    Short(u16),
    /// Four bytes, big-endian.
    Long(u32),
    /// Eight bytes, big-endian.
    LongLong(u64),
    /// Up to eight boolean flags packed into one byte, the first flag in
    /// the lowest bit.
    Flags(&'a [bool]),
    /// A short string given as bytes, and a fallback text: where the bytes
    /// are not UTF-8 the fallback is sent in their place.
    ShortText(&'a [u8], &'a str),
    /// A long string of arbitrary bytes.
    LongBytes(&'a [u8]),
    /// A field table.
    Table(&'a Vec<(String, FieldValue)>),
}

/// The model of an [`Argument`].
pub enum Slot {
    Octet(u8),
    Short(u16),
    Long(u32),
    LongLong(u64),
    Flags(Seq<bool>),
    ShortText(Seq<u8>, Seq<char>),
    LongBytes(Seq<u8>),
    Table(Entries),
}

impl<'a> View for Argument<'a> {
    type V = Slot;

    open spec fn view(&self) -> Slot {
        match self {
            Argument::Octet(v) => Slot::Octet(*v),
            Argument::Short(v) => Slot::Short(*v),
            Argument::Long(v) => Slot::Long(*v),
            Argument::LongLong(v) => Slot::LongLong(*v),
            Argument::Flags(flags) => Slot::Flags(flags@),
            Argument::ShortText(bytes, fallback) => Slot::ShortText(bytes@, fallback@),
            Argument::LongBytes(bytes) => Slot::LongBytes(bytes@),
            Argument::Table(pairs) => Slot::Table(entries_view(pairs@)),
        }
    }
}

/// The models of a list of arguments.
pub open spec fn slots_view(arguments: Seq<Argument>) -> Seq<Slot> {
    Seq::new(arguments.len(), |i: int| arguments[i]@)
}

/// The weight of the bit at `position`: 1, 2, 4 and so on.
pub open spec fn bit_weight(position: nat) -> nat
    decreases position,
{
    if position == 0 {
        1
    } else {
        2 * bit_weight((position - 1) as nat)
    }
}

/// The number made of the first `n` flags, the first flag in the lowest
/// bit.
pub open spec fn flags_value(flags: Seq<bool>, n: nat) -> nat
    decreases n,
{
    if n == 0 {
        0
    } else {
        flags_value(flags, (n - 1) as nat) + if flags[n - 1] {
            bit_weight((n - 1) as nat)
        } else {
            0
        }
    }
}

/// The byte that packs a group of flags: bit 0 is the first flag, the bits
/// of flags that are not there are 0. A byte holds eight flags: what
/// follows the eighth is left out.
pub open spec fn flags_byte(flags: Seq<bool>) -> u8 {
    flags_value(
        flags,
        if flags.len() <= 8 {
            flags.len()
        } else {
            8
        },
    ) as u8
}

/// The bytes that a short text argument sends: the given bytes where they
/// are UTF-8, the bytes of the fallback where they are not.
pub open spec fn short_text_content(bytes: Seq<u8>, fallback: Seq<char>) -> Seq<u8> {
    if valid_utf8(bytes) {
        bytes
    } else {
        encode_utf8(fallback)
    }
}

/// The wire form of one argument.
pub open spec fn slot_bytes(slot: Slot) -> Result<Seq<u8>, Failure> {
    match slot {
        Slot::Octet(v) => Ok(seq![v]),
        Slot::Short(v) => Ok(be_u16(v)),
        Slot::Long(v) => Ok(be_u32(v)),
        Slot::LongLong(v) => Ok(be_u64(v)),
        Slot::Flags(flags) => Ok(seq![flags_byte(flags)]),
        Slot::ShortText(bytes, fallback) => {
            let content = short_text_content(bytes, fallback);
            if content.len() > 255 {
                Err(Failure::ShortStringTooLong(content.len()))
            } else {
                Ok(short_string_bytes(content))
            }
        },
        Slot::LongBytes(bytes) => Ok(long_string_bytes(bytes)),
        Slot::Table(pairs) => table_bytes(pairs),
    }
}

/// The wire form of the first `n` arguments, one after the other, or the
/// failure of the first argument that has none.
pub open spec fn slots_bytes(slots: Seq<Slot>, n: nat) -> Result<Seq<u8>, Failure>
    decreases n,
{
    if n == 0 || n > slots.len() {
        Ok(Seq::empty())
    } else {
        joined(slots_bytes(slots, (n - 1) as nat), slot_bytes(slots[n - 1]))
    }
}

/// The four bytes in front of every method: class id, then method id.
pub open spec fn method_header_bytes(class_id: u16, method_id: u16) -> Seq<u8> {
    be_u16(class_id) + be_u16(method_id)
}

/// The wire form of a method: its header, then its arguments in order.
pub open spec fn method_bytes(method: Method, slots: Seq<Slot>) -> Result<Seq<u8>, Failure> {
    joined(
        Ok(method_header_bytes(method.class(), method.number())),
        slots_bytes(slots, slots.len()),
    )
}

/// The ticket that several methods carry in front of their arguments: a
/// reserved field that is always zero.
pub open spec fn ticket() -> Slot {
    Slot::Short(0)
}

/// Once an argument has failed, so has every longer run of arguments.
pub proof fn lemma_slots_failure_stays(slots: Seq<Slot>, k: nat, n: nat)
    requires
        k <= n <= slots.len(),
        slots_bytes(slots, k).is_err(),
    ensures
        slots_bytes(slots, n) == slots_bytes(slots, k),
    decreases n - k,
{
    if k < n {
        lemma_slots_failure_stays(slots, k, (n - 1) as nat);
    }
}

/// The number made of up to eight flags fits a byte.
pub proof fn lemma_flags_value_bound(flags: Seq<bool>, n: nat)
    requires
        n <= 8,
    ensures
        flags_value(flags, n) < bit_weight(n),
        bit_weight(n) <= 256,
    decreases n,
{
    reveal_with_fuel(bit_weight, 9);
    if n > 0 {
        lemma_flags_value_bound(flags, (n - 1) as nat);
    }
}

/// The weight of a bit is positive.
pub proof fn lemma_bit_weight_positive(i: nat)
    ensures
        bit_weight(i) > 0,
    decreases i,
{
    if i > 0 {
        lemma_bit_weight_positive((i - 1) as nat);
    }
}

/// The weight of a bit is the product of the weights of two positions that
/// add up to its own.
pub proof fn lemma_bit_weight_product(i: nat, k: nat)
    ensures
        bit_weight(i + k) == bit_weight(i) * bit_weight(k),
        bit_weight(i) > 0,
    decreases k,
{
    lemma_bit_weight_positive(i);
    if k > 0 {
        lemma_bit_weight_product(i, (k - 1) as nat);
        let a = bit_weight(i);
        let b = bit_weight((k - 1) as nat);
        assert(bit_weight(i + k) == 2 * bit_weight((i + k - 1) as nat));
        assert(2 * (a * b) == a * (2 * b)) by (nonlinear_arith);
    } else {
        assert(bit_weight(i) * 1 == bit_weight(i)) by (nonlinear_arith);
    }
}

/// Each flag stands in its own bit: of up to eight flags, the bit at the
/// position of a flag is 1 where the flag is set and 0 where it is not, the
/// first flag in bit 0.
pub proof fn lemma_flag_bit(flags: Seq<bool>, n: nat, i: nat)
    requires
        i < n <= 8,
    ensures
        (flags_value(flags, n) / bit_weight(i)) % 2 == (if flags[i as int] {
            1nat
        } else {
            0nat
        }),
    decreases n,
{
    lemma_flags_value_bound(flags, (n - 1) as nat);
    let lower = flags_value(flags, (n - 1) as nat);
    let weight = bit_weight((n - 1) as nat);
    if i + 1 < n {
        lemma_flag_bit(flags, (n - 1) as nat, i);
        let small = bit_weight(i);
        let half = bit_weight((n - 2 - i) as nat);
        lemma_bit_weight_product(i, (n - 1 - i) as nat);
        assert(bit_weight((n - 1 - i) as nat) == 2 * half);
        if flags[n - 1] {
            assert(weight == small * (2 * half));
            assert((lower + small * (2 * half)) / small == lower / small + 2 * half)
                by (nonlinear_arith)
                requires
                    small > 0,
                    lower >= 0,
                    half >= 0,
            ;
        }
    } else {
        lemma_bit_weight_product((n - 1) as nat, 0);
        if flags[n - 1] {
            assert((lower + weight) / weight == 1) by (nonlinear_arith)
                requires
                    0 <= lower < weight,
            ;
        } else {
            assert(lower / weight == 0) by (nonlinear_arith)
                requires
                    0 <= lower < weight,
            ;
        }
    }
}

/// Appends the header of a method: class id, then method id.
pub fn write_method_header(encoder: &mut Encoder, class_id: u16, method_id: u16)
    ensures
        final(encoder)@ == old(encoder)@ + method_header_bytes(class_id, method_id),
{
    encoder.write_u16(class_id);
    encoder.write_u16(method_id);
    assert(encoder@ =~= old(encoder)@ + method_header_bytes(class_id, method_id));
}

/// The eight bytes of `v`, most significant first.
pub fn pack_u64_be(v: u64) -> (bytes: [u8; 8])
    ensures
        bytes@ == be_u64(v),
{
    let high = (v / 0x1_0000_0000) as u32;
    let low = (v % 0x1_0000_0000) as u32;
    let bytes = [
        (high / 0x100_0000) as u8,
        (high / 0x1_0000 % 0x100) as u8,
        (high / 0x100 % 0x100) as u8,
        (high % 0x100) as u8,
        (low / 0x100_0000) as u8,
        (low / 0x1_0000 % 0x100) as u8,
        (low / 0x100 % 0x100) as u8,
        (low % 0x100) as u8,
    ];
    assert(bytes@ =~= be_u64(v));
    bytes
}

/// Packs a group of flags into one byte, the first flag in the lowest
/// bit. A byte holds eight flags: what follows the eighth is left out.
pub fn pack_flags(flags: &[bool]) -> (byte: u8)
    ensures
        byte == flags_byte(flags@),
        forall|i: int|
            0 <= i < flags@.len() && i < 8 ==> (byte as nat / #[trigger] bit_weight(i as nat)) % 2
                == (if flags@[i] {
                1nat
            } else {
                0nat
            }),
{
    let count: usize = if flags.len() <= 8 {
        flags.len()
    } else {
        8
    };
    let mut byte: u8 = 0;
    let mut weight: u16 = 1;
    let mut i: usize = 0;
    while i < count
        invariant
            i <= count <= 8,
            count <= flags@.len(),
            weight == bit_weight(i as nat),
            byte == flags_value(flags@, i as nat),
        decreases count - i,
    {
        proof {
            lemma_flags_value_bound(flags@, i as nat);
            lemma_flags_value_bound(flags@, (i + 1) as nat);
        }
        if flags[i] {
            byte = byte + weight as u8;
        }
        weight = weight * 2;
        i += 1;
    }
    proof {
        assert forall|k: int| 0 <= k < flags@.len() && k < 8 implies (byte as nat
            / #[trigger] bit_weight(k as nat)) % 2 == (if flags@[k] {
            1nat
        } else {
            0nat
        }) by {
            lemma_flag_bit(flags@, count as nat, k as nat);
        }
    }
    byte
}

/// Appends the wire form of one argument.
pub fn encode_argument(argument: &Argument, encoder: &mut Encoder) -> (r: Result<(), AmqpError>)
    ensures
        appended(old(encoder)@, final(encoder)@, r, slot_bytes(argument@)),
        r.is_err() ==> final(encoder)@ == old(encoder)@,
{
    match argument {
        Argument::Octet(v) => {
            encoder.write_u8(*v);
            assert(encoder@ =~= old(encoder)@ + seq![*v]);
            Ok(())
        },
        Argument::Short(v) => {
            encoder.write_u16(*v);
            Ok(())
        },
        Argument::Long(v) => {
            encoder.write_u32(*v);
            Ok(())
        },
        Argument::LongLong(v) => {
            let bytes = pack_u64_be(*v);
            encoder.write_bytes(bytes.as_slice());
            Ok(())
        },
        Argument::Flags(flags) => {
            let byte = pack_flags(flags);
            encoder.write_u8(byte);
            assert(encoder@ =~= old(encoder)@ + seq![byte]);
            Ok(())
        },
        Argument::ShortText(bytes, fallback) => {
            let text = text_or_default(bytes, fallback);
            encoder.write_short_string(text)
        },
        Argument::LongBytes(bytes) => {
            encoder.write_long_string(bytes);
            Ok(())
        },
        Argument::Table(pairs) => encode_table_inner(pairs, encoder),
    }
}

/// Encodes a method: the header, then the arguments in the order given.
/// The first argument that cannot be encoded fails the whole.
pub fn encode_method(method: Method, arguments: &[Argument]) -> (r: Result<Vec<u8>, AmqpError>)
    ensures
        bytes_outcome(r) == method_bytes(method, slots_view(arguments@)),
{
    let ghost slots = slots_view(arguments@);
    let mut encoder = Encoder::new();
    write_method_header(&mut encoder, method.class_id(), method.method_id());
    let ghost header = encoder@;
    let mut i: usize = 0;
    while i < arguments.len()
        invariant
            i <= arguments.len(),
            slots == slots_view(arguments@),
            header == method_header_bytes(method.class(), method.number()),
            slots_bytes(slots, i as nat).is_ok(),
            encoder@ == header + slots_bytes(slots, i as nat)->Ok_0,
        decreases arguments.len() - i,
    {
        let ghost before = encoder@;
        assert(slots[i as int] == arguments[i as int]@);
        match encode_argument(&arguments[i], &mut encoder) {
            Ok(()) => {},
            Err(error) => {
                proof {
                    lemma_slots_failure_stays(slots, (i + 1) as nat, arguments.len() as nat);
                }
                return Err(error);
            },
        }
        assert(encoder@ =~= header + slots_bytes(slots, (i + 1) as nat)->Ok_0);
        i += 1;
    }
    Ok(encoder.into_vec())
}

/// Encodes `connection.start-ok`: the client properties as a field table;
/// the mechanism as a short string, `PLAIN` where it is not UTF-8; the
/// response as a long string; the locale as a short string, `en_US` where
/// it is not UTF-8.
pub fn encode_connection_start_ok(
    client_properties: &Vec<(String, FieldValue)>,
    mechanism: &[u8],
    response: &[u8],
    locale: &[u8],
) -> (r: Result<Vec<u8>, AmqpError>)
    ensures
        bytes_outcome(r) == method_bytes(
            Method::ConnectionStartOk,
            seq![
                Slot::Table(entries_view(client_properties@)),
                Slot::ShortText(mechanism@, "PLAIN"@),
                Slot::LongBytes(response@),
                Slot::ShortText(locale@, "en_US"@),
            ],
        ),
{
    let list = [
        Argument::Table(client_properties),
        Argument::ShortText(mechanism, "PLAIN"),
        Argument::LongBytes(response),
        Argument::ShortText(locale, "en_US"),
    ];
    assert(slots_view(list@) =~= seq![
        Slot::Table(entries_view(client_properties@)),
        Slot::ShortText(mechanism@, "PLAIN"@),
        Slot::LongBytes(response@),
        Slot::ShortText(locale@, "en_US"@),
    ]);
    encode_method(Method::ConnectionStartOk, list.as_slice())
}

/// Encodes `connection.secure-ok`: the response as a long string.
pub fn encode_connection_secure_ok(response: &[u8]) -> (r: Result<Vec<u8>, AmqpError>)
    ensures
        bytes_outcome(r) == method_bytes(
            Method::ConnectionSecureOk,
            seq![Slot::LongBytes(response@)],
        ),
{
    let list = [Argument::LongBytes(response)];
    assert(slots_view(list@) =~= seq![Slot::LongBytes(response@)]);
    encode_method(Method::ConnectionSecureOk, list.as_slice())
}

/// Encodes `connection.tune-ok`: the channel max in two bytes; the frame
/// max in four bytes; the heartbeat in two bytes.
pub fn encode_connection_tune_ok(
    channel_max: u16,
    frame_max: u32,
    heartbeat: u16,
) -> (r: Result<Vec<u8>, AmqpError>)
    ensures
        bytes_outcome(r) == method_bytes(
            Method::ConnectionTuneOk,
            seq![
                Slot::Short(channel_max),
                Slot::Long(frame_max),
                Slot::Short(heartbeat),
            ],
        ),
{
    let list = [
        Argument::Short(channel_max),
        Argument::Long(frame_max),
        Argument::Short(heartbeat),
    ];
    assert(slots_view(list@) =~= seq![
        Slot::Short(channel_max),
        Slot::Long(frame_max),
        Slot::Short(heartbeat),
    ]);
    encode_method(Method::ConnectionTuneOk, list.as_slice())
}

/// Encodes `connection.open`: the virtual host as a short string, `/` where
/// it is not UTF-8; an empty reserved short string; a reserved zero byte.
pub fn encode_connection_open(virtual_host: &[u8]) -> (r: Result<Vec<u8>, AmqpError>)
    ensures
        bytes_outcome(r) == method_bytes(
            Method::ConnectionOpen,
            seq![
                Slot::ShortText(virtual_host@, "/"@),
                Slot::ShortText(Seq::empty(), ""@),
                Slot::Octet(0),
            ],
        ),
{
    let none: [u8; 0] = [];
    let list = [
        Argument::ShortText(virtual_host, "/"),
        Argument::ShortText(none.as_slice(), ""),
        Argument::Octet(0),
    ];
    assert(none@ =~= Seq::<u8>::empty());
    assert(slots_view(list@) =~= seq![
        Slot::ShortText(virtual_host@, "/"@),
        Slot::ShortText(Seq::empty(), ""@),
        Slot::Octet(0),
    ]);
    encode_method(Method::ConnectionOpen, list.as_slice())
}

/// Encodes `connection.close`: the reply code in two bytes; the reply text
/// as a short string; the class id in two bytes; the method id in two
/// bytes.
pub fn encode_connection_close(
    reply_code: u16,
    reply_text: &[u8],
    class_id: u16,
    method_id: u16,
) -> (r: Result<Vec<u8>, AmqpError>)
    ensures
        bytes_outcome(r) == method_bytes(
            Method::ConnectionClose,
            seq![
                Slot::Short(reply_code),
                Slot::ShortText(reply_text@, ""@),
                Slot::Short(class_id),
                Slot::Short(method_id),
            ],
        ),
{
    let list = [
        Argument::Short(reply_code),
        Argument::ShortText(reply_text, ""),
        Argument::Short(class_id),
        Argument::Short(method_id),
    ];
    assert(slots_view(list@) =~= seq![
        Slot::Short(reply_code),
        Slot::ShortText(reply_text@, ""@),
        Slot::Short(class_id),
        Slot::Short(method_id),
    ]);
    encode_method(Method::ConnectionClose, list.as_slice())
}

/// Encodes `connection.close-ok`, which has no arguments.
pub fn encode_connection_close_ok() -> (r: Result<Vec<u8>, AmqpError>)
    ensures
        bytes_outcome(r) == method_bytes(
            Method::ConnectionCloseOk,
            Seq::empty(),
        ),
{
    let list: [Argument; 0] = [];
    assert(slots_view(list@) =~= Seq::<Slot>::empty());
    encode_method(Method::ConnectionCloseOk, list.as_slice())
}

/// Encodes `connection.blocked`: the reason as a short string.
pub fn encode_connection_blocked(reason: &[u8]) -> (r: Result<Vec<u8>, AmqpError>)
    ensures
        bytes_outcome(r) == method_bytes(
            Method::ConnectionBlocked,
            seq![Slot::ShortText(reason@, ""@)],
        ),
{
    let list = [Argument::ShortText(reason, "")];
    assert(slots_view(list@) =~= seq![Slot::ShortText(reason@, ""@)]);
    encode_method(Method::ConnectionBlocked, list.as_slice())
}

/// Encodes `connection.unblocked`, which has no arguments.
pub fn encode_connection_unblocked() -> (r: Result<Vec<u8>, AmqpError>)
    ensures
        bytes_outcome(r) == method_bytes(
            Method::ConnectionUnblocked,
            Seq::empty(),
        ),
{
    let list: [Argument; 0] = [];
    assert(slots_view(list@) =~= Seq::<Slot>::empty());
    encode_method(Method::ConnectionUnblocked, list.as_slice())
}

/// Encodes `connection.update-secret`: the new secret as a long string; the
/// reason as a short string.
pub fn encode_connection_update_secret(
    new_secret: &[u8],
    reason: &[u8],
) -> (r: Result<Vec<u8>, AmqpError>)
    ensures
        bytes_outcome(r) == method_bytes(
            Method::ConnectionUpdateSecret,
            seq![
                Slot::LongBytes(new_secret@),
                Slot::ShortText(reason@, ""@),
            ],
        ),
{
    let list = [
        Argument::LongBytes(new_secret),
        Argument::ShortText(reason, ""),
    ];
    assert(slots_view(list@) =~= seq![
        Slot::LongBytes(new_secret@),
        Slot::ShortText(reason@, ""@),
    ]);
    encode_method(Method::ConnectionUpdateSecret, list.as_slice())
}

/// Encodes `connection.update-secret-ok`, which has no arguments.
pub fn encode_connection_update_secret_ok() -> (r: Result<Vec<u8>, AmqpError>)
    ensures
        bytes_outcome(r) == method_bytes(
            Method::ConnectionUpdateSecretOk,
            Seq::empty(),
        ),
{
    let list: [Argument; 0] = [];
    assert(slots_view(list@) =~= Seq::<Slot>::empty());
    encode_method(Method::ConnectionUpdateSecretOk, list.as_slice())
}

/// Encodes `channel.open`: the out of band as a short string.
pub fn encode_channel_open(out_of_band: &[u8]) -> (r: Result<Vec<u8>, AmqpError>)
    ensures
        bytes_outcome(r) == method_bytes(
            Method::ChannelOpen,
            seq![Slot::ShortText(out_of_band@, ""@)],
        ),
{
    let list = [Argument::ShortText(out_of_band, "")];
    assert(slots_view(list@) =~= seq![Slot::ShortText(out_of_band@, ""@)]);
    encode_method(Method::ChannelOpen, list.as_slice())
}

/// Encodes `channel.flow`: the flag active in one byte.
pub fn encode_channel_flow(active: bool) -> (r: Result<Vec<u8>, AmqpError>)
    ensures
        bytes_outcome(r) == method_bytes(
            Method::ChannelFlow,
            seq![Slot::Flags(seq![active])],
        ),
{
    let flags = [active];
    let list = [Argument::Flags(flags.as_slice())];
    assert(flags@ =~= seq![active]);
    assert(slots_view(list@) =~= seq![Slot::Flags(seq![active])]);
    encode_method(Method::ChannelFlow, list.as_slice())
}

/// Encodes `channel.flow-ok`: the flag active in one byte.
pub fn encode_channel_flow_ok(active: bool) -> (r: Result<Vec<u8>, AmqpError>)
    ensures
        bytes_outcome(r) == method_bytes(
            Method::ChannelFlowOk,
            seq![Slot::Flags(seq![active])],
        ),
{
    let flags = [active];
    let list = [Argument::Flags(flags.as_slice())];
    assert(flags@ =~= seq![active]);
    assert(slots_view(list@) =~= seq![Slot::Flags(seq![active])]);
    encode_method(Method::ChannelFlowOk, list.as_slice())
}

/// Encodes `channel.close`: the reply code in two bytes; the reply text as
/// a short string; the class id in two bytes; the method id in two bytes.
pub fn encode_channel_close(
    reply_code: u16,
    reply_text: &[u8],
    class_id: u16,
    method_id: u16,
) -> (r: Result<Vec<u8>, AmqpError>)
    ensures
        bytes_outcome(r) == method_bytes(
            Method::ChannelClose,
            seq![
                Slot::Short(reply_code),
                Slot::ShortText(reply_text@, ""@),
                Slot::Short(class_id),
                Slot::Short(method_id),
            ],
        ),
{
    let list = [
        Argument::Short(reply_code),
        Argument::ShortText(reply_text, ""),
        Argument::Short(class_id),
        Argument::Short(method_id),
    ];
    assert(slots_view(list@) =~= seq![
        Slot::Short(reply_code),
        Slot::ShortText(reply_text@, ""@),
        Slot::Short(class_id),
        Slot::Short(method_id),
    ]);
    encode_method(Method::ChannelClose, list.as_slice())
}

/// Encodes `channel.close-ok`, which has no arguments.
pub fn encode_channel_close_ok() -> (r: Result<Vec<u8>, AmqpError>)
    ensures
        bytes_outcome(r) == method_bytes(
            Method::ChannelCloseOk,
            Seq::empty(),
        ),
{
    let list: [Argument; 0] = [];
    assert(slots_view(list@) =~= Seq::<Slot>::empty());
    encode_method(Method::ChannelCloseOk, list.as_slice())
}

/// Encodes `exchange.declare`: the reserved ticket; the exchange as a short
/// string; the exchange type as a short string, `direct` where it is not
/// UTF-8; the flags passive, durable, auto delete, internal and nowait in
/// one byte, in that order from bit 0; the arguments as a field table.
pub fn encode_exchange_declare(
    exchange: &[u8],
    exchange_type: &[u8],
    passive: bool,
    durable: bool,
    auto_delete: bool,
    internal: bool,
    nowait: bool,
    arguments: &Vec<(String, FieldValue)>,
) -> (r: Result<Vec<u8>, AmqpError>)
    ensures
        bytes_outcome(r) == method_bytes(
            Method::ExchangeDeclare,
            seq![
                ticket(),
                Slot::ShortText(exchange@, ""@),
                Slot::ShortText(exchange_type@, "direct"@),
                Slot::Flags(seq![passive, durable, auto_delete, internal, nowait]),
                Slot::Table(entries_view(arguments@)),
            ],
        ),
{
    let flags = [passive, durable, auto_delete, internal, nowait];
    let list = [
        Argument::Short(0),
        Argument::ShortText(exchange, ""),
        Argument::ShortText(exchange_type, "direct"),
        Argument::Flags(flags.as_slice()),
        Argument::Table(arguments),
    ];
    assert(flags@ =~= seq![passive, durable, auto_delete, internal, nowait]);
    assert(slots_view(list@) =~= seq![
        ticket(),
        Slot::ShortText(exchange@, ""@),
        Slot::ShortText(exchange_type@, "direct"@),
        Slot::Flags(seq![passive, durable, auto_delete, internal, nowait]),
        Slot::Table(entries_view(arguments@)),
    ]);
    encode_method(Method::ExchangeDeclare, list.as_slice())
}

/// Encodes `exchange.delete`: the reserved ticket; the exchange as a short
/// string; the flags if unused and nowait in one byte, in that order from
/// bit 0.
pub fn encode_exchange_delete(
    exchange: &[u8],
    if_unused: bool,
    nowait: bool,
) -> (r: Result<Vec<u8>, AmqpError>)
    ensures
        bytes_outcome(r) == method_bytes(
            Method::ExchangeDelete,
            seq![
                ticket(),
                Slot::ShortText(exchange@, ""@),
                Slot::Flags(seq![if_unused, nowait]),
            ],
        ),
{
    let flags = [if_unused, nowait];
    let list = [
        Argument::Short(0),
        Argument::ShortText(exchange, ""),
        Argument::Flags(flags.as_slice()),
    ];
    assert(flags@ =~= seq![if_unused, nowait]);
    assert(slots_view(list@) =~= seq![
        ticket(),
        Slot::ShortText(exchange@, ""@),
        Slot::Flags(seq![if_unused, nowait]),
    ]);
    encode_method(Method::ExchangeDelete, list.as_slice())
}

/// Encodes `exchange.bind`: the reserved ticket; the destination as a short
/// string; the source as a short string; the routing key as a short string;
/// the flag nowait in one byte; the arguments as a field table.
pub fn encode_exchange_bind(
    destination: &[u8],
    source: &[u8],
    routing_key: &[u8],
    nowait: bool,
    arguments: &Vec<(String, FieldValue)>,
) -> (r: Result<Vec<u8>, AmqpError>)
    ensures
        bytes_outcome(r) == method_bytes(
            Method::ExchangeBind,
            seq![
                ticket(),
                Slot::ShortText(destination@, ""@),
                Slot::ShortText(source@, ""@),
                Slot::ShortText(routing_key@, ""@),
                Slot::Flags(seq![nowait]),
                Slot::Table(entries_view(arguments@)),
            ],
        ),
{
    let flags = [nowait];
    let list = [
        Argument::Short(0),
        Argument::ShortText(destination, ""),
        Argument::ShortText(source, ""),
        Argument::ShortText(routing_key, ""),
        Argument::Flags(flags.as_slice()),
        Argument::Table(arguments),
    ];
    assert(flags@ =~= seq![nowait]);
    assert(slots_view(list@) =~= seq![
        ticket(),
        Slot::ShortText(destination@, ""@),
        Slot::ShortText(source@, ""@),
        Slot::ShortText(routing_key@, ""@),
        Slot::Flags(seq![nowait]),
        Slot::Table(entries_view(arguments@)),
    ]);
    encode_method(Method::ExchangeBind, list.as_slice())
}

/// Encodes `exchange.unbind`: the reserved ticket; the destination as a
/// short string; the source as a short string; the routing key as a short
/// string; the flag nowait in one byte; the arguments as a field table.
pub fn encode_exchange_unbind(
    destination: &[u8],
    source: &[u8],
    routing_key: &[u8],
    nowait: bool,
    arguments: &Vec<(String, FieldValue)>,
) -> (r: Result<Vec<u8>, AmqpError>)
    ensures
        bytes_outcome(r) == method_bytes(
            Method::ExchangeUnbind,
            seq![
                ticket(),
                Slot::ShortText(destination@, ""@),
                Slot::ShortText(source@, ""@),
                Slot::ShortText(routing_key@, ""@),
                Slot::Flags(seq![nowait]),
                Slot::Table(entries_view(arguments@)),
            ],
        ),
{
    let flags = [nowait];
    let list = [
        Argument::Short(0),
        Argument::ShortText(destination, ""),
        Argument::ShortText(source, ""),
        Argument::ShortText(routing_key, ""),
        Argument::Flags(flags.as_slice()),
        Argument::Table(arguments),
    ];
    assert(flags@ =~= seq![nowait]);
    assert(slots_view(list@) =~= seq![
        ticket(),
        Slot::ShortText(destination@, ""@),
        Slot::ShortText(source@, ""@),
        Slot::ShortText(routing_key@, ""@),
        Slot::Flags(seq![nowait]),
        Slot::Table(entries_view(arguments@)),
    ]);
    encode_method(Method::ExchangeUnbind, list.as_slice())
}

/// Encodes `queue.declare`: the reserved ticket; the queue as a short
/// string; the flags passive, durable, exclusive, auto delete and nowait in
/// one byte, in that order from bit 0; the arguments as a field table.
pub fn encode_queue_declare(
    queue: &[u8],
    passive: bool,
    durable: bool,
    exclusive: bool,
    auto_delete: bool,
    nowait: bool,
    arguments: &Vec<(String, FieldValue)>,
) -> (r: Result<Vec<u8>, AmqpError>)
    ensures
        bytes_outcome(r) == method_bytes(
            Method::QueueDeclare,
            seq![
                ticket(),
                Slot::ShortText(queue@, ""@),
                Slot::Flags(seq![passive, durable, exclusive, auto_delete, nowait]),
                Slot::Table(entries_view(arguments@)),
            ],
        ),
{
    let flags = [passive, durable, exclusive, auto_delete, nowait];
    let list = [
        Argument::Short(0),
        Argument::ShortText(queue, ""),
        Argument::Flags(flags.as_slice()),
        Argument::Table(arguments),
    ];
    assert(flags@ =~= seq![passive, durable, exclusive, auto_delete, nowait]);
    assert(slots_view(list@) =~= seq![
        ticket(),
        Slot::ShortText(queue@, ""@),
        Slot::Flags(seq![passive, durable, exclusive, auto_delete, nowait]),
        Slot::Table(entries_view(arguments@)),
    ]);
    encode_method(Method::QueueDeclare, list.as_slice())
}

/// Encodes `queue.bind`: the reserved ticket; the queue as a short string;
/// the exchange as a short string; the routing key as a short string; the
/// flag nowait in one byte; the arguments as a field table.
pub fn encode_queue_bind(
    queue: &[u8],
    exchange: &[u8],
    routing_key: &[u8],
    nowait: bool,
    arguments: &Vec<(String, FieldValue)>,
) -> (r: Result<Vec<u8>, AmqpError>)
    ensures
        bytes_outcome(r) == method_bytes(
            Method::QueueBind,
            seq![
                ticket(),
                Slot::ShortText(queue@, ""@),
                Slot::ShortText(exchange@, ""@),
                Slot::ShortText(routing_key@, ""@),
                Slot::Flags(seq![nowait]),
                Slot::Table(entries_view(arguments@)),
            ],
        ),
{
    let flags = [nowait];
    let list = [
        Argument::Short(0),
        Argument::ShortText(queue, ""),
        Argument::ShortText(exchange, ""),
        Argument::ShortText(routing_key, ""),
        Argument::Flags(flags.as_slice()),
        Argument::Table(arguments),
    ];
    assert(flags@ =~= seq![nowait]);
    assert(slots_view(list@) =~= seq![
        ticket(),
        Slot::ShortText(queue@, ""@),
        Slot::ShortText(exchange@, ""@),
        Slot::ShortText(routing_key@, ""@),
        Slot::Flags(seq![nowait]),
        Slot::Table(entries_view(arguments@)),
    ]);
    encode_method(Method::QueueBind, list.as_slice())
}

/// Encodes `queue.unbind`: the reserved ticket; the queue as a short
/// string; the exchange as a short string; the routing key as a short
/// string; the arguments as a field table.
pub fn encode_queue_unbind(
    queue: &[u8],
    exchange: &[u8],
    routing_key: &[u8],
    arguments: &Vec<(String, FieldValue)>,
) -> (r: Result<Vec<u8>, AmqpError>)
    ensures
        bytes_outcome(r) == method_bytes(
            Method::QueueUnbind,
            seq![
                ticket(),
                Slot::ShortText(queue@, ""@),
                Slot::ShortText(exchange@, ""@),
                Slot::ShortText(routing_key@, ""@),
                Slot::Table(entries_view(arguments@)),
            ],
        ),
{
    let list = [
        Argument::Short(0),
        Argument::ShortText(queue, ""),
        Argument::ShortText(exchange, ""),
        Argument::ShortText(routing_key, ""),
        Argument::Table(arguments),
    ];
    assert(slots_view(list@) =~= seq![
        ticket(),
        Slot::ShortText(queue@, ""@),
        Slot::ShortText(exchange@, ""@),
        Slot::ShortText(routing_key@, ""@),
        Slot::Table(entries_view(arguments@)),
    ]);
    encode_method(Method::QueueUnbind, list.as_slice())
}

/// Encodes `queue.purge`: the reserved ticket; the queue as a short string;
/// the flag nowait in one byte.
pub fn encode_queue_purge(queue: &[u8], nowait: bool) -> (r: Result<Vec<u8>, AmqpError>)
    ensures
        bytes_outcome(r) == method_bytes(
            Method::QueuePurge,
            seq![
                ticket(),
                Slot::ShortText(queue@, ""@),
                Slot::Flags(seq![nowait]),
            ],
        ),
{
    let flags = [nowait];
    let list = [
        Argument::Short(0),
        Argument::ShortText(queue, ""),
        Argument::Flags(flags.as_slice()),
    ];
    assert(flags@ =~= seq![nowait]);
    assert(slots_view(list@) =~= seq![
        ticket(),
        Slot::ShortText(queue@, ""@),
        Slot::Flags(seq![nowait]),
    ]);
    encode_method(Method::QueuePurge, list.as_slice())
}

/// Encodes `queue.delete`: the reserved ticket; the queue as a short
/// string; the flags if unused, if empty and nowait in one byte, in that
/// order from bit 0.
pub fn encode_queue_delete(
    queue: &[u8],
    if_unused: bool,
    if_empty: bool,
    nowait: bool,
) -> (r: Result<Vec<u8>, AmqpError>)
    ensures
        bytes_outcome(r) == method_bytes(
            Method::QueueDelete,
            seq![
                ticket(),
                Slot::ShortText(queue@, ""@),
                Slot::Flags(seq![if_unused, if_empty, nowait]),
            ],
        ),
{
    let flags = [if_unused, if_empty, nowait];
    let list = [
        Argument::Short(0),
        Argument::ShortText(queue, ""),
        Argument::Flags(flags.as_slice()),
    ];
    assert(flags@ =~= seq![if_unused, if_empty, nowait]);
    assert(slots_view(list@) =~= seq![
        ticket(),
        Slot::ShortText(queue@, ""@),
        Slot::Flags(seq![if_unused, if_empty, nowait]),
    ]);
    encode_method(Method::QueueDelete, list.as_slice())
}

/// Encodes `basic.qos`: the prefetch size in four bytes; the prefetch count
/// in two bytes; the flag global in one byte.
pub fn encode_basic_qos(
    prefetch_size: u32,
    prefetch_count: u16,
    global: bool,
) -> (r: Result<Vec<u8>, AmqpError>)
    ensures
        bytes_outcome(r) == method_bytes(
            Method::BasicQos,
            seq![
                Slot::Long(prefetch_size),
                Slot::Short(prefetch_count),
                Slot::Flags(seq![global]),
            ],
        ),
{
    let flags = [global];
    let list = [
        Argument::Long(prefetch_size),
        Argument::Short(prefetch_count),
        Argument::Flags(flags.as_slice()),
    ];
    assert(flags@ =~= seq![global]);
    assert(slots_view(list@) =~= seq![
        Slot::Long(prefetch_size),
        Slot::Short(prefetch_count),
        Slot::Flags(seq![global]),
    ]);
    encode_method(Method::BasicQos, list.as_slice())
}

/// Encodes `basic.consume`: the reserved ticket; the queue as a short
/// string; the consumer tag as a short string; the flags no local, no ack,
/// exclusive and nowait in one byte, in that order from bit 0; the
/// arguments as a field table.
pub fn encode_basic_consume(
    queue: &[u8],
    consumer_tag: &[u8],
    no_local: bool,
    no_ack: bool,
    exclusive: bool,
    nowait: bool,
    arguments: &Vec<(String, FieldValue)>,
) -> (r: Result<Vec<u8>, AmqpError>)
    ensures
        bytes_outcome(r) == method_bytes(
            Method::BasicConsume,
            seq![
                ticket(),
                Slot::ShortText(queue@, ""@),
                Slot::ShortText(consumer_tag@, ""@),
                Slot::Flags(seq![no_local, no_ack, exclusive, nowait]),
                Slot::Table(entries_view(arguments@)),
            ],
        ),
{
    let flags = [no_local, no_ack, exclusive, nowait];
    let list = [
        Argument::Short(0),
        Argument::ShortText(queue, ""),
        Argument::ShortText(consumer_tag, ""),
        Argument::Flags(flags.as_slice()),
        Argument::Table(arguments),
    ];
    assert(flags@ =~= seq![no_local, no_ack, exclusive, nowait]);
    assert(slots_view(list@) =~= seq![
        ticket(),
        Slot::ShortText(queue@, ""@),
        Slot::ShortText(consumer_tag@, ""@),
        Slot::Flags(seq![no_local, no_ack, exclusive, nowait]),
        Slot::Table(entries_view(arguments@)),
    ]);
    encode_method(Method::BasicConsume, list.as_slice())
}

/// Encodes `basic.cancel`: the consumer tag as a short string; the flag
/// nowait in one byte.
pub fn encode_basic_cancel(consumer_tag: &[u8], nowait: bool) -> (r: Result<Vec<u8>, AmqpError>)
    ensures
        bytes_outcome(r) == method_bytes(
            Method::BasicCancel,
            seq![
                Slot::ShortText(consumer_tag@, ""@),
                Slot::Flags(seq![nowait]),
            ],
        ),
{
    let flags = [nowait];
    let list = [
        Argument::ShortText(consumer_tag, ""),
        Argument::Flags(flags.as_slice()),
    ];
    assert(flags@ =~= seq![nowait]);
    assert(slots_view(list@) =~= seq![
        Slot::ShortText(consumer_tag@, ""@),
        Slot::Flags(seq![nowait]),
    ]);
    encode_method(Method::BasicCancel, list.as_slice())
}

/// Encodes `basic.publish`: the reserved ticket; the exchange as a short
/// string; the routing key as a short string; the flags mandatory and
/// immediate in one byte, in that order from bit 0.
pub fn encode_basic_publish(
    exchange: &[u8],
    routing_key: &[u8],
    mandatory: bool,
    immediate: bool,
) -> (r: Result<Vec<u8>, AmqpError>)
    ensures
        bytes_outcome(r) == method_bytes(
            Method::BasicPublish,
            seq![
                ticket(),
                Slot::ShortText(exchange@, ""@),
                Slot::ShortText(routing_key@, ""@),
                Slot::Flags(seq![mandatory, immediate]),
            ],
        ),
{
    let flags = [mandatory, immediate];
    let list = [
        Argument::Short(0),
        Argument::ShortText(exchange, ""),
        Argument::ShortText(routing_key, ""),
        Argument::Flags(flags.as_slice()),
    ];
    assert(flags@ =~= seq![mandatory, immediate]);
    assert(slots_view(list@) =~= seq![
        ticket(),
        Slot::ShortText(exchange@, ""@),
        Slot::ShortText(routing_key@, ""@),
        Slot::Flags(seq![mandatory, immediate]),
    ]);
    encode_method(Method::BasicPublish, list.as_slice())
}

/// Encodes `basic.get`: the reserved ticket; the queue as a short string;
/// the flag no ack in one byte.
pub fn encode_basic_get(queue: &[u8], no_ack: bool) -> (r: Result<Vec<u8>, AmqpError>)
    ensures
        bytes_outcome(r) == method_bytes(
            Method::BasicGet,
            seq![
                ticket(),
                Slot::ShortText(queue@, ""@),
                Slot::Flags(seq![no_ack]),
            ],
        ),
{
    let flags = [no_ack];
    let list = [
        Argument::Short(0),
        Argument::ShortText(queue, ""),
        Argument::Flags(flags.as_slice()),
    ];
    assert(flags@ =~= seq![no_ack]);
    assert(slots_view(list@) =~= seq![
        ticket(),
        Slot::ShortText(queue@, ""@),
        Slot::Flags(seq![no_ack]),
    ]);
    encode_method(Method::BasicGet, list.as_slice())
}

/// Encodes `basic.ack`: the delivery tag in eight bytes; the flag multiple
/// in one byte.
pub fn encode_basic_ack(delivery_tag: u64, multiple: bool) -> (r: Result<Vec<u8>, AmqpError>)
    ensures
        bytes_outcome(r) == method_bytes(
            Method::BasicAck,
            seq![
                Slot::LongLong(delivery_tag),
                Slot::Flags(seq![multiple]),
            ],
        ),
{
    let flags = [multiple];
    let list = [
        Argument::LongLong(delivery_tag),
        Argument::Flags(flags.as_slice()),
    ];
    assert(flags@ =~= seq![multiple]);
    assert(slots_view(list@) =~= seq![
        Slot::LongLong(delivery_tag),
        Slot::Flags(seq![multiple]),
    ]);
    encode_method(Method::BasicAck, list.as_slice())
}

/// Encodes `basic.reject`: the delivery tag in eight bytes; the flag
/// requeue in one byte.
pub fn encode_basic_reject(delivery_tag: u64, requeue: bool) -> (r: Result<Vec<u8>, AmqpError>)
    ensures
        bytes_outcome(r) == method_bytes(
            Method::BasicReject,
            seq![
                Slot::LongLong(delivery_tag),
                Slot::Flags(seq![requeue]),
            ],
        ),
{
    let flags = [requeue];
    let list = [
        Argument::LongLong(delivery_tag),
        Argument::Flags(flags.as_slice()),
    ];
    assert(flags@ =~= seq![requeue]);
    assert(slots_view(list@) =~= seq![
        Slot::LongLong(delivery_tag),
        Slot::Flags(seq![requeue]),
    ]);
    encode_method(Method::BasicReject, list.as_slice())
}

/// Encodes `basic.nack`: the delivery tag in eight bytes; the flags
/// multiple and requeue in one byte, in that order from bit 0.
pub fn encode_basic_nack(
    delivery_tag: u64,
    multiple: bool,
    requeue: bool,
) -> (r: Result<Vec<u8>, AmqpError>)
    ensures
        bytes_outcome(r) == method_bytes(
            Method::BasicNack,
            seq![
                Slot::LongLong(delivery_tag),
                Slot::Flags(seq![multiple, requeue]),
            ],
        ),
{
    let flags = [multiple, requeue];
    let list = [
        Argument::LongLong(delivery_tag),
        Argument::Flags(flags.as_slice()),
    ];
    assert(flags@ =~= seq![multiple, requeue]);
    assert(slots_view(list@) =~= seq![
        Slot::LongLong(delivery_tag),
        Slot::Flags(seq![multiple, requeue]),
    ]);
    encode_method(Method::BasicNack, list.as_slice())
}

/// Encodes `basic.recover`: the flag requeue in one byte.
pub fn encode_basic_recover(requeue: bool) -> (r: Result<Vec<u8>, AmqpError>)
    ensures
        bytes_outcome(r) == method_bytes(
            Method::BasicRecover,
            seq![Slot::Flags(seq![requeue])],
        ),
{
    let flags = [requeue];
    let list = [Argument::Flags(flags.as_slice())];
    assert(flags@ =~= seq![requeue]);
    assert(slots_view(list@) =~= seq![Slot::Flags(seq![requeue])]);
    encode_method(Method::BasicRecover, list.as_slice())
}

/// Encodes `basic.recover-async`: the flag requeue in one byte.
pub fn encode_basic_recover_async(requeue: bool) -> (r: Result<Vec<u8>, AmqpError>)
    ensures
        bytes_outcome(r) == method_bytes(
            Method::BasicRecoverAsync,
            seq![Slot::Flags(seq![requeue])],
        ),
{
    let flags = [requeue];
    let list = [Argument::Flags(flags.as_slice())];
    assert(flags@ =~= seq![requeue]);
    assert(slots_view(list@) =~= seq![Slot::Flags(seq![requeue])]);
    encode_method(Method::BasicRecoverAsync, list.as_slice())
}

/// Encodes `tx.select`, which has no arguments.
pub fn encode_tx_select() -> (r: Result<Vec<u8>, AmqpError>)
    ensures
        bytes_outcome(r) == method_bytes(
            Method::TxSelect,
            Seq::empty(),
        ),
{
    let list: [Argument; 0] = [];
    assert(slots_view(list@) =~= Seq::<Slot>::empty());
    encode_method(Method::TxSelect, list.as_slice())
}

/// Encodes `tx.commit`, which has no arguments.
pub fn encode_tx_commit() -> (r: Result<Vec<u8>, AmqpError>)
    ensures
        bytes_outcome(r) == method_bytes(
            Method::TxCommit,
            Seq::empty(),
        ),
{
    let list: [Argument; 0] = [];
    assert(slots_view(list@) =~= Seq::<Slot>::empty());
    encode_method(Method::TxCommit, list.as_slice())
}

/// Encodes `tx.rollback`, which has no arguments.
pub fn encode_tx_rollback() -> (r: Result<Vec<u8>, AmqpError>)
    ensures
        bytes_outcome(r) == method_bytes(
            Method::TxRollback,
            Seq::empty(),
        ),
{
    let list: [Argument; 0] = [];
    assert(slots_view(list@) =~= Seq::<Slot>::empty());
    encode_method(Method::TxRollback, list.as_slice())
}

/// Encodes `confirm.select`: the flag nowait in one byte.
pub fn encode_confirm_select(nowait: bool) -> (r: Result<Vec<u8>, AmqpError>)
    ensures
        bytes_outcome(r) == method_bytes(
            Method::ConfirmSelect,
            seq![Slot::Flags(seq![nowait])],
        ),
{
    let flags = [nowait];
    let list = [Argument::Flags(flags.as_slice())];
    assert(flags@ =~= seq![nowait]);
    assert(slots_view(list@) =~= seq![Slot::Flags(seq![nowait])]);
    encode_method(Method::ConfirmSelect, list.as_slice())
}

/// Encodes `confirm.select-ok`, which has no arguments.
pub fn encode_confirm_select_ok() -> (r: Result<Vec<u8>, AmqpError>)
    ensures
        bytes_outcome(r) == method_bytes(
            Method::ConfirmSelectOk,
            Seq::empty(),
        ),
{
    let list: [Argument; 0] = [];
    assert(slots_view(list@) =~= Seq::<Slot>::empty());
    encode_method(Method::ConfirmSelectOk, list.as_slice())
}

} // verus!
