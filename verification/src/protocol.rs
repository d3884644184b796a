//! The application messages exchanged between the measurement server and
//! client, and their fixed 96-byte wire layout.
//!
//! Layout (little endian, offsets in bytes):
//! `timestamp` 0..16, `first_u128` 16..32, `second_u128` 32..48,
//! `i_val` 48..64 (two's complement), `first_f64` 64..72 and `second_f64`
//! 72..80 (IEEE-754 bit patterns), `seq` 80..88, `msg_type` 88, padding
//! 89..96 (zero when written, ignored when read).
use crate::bytes::{
    le_bytes, le_value, lemma_le_bytes_len, lemma_le_bytes_of_value, lemma_le_value_bound,
    lemma_le_value_of_bytes, lemma_pow256_monotone, lemma_pow256_widths, pow256, push_le, read_le,
};
use vstd::prelude::*;

verus! {

/// Size in bytes of an encoded [`Message`].
pub const MESSAGE_SIZE: usize = 96;

/// Kind of an application message; its wire code is its position, from 0.
#[derive(Clone, Copy, Debug, PartialEq, Eq, Structural)]
pub enum MessageType {
    /// Initial handshake message.
    Start,
    /// Round-trip probe of the coarse (NTP-like) synchronisation.
    NTP,
    /// Check-phase exchange, testing the result of NTP and PTP.
    NtpResult,
    /// Probe of the precise (PTP-like) synchronisation.
    PTP,
    /// Offset report of the PTP phase.
    PtpResult,
    /// Real-time calculation exchange.
    Calc,
}

/// Wire code of a message type.
pub open spec fn type_code(t: MessageType) -> u8 {
    match t {
        MessageType::Start => 0,
        MessageType::NTP => 1,
        MessageType::NtpResult => 2,
        MessageType::PTP => 3,
        MessageType::PtpResult => 4,
        MessageType::Calc => 5,
    }
}

/// Whether `v` is the wire code of some message type.
pub open spec fn is_type_code(v: u8) -> bool {
    v <= 5
}

/// The message type whose wire code is `v` (meaningful for `v <= 5`).
pub open spec fn type_of_code(v: u8) -> MessageType {
    if v == 0 {
        MessageType::Start
    } else if v == 1 {
        MessageType::NTP
    } else if v == 2 {
        MessageType::NtpResult
    } else if v == 3 {
        MessageType::PTP
    } else if v == 4 {
        MessageType::PtpResult
    } else {
        MessageType::Calc
    }
}

impl MessageType {
    /// The wire code of this type.
    pub fn code(&self) -> (r: u8)
        ensures
            r == type_code(*self),
    {
        match self {
            MessageType::Start => 0,
            MessageType::NTP => 1,
            MessageType::NtpResult => 2,
            MessageType::PTP => 3,
            MessageType::PtpResult => 4,
            MessageType::Calc => 5,
        }
    }

    /// The type of a wire code; only codes of message types are accepted.
    pub fn from_code(value: u8) -> (r: MessageType)
        requires
            is_type_code(value),
        ensures
            type_code(r) == value,
            r == type_of_code(value),
    {
        match value {
            0 => MessageType::Start,
            1 => MessageType::NTP,
            2 => MessageType::NtpResult,
            3 => MessageType::PTP,
            4 => MessageType::PtpResult,
            _ => MessageType::Calc,
        }
    }

    /// The type of a wire code, or `None` when no type has that code.
    pub fn decode(value: u8) -> (r: Option<MessageType>)
        ensures
            r is Some <==> is_type_code(value),
            r matches Some(t) ==> type_code(t) == value && t == type_of_code(value),
    {
        if value <= 5 {
            Some(MessageType::from_code(value))
        } else {
            None
        }
    }
}

/// The wire codes and the types are in one-to-one correspondence.
pub proof fn lemma_type_code_bijective(t: MessageType, v: u8)
    ensures
        is_type_code(type_code(t)),
        type_of_code(type_code(t)) == t,
        is_type_code(v) ==> type_code(type_of_code(v)) == v,
{
}

/// A decoded application message. The two floating-point payloads are kept
/// as their IEEE-754 bit patterns.
#[derive(Clone, Copy, Debug, PartialEq, Eq, Structural)]
pub struct Message {
    /// Generic timestamp field.
    pub timestamp: u128,
    /// First 128-bit payload (timestamps of client or server).
    pub first_u128: u128,
    /// Second 128-bit payload (timestamps of client or server).
    pub second_u128: u128,
    /// Signed payload (offset accumulation).
    pub i_val: i128,
    /// Bit pattern of the first floating-point payload (theta, or y).
    pub first_f64_bits: u64,
    /// Bit pattern of the second floating-point payload (radius).
    pub second_f64_bits: u64,
    /// Sequence number.
    pub seq: u64,
    /// Wire code of the message type.
    pub msg_type: u8,
}

/// The bytes of a message on the wire.
pub open spec fn message_layout(m: Message) -> Seq<u8> {
    le_bytes(m.timestamp as nat, 16) + le_bytes(m.first_u128 as nat, 16) + le_bytes(
        m.second_u128 as nat,
        16,
    ) + le_bytes((m.i_val as u128) as nat, 16) + le_bytes(m.first_f64_bits as nat, 8) + le_bytes(
        m.second_f64_bits as nat,
        8,
    ) + le_bytes(m.seq as nat, 8) + seq![m.msg_type] + Seq::new(7, |i: int| 0u8)
}

/// The little-endian field of `n` bytes at `start`.
pub open spec fn field(b: Seq<u8>, start: int, n: int) -> nat {
    le_value(b.subrange(start, start + n))
}

/// The message that a 96-byte buffer holds.
pub open spec fn message_of_layout(b: Seq<u8>) -> Message {
    Message {
        timestamp: field(b, 0, 16) as u128,
        first_u128: field(b, 16, 16) as u128,
        second_u128: field(b, 32, 16) as u128,
        i_val: (field(b, 48, 16) as u128) as i128,
        first_f64_bits: field(b, 64, 8) as u64,
        second_f64_bits: field(b, 72, 8) as u64,
        seq: field(b, 80, 8) as u64,
        msg_type: b[88],
    }
}

/// Whether the padding bytes of a 96-byte buffer are zero.
pub open spec fn zero_padding(b: Seq<u8>) -> bool {
    forall|i: int| 89 <= i < 96 ==> b[i] == 0
}

pub proof fn lemma_message_layout_len(m: Message)
    ensures
        message_layout(m).len() == MESSAGE_SIZE,
{
    lemma_le_bytes_len(m.timestamp as nat, 16);
    lemma_le_bytes_len(m.first_u128 as nat, 16);
    lemma_le_bytes_len(m.second_u128 as nat, 16);
    lemma_le_bytes_len((m.i_val as u128) as nat, 16);
    lemma_le_bytes_len(m.first_f64_bits as nat, 8);
    lemma_le_bytes_len(m.second_f64_bits as nat, 8);
    lemma_le_bytes_len(m.seq as nat, 8);
}

proof fn lemma_i128_u128_roundtrip(x: i128)
    ensures
        ((x as u128) as i128) == x,
{
    assert(((x as u128) as i128) == x) by (bit_vector);
}

proof fn lemma_u128_i128_roundtrip(x: u128)
    ensures
        ((x as i128) as u128) == x,
{
    assert(((x as i128) as u128) == x) by (bit_vector);
}

/// Decoding the encoding of a message gives the message back.
pub proof fn lemma_message_roundtrip(m: Message)
    ensures
        message_of_layout(message_layout(m)) == m,
{
    let b = message_layout(m);
    lemma_message_layout_len(m);
    lemma_pow256_widths();
    let f0 = le_bytes(m.timestamp as nat, 16);
    let f1 = le_bytes(m.first_u128 as nat, 16);
    let f2 = le_bytes(m.second_u128 as nat, 16);
    let f3 = le_bytes((m.i_val as u128) as nat, 16);
    let f4 = le_bytes(m.first_f64_bits as nat, 8);
    let f5 = le_bytes(m.second_f64_bits as nat, 8);
    let f6 = le_bytes(m.seq as nat, 8);
    lemma_le_bytes_len(m.timestamp as nat, 16);
    lemma_le_bytes_len(m.first_u128 as nat, 16);
    lemma_le_bytes_len(m.second_u128 as nat, 16);
    lemma_le_bytes_len((m.i_val as u128) as nat, 16);
    lemma_le_bytes_len(m.first_f64_bits as nat, 8);
    lemma_le_bytes_len(m.second_f64_bits as nat, 8);
    lemma_le_bytes_len(m.seq as nat, 8);
    assert(b.subrange(0, 16) =~= f0);
    assert(b.subrange(16, 32) =~= f1);
    assert(b.subrange(32, 48) =~= f2);
    assert(b.subrange(48, 64) =~= f3);
    assert(b.subrange(64, 72) =~= f4);
    assert(b.subrange(72, 80) =~= f5);
    assert(b.subrange(80, 88) =~= f6);
    assert(b[88] == m.msg_type);
    lemma_le_value_of_bytes(m.timestamp as nat, 16);
    lemma_le_value_of_bytes(m.first_u128 as nat, 16);
    lemma_le_value_of_bytes(m.second_u128 as nat, 16);
    lemma_le_value_of_bytes((m.i_val as u128) as nat, 16);
    lemma_le_value_of_bytes(m.first_f64_bits as nat, 8);
    lemma_le_value_of_bytes(m.second_f64_bits as nat, 8);
    lemma_le_value_of_bytes(m.seq as nat, 8);
    assert(m.timestamp as nat % pow256(16) == m.timestamp as nat) by {
        vstd::arithmetic::div_mod::lemma_small_mod(m.timestamp as nat, pow256(16));
    }
    assert(m.first_u128 as nat % pow256(16) == m.first_u128 as nat) by {
        vstd::arithmetic::div_mod::lemma_small_mod(m.first_u128 as nat, pow256(16));
    }
    assert(m.second_u128 as nat % pow256(16) == m.second_u128 as nat) by {
        vstd::arithmetic::div_mod::lemma_small_mod(m.second_u128 as nat, pow256(16));
    }
    assert((m.i_val as u128) as nat % pow256(16) == (m.i_val as u128) as nat) by {
        vstd::arithmetic::div_mod::lemma_small_mod((m.i_val as u128) as nat, pow256(16));
    }
    assert(m.first_f64_bits as nat % pow256(8) == m.first_f64_bits as nat) by {
        vstd::arithmetic::div_mod::lemma_small_mod(m.first_f64_bits as nat, pow256(8));
    }
    assert(m.second_f64_bits as nat % pow256(8) == m.second_f64_bits as nat) by {
        vstd::arithmetic::div_mod::lemma_small_mod(m.second_f64_bits as nat, pow256(8));
    }
    assert(m.seq as nat % pow256(8) == m.seq as nat) by {
        vstd::arithmetic::div_mod::lemma_small_mod(m.seq as nat, pow256(8));
    }
    lemma_i128_u128_roundtrip(m.i_val);
}

/// Encoding the message held by a 96-byte buffer with zero padding gives the
/// buffer back.
pub proof fn lemma_layout_roundtrip(b: Seq<u8>)
    requires
        b.len() == MESSAGE_SIZE,
        zero_padding(b),
    ensures
        message_layout(message_of_layout(b)) =~= b,
{
    let m = message_of_layout(b);
    lemma_pow256_widths();
    assert forall|s: int, n: int|
        #![trigger b.subrange(s, s + n)]
        0 <= s && s + n <= 96 && (n == 16 || n == 8) implies le_bytes(
        (field(b, s, n) as u128) as nat,
        n as nat,
    ) =~= b.subrange(s, s + n) by {
        let piece = b.subrange(s, s + n);
        lemma_le_value_bound(piece);
        lemma_pow256_monotone(n as nat, 16);
        lemma_le_bytes_of_value(piece);
    }
    assert(le_bytes(m.timestamp as nat, 16) =~= b.subrange(0, 16));
    assert(le_bytes(m.first_u128 as nat, 16) =~= b.subrange(16, 32));
    assert(le_bytes(m.second_u128 as nat, 16) =~= b.subrange(32, 48));
    lemma_u128_i128_roundtrip(field(b, 48, 16) as u128);
    assert(le_bytes((m.i_val as u128) as nat, 16) =~= b.subrange(48, 64));
    assert(le_bytes(m.first_f64_bits as nat, 8) =~= b.subrange(64, 72)) by {
        lemma_le_value_bound(b.subrange(64, 72));
    }
    assert(le_bytes(m.second_f64_bits as nat, 8) =~= b.subrange(72, 80)) by {
        lemma_le_value_bound(b.subrange(72, 80));
    }
    assert(le_bytes(m.seq as nat, 8) =~= b.subrange(80, 88)) by {
        lemma_le_value_bound(b.subrange(80, 88));
    }
    assert(b =~= b.subrange(0, 16) + b.subrange(16, 32) + b.subrange(32, 48) + b.subrange(48, 64)
        + b.subrange(64, 72) + b.subrange(72, 80) + b.subrange(80, 88) + seq![b[88]] + Seq::new(
        7,
        |i: int| 0u8,
    ));
}

/// Serialises a message into its 96-byte wire form (padding zeroed).
pub fn encode_message(
    msg_type: MessageType,
    seq: u64,
    timestamp: u128,
    first_u128: u128,
    second_u128: u128,
    first_f64_bits: u64,
    second_f64_bits: u64,
    i_val: i128,
) -> (r: Vec<u8>)
    ensures
        r@ == message_layout(
            Message {
                timestamp,
                first_u128,
                second_u128,
                i_val,
                first_f64_bits,
                second_f64_bits,
                seq,
                msg_type: type_code(msg_type),
            },
        ),
        r@.len() == MESSAGE_SIZE,
{
    let m = Message {
        timestamp,
        first_u128,
        second_u128,
        i_val,
        first_f64_bits,
        second_f64_bits,
        seq,
        msg_type: msg_type.code(),
    };
    m.to_bytes()
}

impl Message {
    /// The 96-byte wire form of this message (padding zeroed).
    pub fn to_bytes(&self) -> (r: Vec<u8>)
        ensures
            r@ == message_layout(*self),
            r@.len() == MESSAGE_SIZE,
    {
        let mut out: Vec<u8> = Vec::new();
        push_le(&mut out, self.timestamp, 16);
        push_le(&mut out, self.first_u128, 16);
        push_le(&mut out, self.second_u128, 16);
        push_le(&mut out, self.i_val as u128, 16);
        push_le(&mut out, self.first_f64_bits as u128, 8);
        push_le(&mut out, self.second_f64_bits as u128, 8);
        push_le(&mut out, self.seq as u128, 8);
        out.push(self.msg_type);
        let mut k: usize = 0;
        let ghost head = out@;
        while k < 7
            invariant
                k <= 7,
                out@ =~= head + Seq::new(k as nat, |i: int| 0u8),
            decreases 7 - k,
        {
            out.push(0u8);
            k = k + 1;
        }
        proof {
            lemma_message_layout_len(*self);
            assert(out@ =~= message_layout(*self));
        }
        out
    }
}

/// Reads a message from its wire form; `None` unless the buffer holds
/// exactly one message.
pub fn decode_message(bytes: &[u8]) -> (r: Option<Message>)
    ensures
        r is Some <==> bytes@.len() == MESSAGE_SIZE,
        r matches Some(m) ==> m == message_of_layout(bytes@),
{
    if bytes.len() != MESSAGE_SIZE {
        return None;
    }
    proof {
        lemma_pow256_widths();
        lemma_le_value_bound(bytes@.subrange(64, 72));
        lemma_le_value_bound(bytes@.subrange(72, 80));
        lemma_le_value_bound(bytes@.subrange(80, 88));
    }
    let timestamp = read_le(bytes, 0, 16);
    let first_u128 = read_le(bytes, 16, 16);
    let second_u128 = read_le(bytes, 32, 16);
    let i_bits = read_le(bytes, 48, 16);
    let first_f64_bits = read_le(bytes, 64, 8) as u64;
    let second_f64_bits = read_le(bytes, 72, 8) as u64;
    let seq = read_le(bytes, 80, 8) as u64;
    Some(
        Message {
            timestamp,
            first_u128,
            second_u128,
            i_val: i_bits as i128,
            first_f64_bits,
            second_f64_bits,
            seq,
            msg_type: bytes[88],
        },
    )
}

} // verus!
