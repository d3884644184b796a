//! The compact protocol of the standalone UDP probe client: three message
//! types and a 32-byte layout (little endian): `timestamp` 0..16, `seq`
//! 16..24, `msg_type` 24, padding 25..32 (zero when written, ignored when read).
use crate::bytes::{
    le_bytes, le_value, lemma_le_bytes_len, lemma_le_bytes_of_value, lemma_le_value_bound,
    lemma_le_value_of_bytes, lemma_pow256_widths, pow256, push_le, read_le,
};
use vstd::prelude::*;

verus! {

/// Size in bytes of an encoded [`ProbeMessage`].
pub const PROBE_MESSAGE_SIZE: usize = 32;

/// Message types of the probe protocol (wire codes 0, 1, 2).
#[derive(Clone, Copy, Debug, PartialEq, Eq, Structural)]
pub enum ProbeType {
    Start,
    NTP,
    NtpResult,
}

pub open spec fn probe_code(t: ProbeType) -> u8 {
    match t {
        ProbeType::Start => 0,
        ProbeType::NTP => 1,
        ProbeType::NtpResult => 2,
    }
}

impl ProbeType {
    /// The wire code of this type.
    pub fn code(&self) -> (r: u8)
        ensures
            r == probe_code(*self),
    {
        match self {
            ProbeType::Start => 0,
            ProbeType::NTP => 1,
            ProbeType::NtpResult => 2,
        }
    }

    /// The type of a wire code; only the three codes are accepted.
    pub fn from_code(value: u8) -> (r: ProbeType)
        requires
            value <= 2,
        ensures
            probe_code(r) == value,
    {
        match value {
            0 => ProbeType::Start,
            1 => ProbeType::NTP,
            _ => ProbeType::NtpResult,
        }
    }
}

/// A decoded probe message.
#[derive(Clone, Copy, Debug, PartialEq, Eq, Structural)]
pub struct ProbeMessage {
    pub timestamp: u128,
    pub seq: u64,
    pub msg_type: u8,
}

/// The bytes of a probe message on the wire.
pub open spec fn probe_layout(m: ProbeMessage) -> Seq<u8> {
    le_bytes(m.timestamp as nat, 16) + le_bytes(m.seq as nat, 8) + seq![m.msg_type] + Seq::new(
        7,
        |i: int| 0u8,
    )
}

/// The probe message that a 32-byte buffer holds.
pub open spec fn probe_of_layout(b: Seq<u8>) -> ProbeMessage {
    ProbeMessage {
        timestamp: le_value(b.subrange(0, 16)) as u128,
        seq: le_value(b.subrange(16, 24)) as u64,
        msg_type: b[24],
    }
}

pub proof fn lemma_probe_layout_len(m: ProbeMessage)
    ensures
        probe_layout(m).len() == PROBE_MESSAGE_SIZE,
{
    lemma_le_bytes_len(m.timestamp as nat, 16);
    lemma_le_bytes_len(m.seq as nat, 8);
}

/// Decoding the encoding of a probe message gives it back; encoding the
/// message of a 32-byte buffer with zero padding gives the buffer back.
pub proof fn lemma_probe_roundtrip(m: ProbeMessage, b: Seq<u8>)
    ensures
        probe_of_layout(probe_layout(m)) == m,
        b.len() == PROBE_MESSAGE_SIZE && (forall|i: int| 25 <= i < 32 ==> b[i] == 0) ==> probe_layout(
            probe_of_layout(b),
        ) =~= b,
{
    lemma_pow256_widths();
    let l = probe_layout(m);
    lemma_le_bytes_len(m.timestamp as nat, 16);
    lemma_le_bytes_len(m.seq as nat, 8);
    assert(l.subrange(0, 16) =~= le_bytes(m.timestamp as nat, 16));
    assert(l.subrange(16, 24) =~= le_bytes(m.seq as nat, 8));
    lemma_le_value_of_bytes(m.timestamp as nat, 16);
    lemma_le_value_of_bytes(m.seq as nat, 8);
    vstd::arithmetic::div_mod::lemma_small_mod(m.timestamp as nat, pow256(16));
    vstd::arithmetic::div_mod::lemma_small_mod(m.seq as nat, pow256(8));
    if b.len() == PROBE_MESSAGE_SIZE && (forall|i: int| 25 <= i < 32 ==> b[i] == 0) {
        lemma_le_value_bound(b.subrange(0, 16));
        lemma_le_value_bound(b.subrange(16, 24));
        lemma_le_bytes_of_value(b.subrange(0, 16));
        lemma_le_bytes_of_value(b.subrange(16, 24));
        assert(b =~= b.subrange(0, 16) + b.subrange(16, 24) + seq![b[24]] + Seq::new(
            7,
            |i: int| 0u8,
        ));
    }
}

/// Serialises a probe message (padding zeroed).
pub fn encode_probe_message(msg_type: ProbeType, seq: u64, timestamp: u128) -> (r: Vec<u8>)
    ensures
        r@ == probe_layout(ProbeMessage { timestamp, seq, msg_type: probe_code(msg_type) }),
        r@.len() == PROBE_MESSAGE_SIZE,
{
    let mut out: Vec<u8> = Vec::new();
    push_le(&mut out, timestamp, 16);
    push_le(&mut out, seq as u128, 8);
    out.push(msg_type.code());
    let ghost head = out@;
    let mut k: usize = 0;
    while k < 7
        invariant
            k <= 7,
            out@ =~= head + Seq::new(k as nat, |i: int| 0u8),
        decreases 7 - k,
    {
        out.push(0u8);
        k = k + 1;
    }
    proof {
        let m = ProbeMessage { timestamp, seq, msg_type: probe_code(msg_type) };
        lemma_probe_layout_len(m);
        assert(out@ =~= probe_layout(m));
    }
    out
}

/// Reads a probe message; `None` unless the buffer holds exactly one.
pub fn decode_probe_message(bytes: &[u8]) -> (r: Option<ProbeMessage>)
    ensures
        r is Some <==> bytes@.len() == PROBE_MESSAGE_SIZE,
        r matches Some(m) ==> m == probe_of_layout(bytes@),
{
    if bytes.len() != PROBE_MESSAGE_SIZE {
        return None;
    }
    proof {
        lemma_pow256_widths();
        lemma_le_value_bound(bytes@.subrange(16, 24));
    }
    let timestamp = read_le(bytes, 0, 16);
    let seq = read_le(bytes, 16, 8) as u64;
    Some(ProbeMessage { timestamp, seq, msg_type: bytes[24] })
}

/// The probe client's answer to a message.
#[derive(Clone, Copy, Debug, PartialEq, Eq, Structural)]
pub enum ProbeStep {
    /// Echo an `NTP` probe with this timestamp and reset the user reference to it.
    EchoNtp(u128),
    /// Answer a `NtpResult` with this arrival time.
    ReportArrival(u128),
    /// No answer.
    Ignore,
}

/// The probe client's step for a message (code 0, 1 or 2): an `NTP` probe
/// is echoed with the client's current time `now_ns` (which also becomes its
/// user reference); a `NtpResult` is answered with the kernel arrival time of
/// the message when its receive event was seen; nothing else is answered.
pub fn probe_step(msg: &ProbeMessage, now_ns: u64, arrival: Option<u64>) -> (r: ProbeStep)
    requires
        msg.msg_type <= 2,
    ensures
        r == (if msg.msg_type == 1 {
            ProbeStep::EchoNtp(now_ns as u128)
        } else if msg.msg_type == 2 && arrival is Some {
            ProbeStep::ReportArrival(arrival->0 as u128)
        } else {
            ProbeStep::Ignore
        }),
{
    match ProbeType::from_code(msg.msg_type) {
        ProbeType::NTP => ProbeStep::EchoNtp(now_ns as u128),
        ProbeType::NtpResult => match arrival {
            Some(t) => ProbeStep::ReportArrival(t as u128),
            None => ProbeStep::Ignore,
        },
        ProbeType::Start => ProbeStep::Ignore,
    }
}

} // verus!
