//! The measurement client's reactions to server messages.
use crate::protocol::{
    encode_message, is_type_code, message_layout, type_code, type_of_code, Message, MessageType,
};
use vstd::prelude::*;

verus! {

/// What the client does with a server message.
#[derive(Clone, Copy, Debug, PartialEq, Eq, Structural)]
pub enum ClientStep {
    /// A start message, which only the client sends: reported.
    UnexpectedStart,
    /// A synchronisation probe (`NTP` or `PTP`): reset the user reference and
    /// echo the message type and sequence number.
    Echo(MessageType),
    /// A check-phase message: answer with the client's times.
    ReportTimes,
    /// An offset report: accumulate it.
    AccumulateOffset(i128),
    /// A calculation request. `launch_workload` for the first one, `last`
    /// for the termination message.
    Calculate { launch_workload: bool, last: bool },
}

/// The step for a message of a given type.
pub open spec fn step_of(m: Message) -> ClientStep {
    match type_of_code(m.msg_type) {
        MessageType::Start => ClientStep::UnexpectedStart,
        MessageType::NTP => ClientStep::Echo(MessageType::NTP),
        MessageType::NtpResult => ClientStep::ReportTimes,
        MessageType::PTP => ClientStep::Echo(MessageType::PTP),
        MessageType::PtpResult => ClientStep::AccumulateOffset(m.i_val),
        MessageType::Calc => ClientStep::Calculate {
            launch_workload: m.seq == 0,
            last: m.seq == u64::MAX,
        },
    }
}

/// Decides the client's step for a server message (whose type code must be
/// that of a message type).
pub fn client_step(msg: &Message) -> (r: ClientStep)
    requires
        is_type_code(msg.msg_type),
    ensures
        r == step_of(*msg),
        r matches ClientStep::Calculate { launch_workload, last } ==> (launch_workload <==> msg.seq
            == 0) && (last <==> msg.seq == u64::MAX),
{
    match MessageType::from_code(msg.msg_type) {
        MessageType::Start => ClientStep::UnexpectedStart,
        MessageType::NTP => ClientStep::Echo(MessageType::NTP),
        MessageType::NtpResult => ClientStep::ReportTimes,
        MessageType::PTP => ClientStep::Echo(MessageType::PTP),
        MessageType::PtpResult => ClientStep::AccumulateOffset(msg.i_val),
        MessageType::Calc => ClientStep::Calculate {
            launch_workload: msg.seq == 0,
            last: msg.seq == u64::MAX,
        },
    }
}

/// How the client reacts to each message type (wire codes 0 to 5): a start
/// message is reported; `NTP` and `PTP` probes are echoed with their own
/// type; a check-phase message is answered with times; an offset report
/// carries the message's offset; a calculation request launches the workload
/// exactly for the first message (sequence number 0) and ends the exchange
/// exactly for the termination message (sequence number `u64::MAX`).
pub proof fn lemma_client_steps(m: Message)
    requires
        m.msg_type <= 5,
    ensures
        m.msg_type == 0 <==> step_of(m) == ClientStep::UnexpectedStart,
        m.msg_type == 1 <==> step_of(m) == ClientStep::Echo(MessageType::NTP),
        m.msg_type == 2 <==> step_of(m) == ClientStep::ReportTimes,
        m.msg_type == 3 <==> step_of(m) == ClientStep::Echo(MessageType::PTP),
        m.msg_type == 4 <==> step_of(m) is AccumulateOffset,
        m.msg_type == 4 ==> step_of(m) == ClientStep::AccumulateOffset(m.i_val),
        m.msg_type == 5 <==> step_of(m) is Calculate,
        step_of(m) matches ClientStep::Calculate { launch_workload, last } ==> (launch_workload
            <==> m.seq == 0) && (last <==> m.seq == u64::MAX),
{
}

/// The bare message of type `t` with sequence number `seq`.
pub open spec fn bare_message(t: MessageType, seq: u64) -> Message {
    Message {
        timestamp: 0,
        first_u128: 0,
        second_u128: 0,
        i_val: 0,
        first_f64_bits: 0,
        second_f64_bits: 0,
        seq,
        msg_type: type_code(t),
    }
}

/// The echo of a synchronisation probe.
pub fn echo_reply(t: MessageType, seq: u64) -> (r: Vec<u8>)
    ensures
        r@ == message_layout(bare_message(t, seq)),
{
    encode_message(t, seq, 0, 0, 0, 0, 0, 0)
}

/// Times the client keeps between messages (ns, relative to its references).
#[derive(Clone, Copy, Debug, PartialEq, Eq, Structural)]
pub struct ClientState {
    /// Send time of the last check-phase reply.
    pub sent_time: u128,
    /// Send time of the last calculation reply.
    pub sent_time_calc: u128,
    /// Queueing time of the last calculation reply.
    pub queue_time_calc: u128,
    /// Sum of the offsets reported so far.
    pub difference: i128,
}

impl ClientState {
    /// No times known yet, no offset accumulated.
    pub fn new() -> (r: ClientState)
        ensures
            r.sent_time == 0 && r.sent_time_calc == 0 && r.queue_time_calc == 0 && r.difference == 0,
    {
        ClientState { sent_time: 0, sent_time_calc: 0, queue_time_calc: 0, difference: 0 }
    }

    /// The answer to check-phase message `seq`: the send time of the previous
    /// answer, the server's timestamp, and this message's arrival time.
    pub fn ntp_result_reply(&self, seq: u64, server_timestamp: u128, client_recv: u64) -> (r: Vec<
        u8,
    >)
        ensures
            r@ == message_layout(
                Message {
                    timestamp: self.sent_time,
                    first_u128: server_timestamp,
                    second_u128: client_recv as u128,
                    ..bare_message(MessageType::NtpResult, seq)
                },
            ),
    {
        encode_message(
            MessageType::NtpResult,
            seq,
            self.sent_time,
            server_timestamp,
            client_recv as u128,
            0,
            0,
            0,
        )
    }

    /// The answer to calculation message `seq`: the queueing and send times of
    /// the previous answer, this message's arrival time and the computed
    /// value (bit pattern `y_bits`).
    pub fn calc_reply(&self, seq: u64, client_recv: u64, y_bits: u64) -> (r: Vec<u8>)
        ensures
            r@ == message_layout(
                Message {
                    timestamp: self.queue_time_calc,
                    first_u128: client_recv as u128,
                    second_u128: self.sent_time_calc,
                    first_f64_bits: y_bits,
                    ..bare_message(MessageType::Calc, seq)
                },
            ),
    {
        encode_message(
            MessageType::Calc,
            seq,
            self.queue_time_calc,
            client_recv as u128,
            self.sent_time_calc,
            y_bits,
            0,
            0,
        )
    }

    /// Adds a reported offset.
    pub fn accumulate_offset(&mut self, i_val: i128)
        requires
            i128::MIN <= old(self).difference + i_val <= i128::MAX,
        ensures
            final(self).difference == old(self).difference + i_val,
            final(self).sent_time == old(self).sent_time,
            final(self).sent_time_calc == old(self).sent_time_calc,
            final(self).queue_time_calc == old(self).queue_time_calc,
    {
        self.difference = self.difference + i_val;
    }
}

} // verus!
