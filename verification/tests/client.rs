use timesync::client::{client_step, echo_reply, ClientState, ClientStep};
use timesync::protocol::{decode_message, encode_message, Message, MessageType};

fn msg(t: MessageType, seq: u64, i_val: i128) -> Message {
    decode_message(&encode_message(t, seq, 11, 0, 0, 0, 0, i_val)).unwrap()
}

#[test]
fn client_steps_per_type() {
    assert_eq!(client_step(&msg(MessageType::Start, 0, 0)), ClientStep::UnexpectedStart);
    assert_eq!(client_step(&msg(MessageType::NTP, 3, 0)), ClientStep::Echo(MessageType::NTP));
    assert_eq!(client_step(&msg(MessageType::PTP, 3, 0)), ClientStep::Echo(MessageType::PTP));
    assert_eq!(client_step(&msg(MessageType::NtpResult, 3, 0)), ClientStep::ReportTimes);
    assert_eq!(client_step(&msg(MessageType::PtpResult, 3, -8)), ClientStep::AccumulateOffset(-8));
    assert_eq!(
        client_step(&msg(MessageType::Calc, 0, 0)),
        ClientStep::Calculate { launch_workload: true, last: false }
    );
    assert_eq!(
        client_step(&msg(MessageType::Calc, u64::MAX, 0)),
        ClientStep::Calculate { launch_workload: false, last: true }
    );
    assert_eq!(
        client_step(&msg(MessageType::Calc, 17, 0)),
        ClientStep::Calculate { launch_workload: false, last: false }
    );
}

#[test]
fn echo_reply_is_bare() {
    let m = decode_message(&echo_reply(MessageType::PTP, 5)).unwrap();
    assert_eq!(m.msg_type, 3);
    assert_eq!(m.seq, 5);
    assert_eq!(m.timestamp, 0);
}

#[test]
fn ntp_result_reply_carries_times() {
    let mut c = ClientState::new();
    c.sent_time = 400;
    let m = decode_message(&c.ntp_result_reply(8, 1234, 999)).unwrap();
    assert_eq!((m.msg_type, m.seq, m.timestamp, m.first_u128, m.second_u128), (2, 8, 400, 1234, 999));
}

#[test]
fn calc_reply_carries_times_and_value() {
    let mut c = ClientState::new();
    c.queue_time_calc = 10;
    c.sent_time_calc = 20;
    let y = 2.5f64;
    let m = decode_message(&c.calc_reply(6, 15, y.to_bits())).unwrap();
    assert_eq!((m.msg_type, m.seq, m.timestamp, m.first_u128, m.second_u128), (5, 6, 10, 15, 20));
    assert_eq!(f64::from_bits(m.first_f64_bits), 2.5);
}

#[test]
fn offsets_accumulate() {
    let mut c = ClientState::new();
    c.accumulate_offset(5);
    c.accumulate_offset(-12);
    assert_eq!(c.difference, -7);
}
