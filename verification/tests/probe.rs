use timesync::probe::{
    decode_probe_message, encode_probe_message, probe_step, ProbeMessage, ProbeStep, ProbeType,
    PROBE_MESSAGE_SIZE,
};

#[test]
fn probe_message_layout() {
    let b = encode_probe_message(ProbeType::NtpResult, 3, 0xdead_beef);
    assert_eq!(b.len(), PROBE_MESSAGE_SIZE);
    assert_eq!(&b[0..16], &0xdead_beefu128.to_le_bytes());
    assert_eq!(&b[16..24], &3u64.to_le_bytes());
    assert_eq!(b[24], 2);
    assert_eq!(&b[25..32], &[0u8; 7]);
}

#[test]
fn probe_roundtrip() {
    let b = encode_probe_message(ProbeType::NTP, u64::MAX, u128::MAX);
    assert_eq!(
        decode_probe_message(&b),
        Some(ProbeMessage { timestamp: u128::MAX, seq: u64::MAX, msg_type: 1 })
    );
}

#[test]
fn probe_rejects_wrong_size() {
    assert_eq!(decode_probe_message(&[0u8; 31]), None);
    assert_eq!(decode_probe_message(&[0u8; 96]), None);
}

#[test]
fn probe_type_codes() {
    assert_eq!(ProbeType::Start.code(), 0);
    assert_eq!(ProbeType::from_code(1), ProbeType::NTP);
    assert_eq!(ProbeType::from_code(2), ProbeType::NtpResult);
}

#[test]
fn probe_steps() {
    let ntp = ProbeMessage { timestamp: 0, seq: 1, msg_type: 1 };
    assert_eq!(probe_step(&ntp, 77, None), ProbeStep::EchoNtp(77));
    let res = ProbeMessage { timestamp: 0, seq: 1, msg_type: 2 };
    assert_eq!(probe_step(&res, 77, Some(5)), ProbeStep::ReportArrival(5));
    assert_eq!(probe_step(&res, 77, None), ProbeStep::Ignore);
    let start = ProbeMessage { timestamp: 0, seq: 0, msg_type: 0 };
    assert_eq!(probe_step(&start, 77, Some(5)), ProbeStep::Ignore);
}
