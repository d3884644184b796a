use timesync::protocol::{decode_message, encode_message, Message, MessageType, MESSAGE_SIZE};

fn sample() -> Message {
    Message {
        timestamp: 0x0102_0304_0506_0708_090a_0b0c_0d0e_0f10,
        first_u128: 7,
        second_u128: u128::MAX,
        i_val: -2,
        first_f64_bits: 1.5f64.to_bits(),
        second_f64_bits: 10.0f64.to_bits(),
        seq: 42,
        msg_type: 5,
    }
}

#[test]
fn message_size_is_96() {
    assert_eq!(MESSAGE_SIZE, 96);
    assert_eq!(sample().to_bytes().len(), 96);
}

#[test]
fn message_layout_offsets_are_little_endian() {
    let m = sample();
    let b = m.to_bytes();
    assert_eq!(&b[0..16], &m.timestamp.to_le_bytes());
    assert_eq!(&b[16..32], &7u128.to_le_bytes());
    assert_eq!(&b[32..48], &[0xffu8; 16]);
    assert_eq!(&b[48..64], &(-2i128).to_le_bytes());
    assert_eq!(&b[64..72], &1.5f64.to_le_bytes());
    assert_eq!(&b[72..80], &10.0f64.to_le_bytes());
    assert_eq!(&b[80..88], &42u64.to_le_bytes());
    assert_eq!(b[88], 5);
    assert_eq!(&b[89..96], &[0u8; 7]);
}

#[test]
fn message_roundtrip_gives_message_back() {
    let m = sample();
    assert_eq!(decode_message(&m.to_bytes()), Some(m));
}

#[test]
fn layout_roundtrip_gives_bytes_back() {
    let mut b = [0u8; 96];
    for (i, x) in b.iter_mut().enumerate().take(89) {
        *x = (i as u8).wrapping_mul(37).wrapping_add(11);
    }
    let m = decode_message(&b).unwrap();
    assert_eq!(m.to_bytes(), b.to_vec());
}

#[test]
fn decode_ignores_padding() {
    let mut b = sample().to_bytes();
    b[90] = 0xaa;
    assert_eq!(decode_message(&b), Some(sample()));
}

#[test]
fn decode_rejects_wrong_sizes() {
    assert_eq!(decode_message(&[0u8; 95]), None);
    assert_eq!(decode_message(&[0u8; 97]), None);
    assert_eq!(decode_message(&[]), None);
}

#[test]
fn encode_message_fills_fields() {
    let b = encode_message(MessageType::NtpResult, 9, 100, 200, 300, 0, 0, 0);
    let m = decode_message(&b).unwrap();
    assert_eq!(m.msg_type, 2);
    assert_eq!(m.seq, 9);
    assert_eq!(m.timestamp, 100);
    assert_eq!(m.first_u128, 200);
    assert_eq!(m.second_u128, 300);
    assert_eq!(m.i_val, 0);
}

#[test]
fn start_message_is_all_zero() {
    let b = encode_message(MessageType::Start, 0, 0, 0, 0, 0, 0, 0);
    assert_eq!(b, vec![0u8; 96]);
}

#[test]
fn negative_i_val_is_twos_complement() {
    let b = encode_message(MessageType::PtpResult, 1, 0, 0, 0, 0, 0, i128::MIN);
    assert_eq!(&b[48..64], &i128::MIN.to_le_bytes());
    assert_eq!(decode_message(&b).unwrap().i_val, i128::MIN);
}

#[test]
fn type_codes_roundtrip() {
    let all = [
        MessageType::Start,
        MessageType::NTP,
        MessageType::NtpResult,
        MessageType::PTP,
        MessageType::PtpResult,
        MessageType::Calc,
    ];
    for (i, t) in all.iter().enumerate() {
        assert_eq!(t.code(), i as u8);
        assert_eq!(MessageType::from_code(i as u8), *t);
        assert_eq!(MessageType::decode(i as u8), Some(*t));
    }
}

#[test]
fn unknown_type_code_is_rejected() {
    assert_eq!(MessageType::decode(6), None);
    assert_eq!(MessageType::decode(255), None);
}
