use dedich32::aux_protocol::{
    encode, payload, CMD_GPIO_GET_STATE, CMD_GPIO_PULSE_LOW, CMD_GPIO_SET_DIRECTION,
    CMD_GPIO_SET_OUTPUT, CMD_UART_SET_BAUD, CMD_UART_WRITE, EVT_RESPONSE, EVT_UART_DATA,
    MAX_PAYLOAD_LEN, PACKET_LEN, STATUS_BUSY, STATUS_INVALID, STATUS_OK,
};
use dedich32::aux_usb::{decide, encode_response, AuxAction, UartBatcher};

#[test]
fn payload_reads_announced_length() {
    let packet = [0x11, 7, 3, 0xAA, 0xBB, 0xCC, 0xDD];
    assert_eq!(payload(&packet), Some(&[0xAA, 0xBB, 0xCC][..]));
}

#[test]
fn payload_empty() {
    let packet = [0x01, 0, 0];
    assert_eq!(payload(&packet), Some(&[][..]));
}

#[test]
fn payload_rejects_short_header() {
    assert_eq!(payload(&[0x01, 0]), None);
    assert_eq!(payload(&[]), None);
}

#[test]
fn payload_rejects_truncated_payload() {
    let packet = [0x11, 7, 4, 0xAA, 0xBB, 0xCC];
    assert_eq!(payload(&packet), None);
}

#[test]
fn encode_frames_payload() {
    let mut packet = [0xEEu8; PACKET_LEN];
    let out = encode(&mut packet, EVT_RESPONSE, 9, &[1, 2, 3]).map(|b| b.to_vec());
    assert_eq!(out, Some(vec![EVT_RESPONSE, 9, 3, 1, 2, 3]));
    assert_eq!(packet[6], 0xEE);
}

#[test]
fn encode_rejects_oversized_payload() {
    let mut packet = [0xEEu8; PACKET_LEN];
    let big = [0u8; MAX_PAYLOAD_LEN + 1];
    assert!(encode(&mut packet, EVT_RESPONSE, 9, &big).is_none());
    assert_eq!(packet, [0xEEu8; PACKET_LEN]);
}

#[test]
fn encode_full_payload() {
    let mut packet = [0u8; PACKET_LEN];
    let data = [0x5Au8; MAX_PAYLOAD_LEN];
    let out = encode(&mut packet, EVT_UART_DATA, 0, &data).map(|b| b.len());
    assert_eq!(out, Some(PACKET_LEN));
}

#[test]
fn encode_then_payload_roundtrip() {
    let mut packet = [0u8; PACKET_LEN];
    let data = [9u8, 8, 7, 6];
    let framed = encode(&mut packet, 0x42, 3, &data).unwrap().to_vec();
    assert_eq!(payload(&framed), Some(&data[..]));
    assert_eq!(payload(&packet), Some(&data[..]));
}

#[test]
fn decide_get_state() {
    let d = decide(&[CMD_GPIO_GET_STATE, 5, 0], 0).unwrap();
    assert_eq!(d.status, STATUS_OK);
    assert!(matches!(d.action, AuxAction::NoOp));
    assert!(d.respond);
    assert!(d.report_gpio_state);
}

#[test]
fn decide_get_state_with_data_is_invalid() {
    let d = decide(&[CMD_GPIO_GET_STATE, 5, 1, 0], 0).unwrap();
    assert_eq!(d.status, STATUS_INVALID);
    assert!(!d.report_gpio_state);
}

#[test]
fn decide_set_direction() {
    let d = decide(&[CMD_GPIO_SET_DIRECTION, 0, 2, 0x03, 0x01], 0).unwrap();
    assert_eq!(d.status, STATUS_OK);
    assert!(matches!(d.action, AuxAction::SetDirection { mask: 0x03, direction: 0x01 }));
    assert!(!d.respond);
}

#[test]
fn decide_set_output() {
    let d = decide(&[CMD_GPIO_SET_OUTPUT, 1, 2, 0x02, 0x00], 0).unwrap();
    assert!(matches!(d.action, AuxAction::SetOutput { mask: 0x02, value: 0x00 }));
}

#[test]
fn decide_pulse_low_little_endian_duration() {
    let d = decide(&[CMD_GPIO_PULSE_LOW, 1, 3, 0x01, 0xF4, 0x01], 0).unwrap();
    assert!(matches!(d.action, AuxAction::PulseLow { mask: 0x01, duration_ms: 500 }));
}

#[test]
fn decide_baud_in_range() {
    let d = decide(&[CMD_UART_SET_BAUD, 1, 4, 0x00, 0xC2, 0x01, 0x00], 0).unwrap();
    assert!(matches!(d.action, AuxAction::SetBaud { baudrate: 115200 }));
}

#[test]
fn decide_baud_clamped_low_and_high() {
    let low = decide(&[CMD_UART_SET_BAUD, 1, 4, 10, 0, 0, 0], 0).unwrap();
    assert!(matches!(low.action, AuxAction::SetBaud { baudrate: 300 }));
    let high = decide(&[CMD_UART_SET_BAUD, 1, 4, 0xFF, 0xFF, 0xFF, 0xFF], 0).unwrap();
    assert!(matches!(high.action, AuxAction::SetBaud { baudrate: 3_000_000 }));
}

#[test]
fn decide_uart_write_fits() {
    let d = decide(&[CMD_UART_WRITE, 4, 3, b'a', b'b', b'c'], 3).unwrap();
    assert_eq!(d.status, STATUS_OK);
    match d.action {
        AuxAction::UartWrite { data } => assert_eq!(data, vec![b'a', b'b', b'c']),
        _ => panic!("expected a UART write"),
    }
    assert!(!d.report_gpio_state);
}

#[test]
fn decide_uart_write_busy() {
    let d = decide(&[CMD_UART_WRITE, 4, 3, b'a', b'b', b'c'], 2).unwrap();
    assert_eq!(d.status, STATUS_BUSY);
    assert!(matches!(d.action, AuxAction::NoOp));
}

#[test]
fn decide_unknown_command() {
    let d = decide(&[0x77, 4, 0], 100).unwrap();
    assert_eq!(d.status, STATUS_INVALID);
    assert!(matches!(d.action, AuxAction::NoOp));
}

#[test]
fn decide_ignores_truncated_packet() {
    assert!(decide(&[CMD_UART_WRITE, 4, 3, b'a'], 100).is_none());
}

#[test]
fn response_frame_with_state() {
    let mut packet = [0u8; PACKET_LEN];
    let bytes = encode_response(&mut packet, 7, CMD_GPIO_GET_STATE, STATUS_OK, &[0x0F, 0x03]);
    assert_eq!(bytes, &[EVT_RESPONSE, 7, 4, CMD_GPIO_GET_STATE, STATUS_OK, 0x0F, 0x03][..]);
}

#[test]
fn response_truncates_long_data() {
    let mut packet = [0u8; PACKET_LEN];
    let data = [1u8; 80];
    let bytes = encode_response(&mut packet, 7, 0x11, STATUS_OK, &data);
    assert_eq!(bytes.len(), PACKET_LEN);
    assert_eq!(bytes[2], 61);
}

#[test]
fn batcher_arms_deadline_on_first_byte() {
    let mut b = UartBatcher::new();
    let mut packet = [0u8; PACKET_LEN];
    assert!(b.push(b'x', 5_000, &mut packet).is_none());
    assert_eq!(b.deadline(), Some(6_000));
    assert!(b.push(b'y', 5_500, &mut packet).is_none());
    assert_eq!(b.deadline(), Some(6_000));
    let sent = b.flush(&mut packet).map(|s| s.to_vec());
    assert_eq!(sent, Some(vec![EVT_UART_DATA, 0, 2, b'x', b'y']));
    assert_eq!(b.deadline(), None);
    assert!(b.flush(&mut packet).is_none());
}

#[test]
fn batcher_sends_full_packet() {
    let mut b = UartBatcher::new();
    let mut packet = [0u8; PACKET_LEN];
    for i in 0..(MAX_PAYLOAD_LEN - 1) {
        assert!(b.push(i as u8, 10, &mut packet).is_none());
    }
    let sent = b.push(0xFF, 20, &mut packet).map(|s| s.to_vec()).unwrap();
    assert_eq!(sent.len(), PACKET_LEN);
    assert_eq!(&sent[..3], &[EVT_UART_DATA, 0, MAX_PAYLOAD_LEN as u8]);
    assert_eq!(sent[3], 0);
    assert_eq!(sent[PACKET_LEN - 1], 0xFF);
    assert_eq!(b.deadline(), None);
    assert!(b.flush(&mut packet).is_none());
}

#[test]
fn batcher_keeps_order_across_packets() {
    let mut b = UartBatcher::new();
    let mut packet = [0u8; PACKET_LEN];
    let mut forwarded = Vec::new();
    for i in 0..150u32 {
        if let Some(s) = b.push(i as u8, 0, &mut packet) {
            forwarded.extend_from_slice(&s[3..]);
        }
    }
    if let Some(s) = b.flush(&mut packet) {
        forwarded.extend_from_slice(&s[3..]);
    }
    let expected: Vec<u8> = (0..150u32).map(|i| i as u8).collect();
    assert_eq!(forwarded, expected);
}

#[test]
fn batcher_order_with_timer_flushes() {
    let mut b = UartBatcher::new();
    let mut packet = [0u8; PACKET_LEN];
    let mut forwarded = Vec::new();
    for i in 0..200u32 {
        if let Some(s) = b.push(i as u8, 0, &mut packet) {
            forwarded.extend_from_slice(&s[3..]);
        }
        if i % 7 == 3 {
            if let Some(s) = b.flush(&mut packet) {
                assert!(s.len() > 3);
                forwarded.extend_from_slice(&s[3..]);
            }
        }
    }
    if let Some(s) = b.flush(&mut packet) {
        forwarded.extend_from_slice(&s[3..]);
    }
    let expected: Vec<u8> = (0..200u32).map(|i| i as u8).collect();
    assert_eq!(forwarded, expected);
}
