use bibi_sync::uart::{calculate_checksum, encode_frame, process_buffer, try_parse_frame, SYNC_BYTE};
use bibi_sync::{MsgType, TopicRegistry};

#[test]
fn test_msg_type_conversion() {
    assert_eq!(MsgType::from_u8(0x01), Some(MsgType::Imu));
    assert_eq!(MsgType::from_u8(0x02), Some(MsgType::Depth));
    assert_eq!(MsgType::from_u8(0xFF), None);
}

#[test]
fn test_topic_names() {
    assert_eq!(MsgType::Imu.to_topic_name(), "/stm32/imu");
    assert_eq!(MsgType::Depth.to_topic_name(), "/stm32/depth");
}

#[test]
fn test_checksum() {
    let data = [0x01, 0x05, 0xAB, 0xCD];
    let checksum = calculate_checksum(&data);
    assert_eq!(checksum, 0x01u8.wrapping_add(0x05).wrapping_add(0xAB).wrapping_add(0xCD));
}

#[test]
fn checksum_wraps() {
    assert_eq!(calculate_checksum(&[]), 0);
    assert_eq!(calculate_checksum(&[0xFF, 0x02]), 0x01);
}

#[test]
fn encode_frame_layout() {
    let frame = encode_frame(MsgType::Depth, &[0x10, 0x20]).unwrap();
    assert_eq!(frame, vec![SYNC_BYTE, 0x02, 0x02, 0x10, 0x20, 0x34]);
    assert!(encode_frame(MsgType::Ack, &vec![0u8; 245]).is_none());
    assert_eq!(encode_frame(MsgType::Ack, &vec![1u8; 244]).unwrap().len(), 248);
}

#[test]
fn parse_skips_garbage_and_takes_frame() {
    let mut rx = vec![0x00, 0x13];
    rx.extend(encode_frame(MsgType::Imu, &[1, 2, 3]).unwrap());
    rx.push(0x77);
    let frame = try_parse_frame(&mut rx).unwrap();
    assert_eq!(frame.msg_type, MsgType::Imu);
    assert_eq!(frame.payload, vec![1, 2, 3]);
    assert_eq!(rx, vec![0x77]);
}

#[test]
fn parse_waits_for_incomplete_frame() {
    let full = encode_frame(MsgType::Heartbeat, &[9, 9, 9]).unwrap();
    let mut rx = full[..5].to_vec();
    assert!(try_parse_frame(&mut rx).is_none());
    assert_eq!(rx, full[..5].to_vec());
    rx.extend_from_slice(&full[5..]);
    let frame = try_parse_frame(&mut rx).unwrap();
    assert_eq!(frame.msg_type, MsgType::Heartbeat);
    assert!(rx.is_empty());
}

#[test]
fn parse_drops_leading_byte_of_bad_frames() {
    let mut bad_sum = encode_frame(MsgType::Imu, &[1]).unwrap();
    bad_sum[4] ^= 0xFF;
    let mut rx = bad_sum.clone();
    assert!(try_parse_frame(&mut rx).is_none());
    assert_eq!(rx, bad_sum[1..].to_vec());

    let mut rx = vec![SYNC_BYTE, 0x01, 245, 0, 0, 0];
    assert!(try_parse_frame(&mut rx).is_none());
    assert_eq!(rx, vec![0x01, 245, 0, 0, 0]);

    let mut rx = vec![SYNC_BYTE, 0x07, 0x00, 0x07];
    assert!(try_parse_frame(&mut rx).is_none());
    assert_eq!(rx, vec![0x07, 0x00, 0x07]);
}

#[test]
fn parse_ignores_short_or_unsynced_input() {
    let mut rx = vec![SYNC_BYTE, 1, 0];
    assert!(try_parse_frame(&mut rx).is_none());
    assert_eq!(rx.len(), 3);
    let mut rx = vec![1, 2, 3, 4, 5];
    assert!(try_parse_frame(&mut rx).is_none());
    assert_eq!(rx, vec![1, 2, 3, 4, 5]);
}

#[test]
fn process_buffer_publishes_frames() {
    let mut registry = TopicRegistry::new();
    let mut rx = encode_frame(MsgType::Imu, &[1, 2]).unwrap();
    rx.extend(encode_frame(MsgType::Depth, &[3]).unwrap());
    rx.extend(encode_frame(MsgType::Imu, &[4]).unwrap());
    assert_eq!(process_buffer(&mut rx, &mut registry), 3);
    assert!(rx.is_empty());
    let imu = registry.get_or_create_byte("/stm32/imu", 1);
    assert_eq!(imu.capacity(), 32);
    assert_eq!(imu.try_receive(), Some((vec![1, 2], 1)));
    assert_eq!(imu.try_receive(), Some((vec![4], 2)));
    let depth = registry.get_or_create_byte("/stm32/depth", 1);
    assert_eq!(depth.try_receive(), Some((vec![3], 1)));
    assert_eq!(registry.topic_count(), 2);
}
