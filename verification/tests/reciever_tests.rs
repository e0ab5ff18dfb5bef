use traffic_monitor::packet_reciever::{
    handle_packet, next_sequence, FrameDecodeError, PacketHandler,
};

#[test]
fn decodes_addresses_from_a_real_frame() {
    // destination 00:23:69:63:59:be, source e4:b3:18:26:63:a3, IPv4 ethertype
    let frame: Vec<u8> = vec![
        0x00, 0x23, 0x69, 0x63, 0x59, 0xbe, 0xe4, 0xb3, 0x18, 0x26, 0x63, 0xa3, 0x08, 0x00,
    ];
    let pd = handle_packet(&frame, 1234, 60, 7).expect("a 14-byte frame decodes");
    assert_eq!(pd.packet_number, 7);
    assert_eq!(pd.packet_seconds, 1234);
    assert_eq!(pd.size, 60);
    assert_eq!(pd.ethernet_destination, 0x0023_6963_59be);
    assert_eq!(pd.ethernet_source, 0xe4b3_1826_63a3);
}

#[test]
fn longer_frames_decode_from_the_header_alone() {
    let mut frame: Vec<u8> = vec![0; 64];
    frame[5] = 0x01;
    frame[6] = 0xff;
    let pd = handle_packet(&frame, 0, 64, 0).expect("a long frame decodes");
    assert_eq!(pd.ethernet_destination, 0x0000_0000_0001);
    assert_eq!(pd.ethernet_source, 0xff00_0000_0000);
}

#[test]
fn short_frames_are_rejected() {
    let frame: Vec<u8> = vec![0xab; 13];
    assert_eq!(handle_packet(&frame, 0, 13, 0), Err(FrameDecodeError::FrameTooShort));
    let empty: Vec<u8> = Vec::new();
    assert_eq!(handle_packet(&empty, 0, 0, 0), Err(FrameDecodeError::FrameTooShort));
}

#[test]
fn statistics_snapshots_fire_on_the_two_second_boundary() {
    let mut handler = PacketHandler::new();
    assert!(!handler.should_statistics(2)); // 2 > 0 + 2 is false
    assert!(handler.should_statistics(3)); // 3 > 0 + 2: fire, watermark moves to 3
    assert!(!handler.should_statistics(5)); // 5 > 3 + 2 is false
    assert!(handler.should_statistics(6)); // 6 > 3 + 2: fire
    assert_eq!(handler.rate_last_start, 6);
}

#[test]
fn sequence_numbers_grow_until_the_fatal_bound() {
    assert_eq!(next_sequence(0), Ok(1));
    assert_eq!(next_sequence(41), Ok(42));
    assert_eq!(next_sequence(u64::MAX - 2), Ok(u64::MAX - 1));
    assert!(next_sequence(u64::MAX - 1).is_err());
    assert!(next_sequence(u64::MAX).is_err());
}
