use svled::protocol::{
    serial_color_packet, svled_udp_color_packet, wled_dnrgb_color_packet, SERIAL_PACKET_START,
};

#[test]
fn preserves_hardware_tested_serial_layout() {
    assert_eq!(
        serial_color_packet(0x1234, 0x56, 0x78, 0x9A),
        [0xFF, 0xBB, 0x34, 0x12, 0x56, 0x78, 0x9A]
    );
}

#[test]
fn preserves_legacy_svled_udp_layout() {
    assert_eq!(
        svled_udp_color_packet(0x1234, 0x56, 0x78, 0x9A),
        [0x34, 0x12, 0x56, 0x78, 0x9A]
    );
}

#[test]
fn encodes_wled_dnrgb_layout() {
    assert_eq!(
        wled_dnrgb_color_packet(0x1234, [0x56, 0x78, 0x9A], [0xAB, 0xCD, 0xEF]),
        [4, 2, 0x12, 0x34, 0x56, 0x78, 0x9A, 0xAB, 0xCD, 0xEF]
    );
}

#[test]
fn serial_packet_opens_with_start_marker() {
    let packet = serial_color_packet(0, 0, 0, 0);
    assert_eq!(packet[..2], SERIAL_PACKET_START);
    assert_eq!(packet, [0xFF, 0xBB, 0, 0, 0, 0, 0]);
}

#[test]
fn serial_index_reads_back_on_both_sides_of_255() {
    for index in [0u16, 254, 255, 256, 257, u16::MAX] {
        let packet = serial_color_packet(index, 1, 2, 3);
        assert_eq!(u16::from(packet[2]) + 256 * u16::from(packet[3]), index);
        assert_eq!(packet[4..], [1, 2, 3]);
    }
}

#[test]
fn udp_index_reads_back_low_byte_first() {
    let packet = svled_udp_color_packet(256, 9, 8, 7);
    assert_eq!(packet, [0x00, 0x01, 9, 8, 7]);
    let packet = svled_udp_color_packet(255, 9, 8, 7);
    assert_eq!(packet, [0xFF, 0x00, 9, 8, 7]);
}

#[test]
fn wled_index_reads_back_high_byte_first() {
    for index in [0u16, 255, 256, 0xABCD] {
        let packet = wled_dnrgb_color_packet(index, [1, 2, 3], [4, 5, 6]);
        assert_eq!(256 * u16::from(packet[2]) + u16::from(packet[3]), index);
    }
    assert_eq!(
        wled_dnrgb_color_packet(256, [1, 2, 3], [4, 5, 6]),
        [4, 2, 0x01, 0x00, 1, 2, 3, 4, 5, 6]
    );
}
