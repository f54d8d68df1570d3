use svled::speedtest::{random_write, write_from_draw};
use svled::transport::{
    queue_capacity, recording_flags, serial_timeout_ms, udp_bind_port, udp_read_timeout_nanos,
    UdpProtocol,
};

#[test]
fn bind_port_per_protocol() {
    assert_eq!(udp_bind_port(UdpProtocol::Svled, 8888), 8888);
    assert_eq!(udp_bind_port(UdpProtocol::WledDnrgb, 21324), 0);
}

#[test]
fn defaults_and_configured_timeouts() {
    assert_eq!(udp_read_timeout_nanos(None), 5_000_000);
    assert_eq!(udp_read_timeout_nanos(Some(40)), 40_000_000);
    assert_eq!(serial_timeout_ms(None), 200);
    assert_eq!(serial_timeout_ms(Some(7)), 7);
    assert_eq!(queue_capacity(None), 20);
    assert_eq!(queue_capacity(Some(3)), 3);
}

#[test]
fn recording_flags_follow_markers_or_config() {
    assert_eq!(recording_flags(true, true, false, false, true), (true, false));
    assert_eq!(recording_flags(false, true, false, false, true), (false, true));
}

#[test]
fn random_writes_stay_below_led_count() {
    let mut rng = rand::rng();
    for _ in 0..200 {
        assert_eq!(random_write(&mut rng, 1).0, 0);
        let (n, _, _, _) = random_write(&mut rng, 3);
        assert!(n < 3);
    }
}

#[test]
fn drawn_led_number_is_narrowed_to_sixteen_bits() {
    assert_eq!(write_from_draw(7, 1, 2, 3), (7, 1, 2, 3));
    assert_eq!(write_from_draw(65_535, 0, 0, 0), (65_535, 0, 0, 0));
    assert_eq!(write_from_draw(65_536, 9, 8, 7), (0, 9, 8, 7));
    assert_eq!(write_from_draw(65_537, 9, 8, 7), (1, 9, 8, 7));
}
