use svled::routing::{direct_serial_route, plan_command, queued_serial_route, Dispatch, RouteConfig};

fn config(mode: i8, num_led: u32, num_strips: u32, use_queue: Option<bool>) -> RouteConfig {
    RouteConfig { communication_mode: mode, num_led, num_strips, use_queue, no_controller: None }
}

#[test]
fn queued_and_direct_routes_agree() {
    for n in 0u16..300 {
        assert_eq!(queued_serial_route(n, 300, 3), direct_serial_route(n, 300, 3));
        assert_eq!(queued_serial_route(n, 301, 7), direct_serial_route(n, 301, 7));
    }
}

#[test]
fn partition_boundary_between_controllers() {
    // 300 LEDs over 3 controllers: 100 each.
    assert_eq!(direct_serial_route(99, 300, 3), (0, 99));
    assert_eq!(direct_serial_route(100, 300, 3), (1, 0));
    assert_eq!(queued_serial_route(199, 300, 3), (1, 99));
    assert_eq!(queued_serial_route(200, 300, 3), (2, 0));
}

#[test]
fn plan_without_controller_sends_nothing() {
    let mut cfg = config(2, 10, 0, None);
    cfg.no_controller = Some(true);
    assert_eq!(plan_command(&cfg, 3), Dispatch::NoController);
}

#[test]
fn plan_ignores_out_of_range_index() {
    let cfg = config(2, 10, 2, None);
    assert_eq!(plan_command(&cfg, 10), Dispatch::OutOfRange);
    assert_eq!(plan_command(&cfg, 65535), Dispatch::OutOfRange);
}

#[test]
fn plan_routes_serial_direct_and_queued() {
    let cfg = config(2, 10, 3, None);
    assert_eq!(plan_command(&cfg, 7), Dispatch::DirectSerial { controller: 2, local: 1 });
    let cfg = config(2, 10, 3, Some(true));
    assert_eq!(plan_command(&cfg, 7), Dispatch::QueuedSerial { controller: 2, local: 1 });
    let cfg = config(2, 10, 3, Some(false));
    assert_eq!(plan_command(&cfg, 4), Dispatch::DirectSerial { controller: 1, local: 1 });
}

#[test]
fn plan_routes_udp_modes_by_index() {
    // The queue is serial-only: UDP modes ignore it.
    assert_eq!(plan_command(&config(1, 10, 1, Some(true)), 9), Dispatch::SvledUdp { index: 9 });
    assert_eq!(plan_command(&config(3, 10, 1, None), 0), Dispatch::Wled { index: 0 });
}
