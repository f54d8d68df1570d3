//! Connection settings derived from the configuration.

use vstd::prelude::*;

verus! {

/// The two UDP protocols.
#[derive(Debug, PartialEq, Eq, Structural, Clone, Copy)]
pub enum UdpProtocol {
    /// The custom SVLED protocol, answered by the controller.
    Svled,
    /// WLED DNRGB realtime, never answered.
    WledDnrgb,
}

/// Local UDP port to bind: the custom controller answers to the configured
/// port, while WLED sends nothing back, so any ephemeral port (0) will do.
pub fn udp_bind_port(protocol: UdpProtocol, port: i32) -> (bind_port: i32)
    ensures
        bind_port == (match protocol {
            UdpProtocol::Svled => port,
            UdpProtocol::WledDnrgb => 0,
        }),
{
    match protocol {
        UdpProtocol::Svled => port,
        UdpProtocol::WledDnrgb => 0,
    }
}

/// UDP reply timeout in milliseconds when none is configured.
pub const DEFAULT_UDP_READ_TIMEOUT_MS: u32 = 5;

/// The longest UDP reply timeout, in milliseconds, whose nanoseconds fit in a `u32`.
pub const MAX_UDP_READ_TIMEOUT_MS: u32 = 4294;

/// Nanoseconds to wait for a UDP reply: the configured milliseconds (5 when
/// none is configured) times one million.
pub fn udp_read_timeout_nanos(timeout_ms: Option<u32>) -> (nanos: u32)
    requires
        timeout_ms matches Some(t) ==> t <= MAX_UDP_READ_TIMEOUT_MS,
    ensures
        nanos == (match timeout_ms {
            Some(t) => t,
            None => DEFAULT_UDP_READ_TIMEOUT_MS,
        }) * 1_000_000,
{
    timeout_ms.unwrap_or(DEFAULT_UDP_READ_TIMEOUT_MS) * 1_000_000
}

/// Serial read timeout in milliseconds when none is configured.
pub const DEFAULT_SERIAL_TIMEOUT_MS: u32 = 200;

/// Read timeout of a serial port: the configured milliseconds, else 200.
pub fn serial_timeout_ms(timeout_ms: Option<u32>) -> (millis: u64)
    ensures
        millis == (match timeout_ms {
            Some(t) => t,
            None => DEFAULT_SERIAL_TIMEOUT_MS,
        }),
{
    timeout_ms.unwrap_or(DEFAULT_SERIAL_TIMEOUT_MS) as u64
}

/// Capacity of a serial worker queue when none is configured.
pub const DEFAULT_QUEUE_SIZE: usize = 20;

/// Capacity of each serial worker queue: the configured size, else 20.
pub fn queue_capacity(queue_size: Option<usize>) -> (capacity: usize)
    ensures
        capacity == (match queue_size {
            Some(q) => q,
            None => DEFAULT_QUEUE_SIZE,
        }),
{
    queue_size.unwrap_or(DEFAULT_QUEUE_SIZE)
}

/// Whether the plain and the controller recordings are written for a command.
/// When the game engine controls recording, the presence of its marker files
/// decides; otherwise the configuration does.
pub fn recording_flags(
    engine_controls_recording: bool,
    start_marker_exists: bool,
    start_byte_marker_exists: bool,
    record_data: bool,
    record_esp_data: bool,
) -> (flags: (bool, bool))
    ensures
        flags == (if engine_controls_recording {
            (start_marker_exists, start_byte_marker_exists)
        } else {
            (record_data, record_esp_data)
        }),
{
    if engine_controls_recording {
        (start_marker_exists, start_byte_marker_exists)
    } else {
        (record_data, record_esp_data)
    }
}

} // verus!
