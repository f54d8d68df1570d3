//! Wire formats shared by the controller transports.
//!
//! The custom serial and UDP layouts are hardware-tested legacy protocols and
//! must stay byte-for-byte stable. WLED uses its documented DNRGB realtime
//! format and is a separate communication mode.

use vstd::prelude::*;

verus! {

pub const COMMUNICATION_MODE_SVLED_UDP: i8 = 1;

pub const COMMUNICATION_MODE_SERIAL: i8 = 2;

pub const COMMUNICATION_MODE_WLED: i8 = 3;

pub const DEFAULT_SVLED_UDP_PORT: i32 = 8888;

pub const DEFAULT_WLED_UDP_PORT: i32 = 21324;

pub const DEFAULT_SERIAL_BAUD_RATE: u32 = 921_600;

/// The two-byte marker that opens every serial colour command.
pub const SERIAL_PACKET_START: [u8; 2] = [0xFF, 0xBB];

pub const WLED_DNRGB_PROTOCOL: u8 = 4;

pub const WLED_REALTIME_TIMEOUT_SECONDS: u8 = 2;

/// Low byte of a 16-bit LED index.
pub open spec fn index_low(index: u16) -> u8 {
    (index % 256) as u8
}

/// High byte of a 16-bit LED index.
pub open spec fn index_high(index: u16) -> u8 {
    (index / 256) as u8
}

/// `0xFF 0xBB index-low index-high red green blue`
pub open spec fn spec_serial_color_packet(index: u16, r: u8, g: u8, b: u8) -> Seq<u8> {
    seq![
        SERIAL_PACKET_START[0],
        SERIAL_PACKET_START[1],
        index_low(index),
        index_high(index),
        r,
        g,
        b,
    ]
}

/// `index-low index-high red green blue`
pub open spec fn spec_svled_udp_color_packet(index: u16, r: u8, g: u8, b: u8) -> Seq<u8> {
    seq![index_low(index), index_high(index), r, g, b]
}

/// WLED DNRGB: protocol, timeout, start index (big endian), then two pixels.
pub open spec fn spec_wled_dnrgb_color_packet(index: u16, first: [u8; 3], second: [u8; 3]) -> Seq<u8> {
    seq![
        WLED_DNRGB_PROTOCOL,
        WLED_REALTIME_TIMEOUT_SECONDS,
        index_high(index),
        index_low(index),
        first[0],
        first[1],
        first[2],
        second[0],
        second[1],
        second[2],
    ]
}

/// The serial command opens with `0xFF 0xBB`, carries the index low byte
/// first, then the colour; the index reads back exactly.
pub proof fn lemma_serial_packet_reads_back(index: u16, r: u8, g: u8, b: u8)
    ensures
        ({
            let p = spec_serial_color_packet(index, r, g, b);
            &&& p.len() == 7
            &&& p[0] == 0xFFu8 && p[1] == 0xBBu8
            &&& p[2] as int + 256 * p[3] as int == index as int
            &&& p[4] == r && p[5] == g && p[6] == b
        }),
{
}

/// The custom UDP command carries the index low byte first, then the colour;
/// the index reads back exactly.
pub proof fn lemma_svled_udp_packet_reads_back(index: u16, r: u8, g: u8, b: u8)
    ensures
        ({
            let p = spec_svled_udp_color_packet(index, r, g, b);
            &&& p.len() == 5
            &&& p[0] as int + 256 * p[1] as int == index as int
            &&& p[2] == r && p[3] == g && p[4] == b
        }),
{
}

/// The DNRGB datagram starts with protocol 4 and a two-second timeout, carries
/// the start index high byte first, then the two pixels; the index reads back
/// exactly.
pub proof fn lemma_wled_packet_reads_back(index: u16, first: [u8; 3], second: [u8; 3])
    ensures
        ({
            let p = spec_wled_dnrgb_color_packet(index, first, second);
            &&& p.len() == 10
            &&& p[0] == 4u8 && p[1] == 2u8
            &&& 256 * p[2] as int + p[3] as int == index as int
            &&& p[4] == first[0] && p[5] == first[1] && p[6] == first[2]
            &&& p[7] == second[0] && p[8] == second[1] && p[9] == second[2]
        }),
{
}

/// Splits an index into its low and high byte.
fn index_bytes(index: u16) -> (bytes: (u8, u8))
    ensures
        bytes.0 == index_low(index),
        bytes.1 == index_high(index),
{
    ((index % 256) as u8, (index / 256) as u8)
}

/// The seven-byte serial colour command understood by the controller firmware.
pub fn serial_color_packet(index: u16, r: u8, g: u8, b: u8) -> (packet: [u8; 7])
    ensures
        packet@ == spec_serial_color_packet(index, r, g, b),
{
    let (index_low, index_high) = index_bytes(index);
    let packet = [SERIAL_PACKET_START[0], SERIAL_PACKET_START[1], index_low, index_high, r, g, b];
    assert(packet@ =~= spec_serial_color_packet(index, r, g, b));
    packet
}

/// The five-byte colour command of the custom SVLED UDP protocol.
pub fn svled_udp_color_packet(index: u16, r: u8, g: u8, b: u8) -> (packet: [u8; 5])
    ensures
        packet@ == spec_svled_udp_color_packet(index, r, g, b),
{
    let (index_low, index_high) = index_bytes(index);
    let packet = [index_low, index_high, r, g, b];
    assert(packet@ =~= spec_svled_udp_color_packet(index, r, g, b));
    packet
}

/// A WLED DNRGB realtime datagram that sets two adjacent pixels starting at `index`.
pub fn wled_dnrgb_color_packet(index: u16, first: [u8; 3], second: [u8; 3]) -> (packet: [u8; 10])
    ensures
        packet@ == spec_wled_dnrgb_color_packet(index, first, second),
{
    let (index_low, index_high) = index_bytes(index);
    let packet = [
        WLED_DNRGB_PROTOCOL,
        WLED_REALTIME_TIMEOUT_SECONDS,
        index_high,
        index_low,
        first[0],
        first[1],
        first[2],
        second[0],
        second[1],
        second[2],
    ];
    assert(packet@ =~= spec_wled_dnrgb_color_packet(index, first, second));
    packet
}

} // verus!
