//! The per-connection LED state kept by the host, and the decisions that
//! update it after each command.

use vstd::prelude::*;
use crate::protocol::{spec_wled_dnrgb_color_packet, wled_dnrgb_color_packet};

verus! {

/// State kept per connection: consecutive communication failures, the queue
/// lengths reported by the controller, and the colours last sent over WLED.
pub struct LedState {
    pub failures: u32,
    pub queue_lengths: Vec<u8>,
    pub wled_colors: Vec<[u8; 3]>,
}

/// The WLED colour buffer before a command: the previous buffer when it covers
/// exactly `num_led` LEDs, otherwise all LEDs black.
pub open spec fn spec_wled_base(old_colors: Seq<[u8; 3]>, num_led: u32) -> Seq<[u8; 3]> {
    if old_colors.len() == num_led as nat {
        old_colors
    } else {
        Seq::new(num_led as nat, |i: int| [0u8, 0u8, 0u8])
    }
}

/// The WLED colour buffer after LED `n` was set to `color`.
pub open spec fn spec_wled_colors(
    old_colors: Seq<[u8; 3]>,
    num_led: u32,
    n: u16,
    color: [u8; 3],
) -> Seq<[u8; 3]> {
    spec_wled_base(old_colors, num_led).update(n as int, color)
}

/// Start index and the two pixels of the DNRGB packet sent for LED `n` from
/// the buffer `colors`: `n` and its right neighbour, else its left neighbour
/// and `n`, else `n` and black when it is the only LED.
pub open spec fn spec_wled_window(colors: Seq<[u8; 3]>, num_led: u32, n: u16) -> (u16, [u8; 3], [u8; 3]) {
    if (n as int) + 1 < num_led as int {
        (n, colors[n as int], colors[n as int + 1])
    } else if n > 0 {
        ((n - 1) as u16, colors[n as int - 1], colors[n as int])
    } else {
        (0u16, colors[n as int], [0u8, 0u8, 0u8])
    }
}

/// The DNRGB packet sent for LED `n` from the buffer `colors`.
pub open spec fn spec_wled_packet(colors: Seq<[u8; 3]>, num_led: u32, n: u16) -> Seq<u8> {
    let w = spec_wled_window(colors, num_led, n);
    spec_wled_dnrgb_color_packet(w.0, w.1, w.2)
}

/// Sum of a sequence of queue lengths.
pub open spec fn spec_sum(lengths: Seq<u8>) -> nat
    decreases lengths.len(),
{
    if lengths.len() == 0 {
        0
    } else {
        spec_sum(lengths.drop_last()) + lengths.last() as nat
    }
}

/// The count of reported queue lengths as the `u32` it is divided by
/// (truncated to 32 bits).
pub open spec fn spec_count_u32(lengths: Seq<u8>) -> u32 {
    lengths.len() as u32
}

/// Average of the reported queue lengths, rounded down; `None` when nothing
/// was reported.
pub open spec fn spec_average_queue_length(lengths: Seq<u8>) -> Option<u32> {
    if lengths.len() == 0 {
        None
    } else {
        Some((spec_sum(lengths) / spec_count_u32(lengths) as nat) as u32)
    }
}

/// A prefix sums to no more than the whole sequence.
proof fn lemma_prefix_sum_le(lengths: Seq<u8>, i: int)
    requires
        0 <= i <= lengths.len(),
    ensures
        spec_sum(lengths.take(i)) <= spec_sum(lengths),
    decreases lengths.len(),
{
    if i == lengths.len() {
        assert(lengths.take(i) =~= lengths);
    } else {
        lemma_prefix_sum_le(lengths.drop_last(), i);
        assert(lengths.drop_last().take(i) =~= lengths.take(i));
    }
}

/// Average of the queue lengths reported by a controller. The lengths are
/// summed in a `u32`, which their sum must fit, and divided by their count
/// taken as a `u32`, which must not be zero.
pub fn average_queue_length(lengths: &[u8]) -> (average: Option<u32>)
    requires
        spec_sum(lengths@) <= u32::MAX,
        lengths@.len() > 0 ==> spec_count_u32(lengths@) != 0,
    ensures
        average == spec_average_queue_length(lengths@),
        lengths@.len() == 0 ==> average is None,
        lengths@.len() > 0 ==> (average matches Some(a) && a as nat * (lengths@.len() as u32) as nat
            <= spec_sum(lengths@) < (a as nat + 1) * (lengths@.len() as u32) as nat),
{
    let len = lengths.len();
    if len == 0 {
        return None;
    }
    let mut total: u32 = 0;
    let mut i: usize = 0;
    while i < len
        invariant
            len == lengths@.len(),
            spec_sum(lengths@) <= u32::MAX,
            i <= len,
            total as nat == spec_sum(lengths@.take(i as int)),
        decreases len - i,
    {
        proof {
            assert(lengths@.take(i as int + 1).drop_last() =~= lengths@.take(i as int));
            lemma_prefix_sum_le(lengths@, i as int + 1);
        }
        total = total + lengths[i] as u32;
        i = i + 1;
    }
    assert(lengths@.take(len as int) =~= lengths@);
    let count = len as u32;
    assert(count == spec_count_u32(lengths@));
    proof {
        lemma_average_brackets_sum(lengths@);
    }
    Some(total / count)
}

/// The sum adds each length once: nothing sums to zero, and appending a
/// length adds it to the sum.
pub proof fn lemma_sum_appends(lengths: Seq<u8>, x: u8)
    ensures
        spec_sum(Seq::<u8>::empty()) == 0,
        spec_sum(lengths.push(x)) == spec_sum(lengths) + x as nat,
{
    assert(lengths.push(x).drop_last() =~= lengths);
}

/// The average of non-empty lengths is their sum divided by their count,
/// rounded down: average times count is at most the sum, and the sum is below
/// (average + 1) times count.
pub proof fn lemma_average_brackets_sum(lengths: Seq<u8>)
    requires
        lengths.len() > 0,
        spec_sum(lengths) <= u32::MAX,
        (lengths.len() as u32) != 0,
    ensures
        (spec_average_queue_length(lengths) matches Some(a) && a as nat * (lengths.len() as u32) as nat
            <= spec_sum(lengths) < (a as nat + 1) * (lengths.len() as u32) as nat),
{
    let c = (lengths.len() as u32) as int;
    let total = spec_sum(lengths) as int;
    vstd::arithmetic::div_mod::lemma_fundamental_div_mod(total, c);
    vstd::arithmetic::div_mod::lemma_mod_bound(total, c);
    vstd::arithmetic::div_mod::lemma_div_pos_is_pos(total, c);
    vstd::arithmetic::mul::lemma_mul_is_commutative(total / c, c);
    vstd::arithmetic::mul::lemma_mul_is_distributive_add_other_way(c, total / c, 1);
    vstd::arithmetic::div_mod::lemma_div_is_ordered_by_denominator(total, 1, c);
    assert(spec_count_u32(lengths) as int == c);
}

/// What a UDP receive on the custom protocol produced.
pub enum UdpReply {
    /// A datagram arrived; the buffer holds its first three bytes (zero-filled).
    Received([u8; 3]),
    /// The read timed out (or would block).
    TimedOut,
    /// Another error occurred while receiving.
    Failed,
}

/// What the host does after handling a UDP reply.
#[derive(Debug, PartialEq, Eq, Structural, Clone, Copy)]
pub enum UdpFollowUp {
    /// Nothing more to do.
    Proceed,
    /// The controller reported a malformed packet.
    Malformed,
    /// Send the packet once more without waiting for a reply.
    Resend,
    /// Too many consecutive failures: stop the program.
    Exit,
}

/// The reply the controller sends for a malformed packet.
pub open spec fn is_bad_reply(buf: [u8; 3]) -> bool {
    buf[0] == 0x42u8 && buf[1] == 0x41u8 && buf[2] == 0x44u8
}

/// Failure limit when none is configured.
pub const DEFAULT_CON_FAIL_LIMIT: u32 = 5;

pub open spec fn spec_con_fail_limit(limit: Option<u32>) -> u32 {
    match limit {
        Some(l) => l,
        None => DEFAULT_CON_FAIL_LIMIT,
    }
}

/// The follow-up and the new failure count after a reply, from the failure
/// count before it.
pub open spec fn spec_udp_reply(failures: u32, limit: Option<u32>, reply: UdpReply) -> (UdpFollowUp, u32) {
    match reply {
        UdpReply::Received(buf) => if is_bad_reply(buf) {
            (UdpFollowUp::Malformed, 1u32)
        } else {
            (UdpFollowUp::Proceed, 0u32)
        },
        UdpReply::TimedOut => if failures >= spec_con_fail_limit(limit) {
            (UdpFollowUp::Exit, failures)
        } else {
            (UdpFollowUp::Resend, (failures + 1) as u32)
        },
        UdpReply::Failed => (UdpFollowUp::Proceed, failures),
    }
}

/// A UDP reply in terms of the configured limit itself (5 when none is
/// configured): a timeout ends the program exactly when the failures counted
/// so far reach the limit, and otherwise counts one more failure and resends;
/// a reply of `BAD` leaves one failure counted, any other reply none; another
/// error changes nothing.
pub proof fn lemma_udp_reply_against_limit(failures: u32, limit: Option<u32>, reply: UdpReply)
    ensures
        spec_con_fail_limit(None) == 5,
        limit matches Some(l) ==> spec_con_fail_limit(limit) == l,
        limit matches Some(l) ==> (reply is TimedOut ==> (spec_udp_reply(failures, limit, reply).0
            == UdpFollowUp::Exit <==> failures >= l)),
        reply is TimedOut && limit is None ==> (spec_udp_reply(failures, limit, reply).0
            == UdpFollowUp::Exit <==> failures >= 5),
        reply is TimedOut && spec_udp_reply(failures, limit, reply).0 != UdpFollowUp::Exit ==> (
        spec_udp_reply(failures, limit, reply) == (UdpFollowUp::Resend, (failures + 1) as u32)),
        reply is TimedOut && spec_udp_reply(failures, limit, reply).0 == UdpFollowUp::Exit ==> (
        spec_udp_reply(failures, limit, reply).1 == failures),
        reply matches UdpReply::Received(buf) ==> spec_udp_reply(failures, limit, reply) == (if buf
            == [66u8, 65u8, 68u8] {
            (UdpFollowUp::Malformed, 1u32)
        } else {
            (UdpFollowUp::Proceed, 0u32)
        }),
        reply is Failed ==> spec_udp_reply(failures, limit, reply) == (UdpFollowUp::Proceed, failures),
{
    if let UdpReply::Received(buf) = reply {
        assert(is_bad_reply(buf) <==> buf =~= [66u8, 65u8, 68u8]);
    }
}

/// How the host treats the serial port after writing a command.
#[derive(Debug, PartialEq, Eq, Structural, Clone, Copy)]
pub enum SerialReplyMode {
    /// Read the controller's echo of the seven command bytes and log it.
    PrintSendBack,
    /// Wait for the one-byte confirmation that carries the queue length.
    AwaitConfirmation,
    /// Do not read anything.
    NoReply,
}

pub open spec fn spec_serial_reply_mode(print_send_back: Option<bool>, skip_confirmation: Option<bool>) -> SerialReplyMode {
    if print_send_back == Some(true) {
        SerialReplyMode::PrintSendBack
    } else if skip_confirmation != Some(true) {
        SerialReplyMode::AwaitConfirmation
    } else {
        SerialReplyMode::NoReply
    }
}

/// The reply mode in terms of the two settings: the echo is read whenever it
/// is requested, whatever the confirmation setting; otherwise nothing is read
/// exactly when confirmation is skipped, and the confirmation byte is awaited
/// in every other case.
pub proof fn lemma_serial_reply_mode_by_settings(
    print_send_back: Option<bool>,
    skip_confirmation: Option<bool>,
)
    ensures
        print_send_back == Some(true) ==> spec_serial_reply_mode(print_send_back, skip_confirmation)
            == SerialReplyMode::PrintSendBack,
        print_send_back != Some(true) && skip_confirmation == Some(true) ==> spec_serial_reply_mode(
            print_send_back,
            skip_confirmation,
        ) == SerialReplyMode::NoReply,
        print_send_back != Some(true) && skip_confirmation != Some(true) ==> spec_serial_reply_mode(
            print_send_back,
            skip_confirmation,
        ) == SerialReplyMode::AwaitConfirmation,
{
}

/// Chooses what the host reads back after a serial write.
pub fn serial_reply_mode(print_send_back: Option<bool>, skip_confirmation: Option<bool>) -> (mode: SerialReplyMode)
    ensures
        mode == spec_serial_reply_mode(print_send_back, skip_confirmation),
        print_send_back == Some(true) ==> mode == SerialReplyMode::PrintSendBack,
        print_send_back != Some(true) ==> mode != SerialReplyMode::PrintSendBack,
        print_send_back != Some(true) ==> (mode == SerialReplyMode::NoReply <==> skip_confirmation
            == Some(true)),
{
    if let Some(true) = print_send_back {
        SerialReplyMode::PrintSendBack
    } else if !skip_confirmation.unwrap_or(false) {
        SerialReplyMode::AwaitConfirmation
    } else {
        SerialReplyMode::NoReply
    }
}

/// Confirmation attempts when no serial read timeout is configured.
pub const DEFAULT_SERIAL_READ_TIMEOUT: u32 = 200;

pub open spec fn spec_serial_read_timeout(timeout: Option<u32>) -> u32 {
    match timeout {
        Some(t) => t,
        None => DEFAULT_SERIAL_READ_TIMEOUT,
    }
}

/// One step of waiting for the confirmation byte.
#[derive(Debug, PartialEq, Eq, Structural, Clone, Copy)]
pub enum ConfirmStep {
    /// The confirmation byte arrived.
    Confirmed,
    /// The read failed; try again with this many failures counted.
    Retry(u32),
    /// The read failed too often; continue without confirmation.
    GiveUp,
}

pub open spec fn spec_confirm_step(failures: u32, timeout: Option<u32>, read_ok: bool) -> ConfirmStep {
    if read_ok {
        ConfirmStep::Confirmed
    } else if failures + 1 >= spec_serial_read_timeout(timeout) {
        ConfirmStep::GiveUp
    } else {
        ConfirmStep::Retry((failures + 1) as u32)
    }
}

/// One confirmation step in terms of the timeout itself (200 reads when none
/// is configured): a successful read confirms; a failed read gives up exactly
/// when it is the timeout-th failure (or the first, for a zero timeout), and
/// otherwise retries with one more failure counted.
pub proof fn lemma_confirm_step_against_timeout(failures: u32, timeout: Option<u32>, read_ok: bool)
    ensures
        spec_serial_read_timeout(None) == 200,
        timeout matches Some(t) ==> spec_serial_read_timeout(timeout) == t,
        read_ok ==> spec_confirm_step(failures, timeout, read_ok) == ConfirmStep::Confirmed,
        timeout matches Some(t) ==> (!read_ok ==> (spec_confirm_step(failures, timeout, read_ok)
            == ConfirmStep::GiveUp <==> failures + 1 >= t)),
        timeout is None && !read_ok ==> (spec_confirm_step(failures, timeout, read_ok)
            == ConfirmStep::GiveUp <==> failures + 1 >= 200),
        !read_ok && spec_confirm_step(failures, timeout, read_ok) != ConfirmStep::GiveUp ==> spec_confirm_step(
            failures,
            timeout,
            read_ok,
        ) == ConfirmStep::Retry((failures + 1) as u32),
{
}

/// Decides, after one read of the confirmation byte, whether to stop or retry.
/// `failures` counts the failed reads so far: the loop starts at zero and only
/// retries below the limit.
pub fn confirm_step(failures: u32, timeout: Option<u32>, read_ok: bool) -> (step: ConfirmStep)
    requires
        failures == 0 || failures < spec_serial_read_timeout(timeout),
    ensures
        step == spec_confirm_step(failures, timeout, read_ok),
        read_ok ==> step == ConfirmStep::Confirmed,
        !read_ok && timeout is None ==> (step == ConfirmStep::GiveUp <==> failures + 1 >= 200),
        timeout matches Some(t) ==> (!read_ok ==> (step == ConfirmStep::GiveUp <==> failures + 1
            >= t)),
        !read_ok && step != ConfirmStep::GiveUp ==> step == ConfirmStep::Retry((failures + 1) as u32),
{
    if read_ok {
        return ConfirmStep::Confirmed;
    }
    let limit = timeout.unwrap_or(DEFAULT_SERIAL_READ_TIMEOUT);
    let failures = failures + 1;
    if failures >= limit {
        ConfirmStep::GiveUp
    } else {
        ConfirmStep::Retry(failures)
    }
}

/// Start index carried by a DNRGB packet (big-endian bytes 2 and 3).
pub open spec fn spec_dnrgb_start(packet: Seq<u8>) -> int {
    256 * packet[2] as int + packet[3] as int
}

/// The pixel at position `k` (0 or 1) of a DNRGB packet.
pub open spec fn spec_dnrgb_pixel(packet: Seq<u8>, k: int) -> [u8; 3] {
    [packet[4 + 3 * k], packet[5 + 3 * k], packet[6 + 3 * k]]
}

/// The WLED packet for LED `n` starts at `n` or at its left neighbour, carries
/// the requested colour at the position of `n`, and fills the other position
/// with the colour the host retained for that LED (black when the strip has a
/// single LED).
pub proof fn lemma_wled_packet_carries_requested_pixel(
    old_colors: Seq<[u8; 3]>,
    num_led: u32,
    n: u16,
    color: [u8; 3],
)
    requires
        (n as u32) < num_led,
    ensures
        ({
            let colors = spec_wled_colors(old_colors, num_led, n, color);
            let packet = spec_wled_packet(colors, num_led, n);
            let start = spec_dnrgb_start(packet);
            &&& colors.len() == num_led as nat
            &&& packet.len() == 10
            &&& start <= n as int <= start + 1
            &&& start == if (n as int) + 1 < num_led as int {
                n as int
            } else if n > 0 {
                n as int - 1
            } else {
                0
            }
            &&& packet[0] == 4u8 && packet[1] == 2u8
            &&& spec_dnrgb_pixel(packet, n as int - start) == color
            &&& (start + 1 < num_led as int ==> spec_dnrgb_pixel(packet, 1 - (n as int - start))
                == colors[start + 1 - (n as int - start)])
            &&& (num_led == 1 ==> spec_dnrgb_pixel(packet, 1) == [0u8, 0u8, 0u8])
        }),
{
    let colors = spec_wled_colors(old_colors, num_led, n, color);
    let w = spec_wled_window(colors, num_led, n);
    let packet = spec_wled_packet(colors, num_led, n);
    assert((w.0 as int % 256) + 256 * (w.0 as int / 256) == w.0 as int);
    assert(spec_dnrgb_start(packet) == w.0 as int);
    if (n as int) + 1 < num_led as int {
        assert(spec_dnrgb_pixel(packet, 0) =~= colors[n as int]);
        assert(spec_dnrgb_pixel(packet, 1) =~= colors[n as int + 1]);
    } else if n > 0 {
        assert(spec_dnrgb_pixel(packet, 0) =~= colors[n as int - 1]);
        assert(spec_dnrgb_pixel(packet, 1) =~= colors[n as int]);
    } else {
        assert(spec_dnrgb_pixel(packet, 0) =~= colors[n as int]);
        assert(spec_dnrgb_pixel(packet, 1) =~= [0u8, 0u8, 0u8]);
    }
}

/// The WLED buffer after setting LED `n`: it covers exactly `num_led` LEDs,
/// holds `color` at `n`, and every other LED keeps its previous colour when the
/// buffer already covered the strip, or is black when it was rebuilt.
pub proof fn lemma_wled_buffer_update(old_colors: Seq<[u8; 3]>, num_led: u32, n: u16, color: [u8; 3])
    requires
        (n as u32) < num_led,
    ensures
        spec_wled_colors(old_colors, num_led, n, color).len() == num_led as nat,
        spec_wled_colors(old_colors, num_led, n, color)[n as int] == color,
        forall|i: int|
            0 <= i < num_led as int && i != n as int ==> #[trigger] spec_wled_colors(
                old_colors,
                num_led,
                n,
                color,
            )[i] == if old_colors.len() == num_led as nat {
                old_colors[i]
            } else {
                [0u8, 0u8, 0u8]
            },
{
}

/// Setting one LED keeps the colours the host retained for every other LED,
/// once the buffer covers the strip.
pub proof fn lemma_wled_update_retains_other_leds(
    old_colors: Seq<[u8; 3]>,
    num_led: u32,
    n1: u16,
    c1: [u8; 3],
    n2: u16,
    c2: [u8; 3],
)
    requires
        (n1 as u32) < num_led,
        (n2 as u32) < num_led,
        n1 != n2,
    ensures
        spec_wled_colors(spec_wled_colors(old_colors, num_led, n1, c1), num_led, n2, c2)[n1 as int]
            == c1,
        spec_wled_colors(spec_wled_colors(old_colors, num_led, n1, c1), num_led, n2, c2)[n2 as int]
            == c2,
{
}

/// The larger of the failure limit and one: the most consecutive failures the
/// UDP host ever counts.
pub open spec fn spec_failure_ceiling(limit: Option<u32>) -> u32 {
    if spec_con_fail_limit(limit) >= 1 {
        spec_con_fail_limit(limit)
    } else {
        1
    }
}

/// The consecutive failure count never climbs above the larger of the limit
/// and one: a timeout at the limit ends the program instead of counting, and
/// any reply resets the count.
pub proof fn lemma_udp_failures_stay_bounded(failures: u32, limit: Option<u32>, reply: UdpReply)
    requires
        failures <= spec_failure_ceiling(limit),
    ensures
        spec_udp_reply(failures, limit, reply).1 <= spec_failure_ceiling(limit),
        spec_udp_reply(failures, limit, reply).0 == UdpFollowUp::Exit ==> failures
            >= spec_con_fail_limit(limit),
{
}

/// Reads made while waiting for a confirmation that never comes, from
/// `failures` failed reads on.
pub open spec fn spec_confirm_reads(failures: u32, timeout: Option<u32>) -> nat
    decreases spec_serial_read_timeout(timeout) - failures,
{
    match spec_confirm_step(failures, timeout, false) {
        ConfirmStep::Retry(next) => if next > failures {
            1 + spec_confirm_reads(next, timeout)
        } else {
            1
        },
        _ => 1,
    }
}

/// Without a confirmation, the host reads exactly the configured number of
/// times (at least once) before it gives up.
pub proof fn lemma_confirmation_gives_up_after_timeout(failures: u32, timeout: Option<u32>)
    requires
        failures == 0 || failures < spec_serial_read_timeout(timeout),
    ensures
        spec_confirm_reads(failures, timeout) == if failures + 1 >= spec_serial_read_timeout(
            timeout,
        ) {
            1
        } else {
            spec_serial_read_timeout(timeout) - failures
        },
    decreases spec_serial_read_timeout(timeout) - failures,
{
    if failures + 1 < spec_serial_read_timeout(timeout) {
        lemma_confirmation_gives_up_after_timeout((failures + 1) as u32, timeout);
    }
}

impl LedState {
    /// A fresh state: no failures, nothing reported, no WLED colours.
    pub fn new() -> (state: LedState)
        ensures
            state.failures == 0,
            state.queue_lengths@.len() == 0,
            state.wled_colors@.len() == 0,
    {
        LedState { failures: 0, queue_lengths: Vec::new(), wled_colors: Vec::new() }
    }

    /// Records LED `n` as `color` in the WLED buffer (resized to `num_led`
    /// black LEDs when it does not cover them) and returns the DNRGB packet
    /// that carries the LED together with one neighbour from the buffer.
    pub fn update_wled(&mut self, num_led: u32, n: u16, color: [u8; 3]) -> (packet: [u8; 10])
        requires
            (n as u32) < num_led,
        ensures
            final(self).wled_colors@ == spec_wled_colors(old(self).wled_colors@, num_led, n, color),
            packet@ == spec_wled_packet(final(self).wled_colors@, num_led, n),
            final(self).wled_colors@.len() == num_led as nat,
            final(self).wled_colors@[n as int] == color,
            forall|i: int|
                0 <= i < num_led as int && i != n as int ==> #[trigger] final(self).wled_colors@[i]
                    == if old(self).wled_colors@.len() == num_led as nat {
                    old(self).wled_colors@[i]
                } else {
                    [0u8, 0u8, 0u8]
                },
            packet[0] == 4 && packet[1] == 2,
            spec_dnrgb_start(packet@) == if (n as int) + 1 < num_led as int {
                n as int
            } else if n > 0 {
                n as int - 1
            } else {
                0
            },
            spec_dnrgb_pixel(packet@, n as int - spec_dnrgb_start(packet@)) == color,
            spec_dnrgb_start(packet@) + 1 < num_led as int ==> spec_dnrgb_pixel(
                packet@,
                1 - (n as int - spec_dnrgb_start(packet@)),
            ) == final(self).wled_colors@[spec_dnrgb_start(packet@) + 1 - (n as int
                - spec_dnrgb_start(packet@))],
            num_led == 1 ==> spec_dnrgb_pixel(packet@, 1) == [0u8, 0u8, 0u8],
            final(self).failures == old(self).failures,
            final(self).queue_lengths@ == old(self).queue_lengths@,
    {
        let num_led_usize = num_led as usize;
        if self.wled_colors.len() != num_led_usize {
            let mut fresh: Vec<[u8; 3]> = Vec::new();
            let mut i: usize = 0;
            while i < num_led_usize
                invariant
                    i <= num_led_usize,
                    num_led_usize == num_led,
                    fresh@ =~= Seq::new(i as nat, |k: int| [0u8, 0u8, 0u8]),
                decreases num_led_usize - i,
            {
                fresh.push([0u8, 0u8, 0u8]);
                i = i + 1;
            }
            self.wled_colors = fresh;
        }
        assert(self.wled_colors@ =~= spec_wled_base(old(self).wled_colors@, num_led));
        let index = n as usize;
        self.wled_colors.set(index, color);
        let (start, first, second) = if index + 1 < num_led_usize {
            (n, self.wled_colors[index], self.wled_colors[index + 1])
        } else if index > 0 {
            (n - 1, self.wled_colors[index - 1], self.wled_colors[index])
        } else {
            (0u16, self.wled_colors[index], [0u8, 0u8, 0u8])
        };
        let packet = wled_dnrgb_color_packet(start, first, second);
        proof {
            lemma_wled_packet_carries_requested_pixel(old(self).wled_colors@, num_led, n, color);
            let w = spec_wled_window(self.wled_colors@, num_led, n);
            assert((w.0 as int % 256) + 256 * (w.0 as int / 256) == w.0 as int);
        }
        packet
    }

    /// Updates the consecutive failure count after a UDP reply and says what
    /// to do next.
    pub fn handle_udp_reply(&mut self, limit: Option<u32>, reply: UdpReply) -> (follow_up: UdpFollowUp)
        ensures
            (follow_up, final(self).failures) == spec_udp_reply(old(self).failures, limit, reply),
            limit matches Some(l) ==> (reply is TimedOut ==> (follow_up == UdpFollowUp::Exit
                <==> old(self).failures >= l)),
            reply is TimedOut && limit is None ==> (follow_up == UdpFollowUp::Exit <==> old(
                self,
            ).failures >= 5),
            reply is TimedOut && follow_up != UdpFollowUp::Exit ==> follow_up == UdpFollowUp::Resend
                && final(self).failures == old(self).failures + 1,
            follow_up == UdpFollowUp::Exit ==> final(self).failures == old(self).failures,
            reply matches UdpReply::Received(buf) ==> (if buf == [66u8, 65u8, 68u8] {
                follow_up == UdpFollowUp::Malformed && final(self).failures == 1
            } else {
                follow_up == UdpFollowUp::Proceed && final(self).failures == 0
            }),
            reply is Failed ==> follow_up == UdpFollowUp::Proceed && final(self).failures == old(
                self,
            ).failures,
            final(self).queue_lengths@ == old(self).queue_lengths@,
            final(self).wled_colors@ == old(self).wled_colors@,
    {
        match reply {
            UdpReply::Received(buf) => {
                assert(is_bad_reply(buf) <==> buf =~= [66u8, 65u8, 68u8]);
                self.failures = 0;
                if buf[0] == 0x42u8 && buf[1] == 0x41u8 && buf[2] == 0x44u8 {
                    self.failures = self.failures + 1;
                    UdpFollowUp::Malformed
                } else {
                    UdpFollowUp::Proceed
                }
            },
            UdpReply::TimedOut => {
                if self.failures >= limit.unwrap_or(DEFAULT_CON_FAIL_LIMIT) {
                    UdpFollowUp::Exit
                } else {
                    self.failures = self.failures + 1;
                    UdpFollowUp::Resend
                }
            },
            UdpReply::Failed => UdpFollowUp::Proceed,
        }
    }

    /// Records the queue length a controller reported with its confirmation.
    pub fn record_queue_length(&mut self, length: u8)
        ensures
            final(self).queue_lengths@ == old(self).queue_lengths@.push(length),
            final(self).failures == old(self).failures,
            final(self).wled_colors@ == old(self).wled_colors@,
    {
        self.queue_lengths.push(length);
    }
}

} // verus!
