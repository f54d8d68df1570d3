//! Where a colour command goes: which transport, which controller, which index.
//!
//! Serial LEDs are split into `num_strips` equal partitions of
//! `num_led / num_strips` LEDs, one per controller. Queued and direct serial
//! modes route an LED to the same controller and local index.

use vstd::prelude::*;
use crate::protocol::{
    COMMUNICATION_MODE_SERIAL, COMMUNICATION_MODE_SVLED_UDP, COMMUNICATION_MODE_WLED,
};

verus! {

/// The part of the configuration that decides where a colour command goes.
pub struct RouteConfig {
    pub communication_mode: i8,
    pub num_led: u32,
    pub num_strips: u32,
    pub use_queue: Option<bool>,
    pub no_controller: Option<bool>,
}

/// What `set_color` does with one command.
#[derive(Debug, PartialEq, Eq, Structural, Clone, Copy)]
pub enum Dispatch {
    /// Running without a controller: nothing is sent.
    NoController,
    /// The index is not below the configured LED count: the command is ignored.
    OutOfRange,
    /// Hand the command to the worker queue of `controller`.
    QueuedSerial { controller: u32, local: u16 },
    /// Write the command directly to the serial port of `controller`.
    DirectSerial { controller: u32, local: u16 },
    /// Send a custom SVLED UDP packet for `index`.
    SvledUdp { index: u16 },
    /// Send a WLED DNRGB packet that covers `index`.
    Wled { index: u16 },
}

/// LEDs driven by one serial controller.
pub open spec fn leds_per_strip(num_led: u32, num_strips: u32) -> int {
    num_led as int / num_strips as int
}

/// The partition is usable: at least one LED per controller.
pub open spec fn valid_partition(num_led: u32, num_strips: u32) -> bool {
    num_strips > 0 && num_led >= num_strips
}

/// A usable partition gives every controller at least one LED.
proof fn lemma_leds_per_strip_positive(num_led: u32, num_strips: u32)
    requires
        valid_partition(num_led, num_strips),
    ensures
        leds_per_strip(num_led, num_strips) > 0,
        leds_per_strip(num_led, num_strips) <= num_led,
{
    let a = num_led as int;
    let b = num_strips as int;
    assert(a / b >= 1 && a / b <= a) by (nonlinear_arith)
        requires
            b > 0,
            a >= b,
    {
        vstd::arithmetic::div_mod::lemma_div_is_ordered(b, a, b);
        vstd::arithmetic::div_mod::lemma_div_by_self(b);
        vstd::arithmetic::div_mod::lemma_div_is_ordered_by_denominator(a, 1, b);
    }
}

/// The route of the queued workers: controller, and the index minus the
/// controller's first LED.
pub open spec fn spec_queued_route(n: u16, num_led: u32, num_strips: u32) -> (int, int) {
    let lps = leds_per_strip(num_led, num_strips);
    let controller = n as int / lps;
    (controller, n as int - controller * lps)
}

/// The route of direct serial writes: controller, and the index modulo the
/// partition size.
pub open spec fn spec_direct_route(n: u16, num_led: u32, num_strips: u32) -> (int, int) {
    let lps = leds_per_strip(num_led, num_strips);
    (n as int / lps, n as int % lps)
}

/// Routing for the serial worker queues.
pub fn queued_serial_route(n: u16, num_led: u32, num_strips: u32) -> (route: (u32, u16))
    requires
        valid_partition(num_led, num_strips),
    ensures
        route.0 as int == spec_queued_route(n, num_led, num_strips).0,
        route.1 as int == spec_queued_route(n, num_led, num_strips).1,
        route.0 as int == n as int / (num_led as int / num_strips as int),
        route.1 as int == n as int % (num_led as int / num_strips as int),
{
    let leds_per_strip = num_led / num_strips;
    proof {
        lemma_leds_per_strip_positive(num_led, num_strips);
        vstd::arithmetic::div_mod::lemma_fundamental_div_mod(n as int, leds_per_strip as int);
        vstd::arithmetic::div_mod::lemma_mod_bound(n as int, leds_per_strip as int);
        vstd::arithmetic::mul::lemma_mul_is_commutative(n as int / leds_per_strip as int, leds_per_strip as int);
        lemma_queued_and_direct_routes_agree(n, num_led, num_strips);
    }
    let controller_index = (n as u32) / leds_per_strip;
    let local_index = (n as u32) - controller_index * leds_per_strip;
    (controller_index, local_index as u16)
}

/// Routing for direct serial writes.
pub fn direct_serial_route(n: u16, num_led: u32, num_strips: u32) -> (route: (u32, u16))
    requires
        valid_partition(num_led, num_strips),
    ensures
        route.0 as int == spec_direct_route(n, num_led, num_strips).0,
        route.1 as int == spec_direct_route(n, num_led, num_strips).1,
        route.0 as int == n as int / (num_led as int / num_strips as int),
        route.1 as int == n as int % (num_led as int / num_strips as int),
{
    let leds_per_strip = num_led / num_strips;
    proof {
        lemma_leds_per_strip_positive(num_led, num_strips);
        vstd::arithmetic::div_mod::lemma_mod_decreases(n as nat, leds_per_strip as nat);
    }
    let controller_index = (n as u32) / leds_per_strip;
    let local = ((n as u32) % leds_per_strip) as u16;
    (controller_index, local)
}

/// Whether a command reaches a transport (a controller is attached and the
/// index is in range).
pub open spec fn reaches_transport(config: RouteConfig, n: u16) -> bool {
    config.no_controller != Some(true) && (n as u32) < config.num_led
}

/// The configuration holds what the transport of a command needs: a known
/// communication mode and, for serial, a usable partition.
pub open spec fn transport_ready(config: RouteConfig) -> bool {
    &&& (config.communication_mode == COMMUNICATION_MODE_SVLED_UDP
        || config.communication_mode == COMMUNICATION_MODE_SERIAL
        || config.communication_mode == COMMUNICATION_MODE_WLED)
    &&& config.communication_mode == COMMUNICATION_MODE_SERIAL ==> valid_partition(
        config.num_led,
        config.num_strips,
    )
}

/// What `set_color` does with the command for LED `n`.
pub open spec fn spec_dispatch(config: RouteConfig, n: u16) -> Dispatch {
    let lps = leds_per_strip(config.num_led, config.num_strips);
    if config.no_controller == Some(true) {
        Dispatch::NoController
    } else if (n as u32) >= config.num_led {
        Dispatch::OutOfRange
    } else if config.communication_mode == COMMUNICATION_MODE_SERIAL {
        let controller = (n as int / lps) as u32;
        let local = (n as int % lps) as u16;
        if config.use_queue == Some(true) {
            Dispatch::QueuedSerial { controller, local }
        } else {
            Dispatch::DirectSerial { controller, local }
        }
    } else if config.communication_mode == COMMUNICATION_MODE_SVLED_UDP {
        Dispatch::SvledUdp { index: n }
    } else {
        Dispatch::Wled { index: n }
    }
}

/// Decides where the colour command for LED `n` goes.
pub fn plan_command(config: &RouteConfig, n: u16) -> (dispatch: Dispatch)
    requires
        reaches_transport(*config, n) ==> transport_ready(*config),
    ensures
        dispatch == spec_dispatch(*config, n),
        config.no_controller == Some(true) ==> dispatch == Dispatch::NoController,
        config.no_controller != Some(true) && n as u32 >= config.num_led ==> dispatch
            == Dispatch::OutOfRange,
        config.no_controller != Some(true) && (n as u32) < config.num_led
            && config.communication_mode == 1 ==> dispatch == (Dispatch::SvledUdp { index: n }),
        config.no_controller != Some(true) && (n as u32) < config.num_led
            && config.communication_mode == 3 ==> dispatch == (Dispatch::Wled { index: n }),
        config.no_controller != Some(true) && (n as u32) < config.num_led
            && config.communication_mode == 2 ==> {
            let lps = config.num_led as int / config.num_strips as int;
            if config.use_queue == Some(true) {
                dispatch == (Dispatch::QueuedSerial {
                    controller: (n as int / lps) as u32,
                    local: (n as int % lps) as u16,
                })
            } else {
                dispatch == (Dispatch::DirectSerial {
                    controller: (n as int / lps) as u32,
                    local: (n as int % lps) as u16,
                })
            }
        },
{
    let no_controller = match config.no_controller {
        Some(b) => b,
        None => false,
    };
    if no_controller {
        return Dispatch::NoController;
    }
    if (n as u32) >= config.num_led {
        return Dispatch::OutOfRange;
    }
    let use_queue = match config.use_queue {
        Some(b) => b,
        None => false,
    };
    if config.communication_mode == COMMUNICATION_MODE_SERIAL {
        if use_queue {
            let (controller, local) = queued_serial_route(n, config.num_led, config.num_strips);
            proof { lemma_queued_and_direct_routes_agree(n, config.num_led, config.num_strips); }
            Dispatch::QueuedSerial { controller, local }
        } else {
            let (controller, local) = direct_serial_route(n, config.num_led, config.num_strips);
            Dispatch::DirectSerial { controller, local }
        }
    } else if config.communication_mode == COMMUNICATION_MODE_SVLED_UDP {
        Dispatch::SvledUdp { index: n }
    } else {
        Dispatch::Wled { index: n }
    }
}

/// How a command is dispatched, in terms of the configuration alone: nothing
/// without a controller, nothing for an index at or past the LED count, the
/// custom UDP packet in mode 1 and a WLED datagram in mode 3 (whatever the
/// queue setting, which only serial uses), and in mode 2 the controller
/// `n / (num_led / num_strips)` with local index `n % (num_led / num_strips)`,
/// queued exactly when the queue is enabled.
pub proof fn lemma_dispatch_by_mode(config: RouteConfig, n: u16)
    ensures
        config.no_controller == Some(true) ==> spec_dispatch(config, n) == Dispatch::NoController,
        config.no_controller != Some(true) && n as u32 >= config.num_led ==> spec_dispatch(
            config,
            n,
        ) == Dispatch::OutOfRange,
        config.no_controller != Some(true) && (n as u32) < config.num_led
            && config.communication_mode == 1 ==> spec_dispatch(config, n) == (Dispatch::SvledUdp {
            index: n,
        }),
        config.no_controller != Some(true) && (n as u32) < config.num_led
            && config.communication_mode == 3 ==> spec_dispatch(config, n) == (Dispatch::Wled {
            index: n,
        }),
        spec_dispatch(config, n) is Wled ==> config.communication_mode != 1
            && config.communication_mode != 2,
        spec_dispatch(config, n) is SvledUdp ==> config.communication_mode == 1,
        spec_dispatch(config, n) is QueuedSerial ==> config.use_queue == Some(true)
            && config.communication_mode == 2,
        spec_dispatch(config, n) is DirectSerial ==> config.use_queue != Some(true)
            && config.communication_mode == 2,
        config.no_controller != Some(true) && (n as u32) < config.num_led
            && config.communication_mode == 2 ==> {
            let lps = config.num_led as int / config.num_strips as int;
            let controller = (n as int / lps) as u32;
            let local = (n as int % lps) as u16;
            spec_dispatch(config, n) == (if config.use_queue == Some(true) {
                Dispatch::QueuedSerial { controller, local }
            } else {
                Dispatch::DirectSerial { controller, local }
            })
        },
{
}

/// Queued and direct serial modes route every LED to the same controller and
/// the same local index.
pub proof fn lemma_queued_and_direct_routes_agree(n: u16, num_led: u32, num_strips: u32)
    requires
        valid_partition(num_led, num_strips),
    ensures
        spec_queued_route(n, num_led, num_strips) == spec_direct_route(n, num_led, num_strips),
{
    let lps = leds_per_strip(num_led, num_strips);
    lemma_leds_per_strip_positive(num_led, num_strips);
    vstd::arithmetic::div_mod::lemma_fundamental_div_mod(n as int, lps);
}

/// The serial routing is a partition: each LED lands on a local index inside
/// its controller's range, the controller's first LED plus the local index is
/// the LED again, and two different LEDs never share a controller and local
/// index.
pub proof fn lemma_serial_route_is_partition(n1: u16, n2: u16, num_led: u32, num_strips: u32)
    requires
        valid_partition(num_led, num_strips),
    ensures
        0 <= spec_direct_route(n1, num_led, num_strips).1 < leds_per_strip(num_led, num_strips),
        spec_direct_route(n1, num_led, num_strips).0 * leds_per_strip(num_led, num_strips)
            + spec_direct_route(n1, num_led, num_strips).1 == n1 as int,
        spec_direct_route(n1, num_led, num_strips) == spec_direct_route(n2, num_led, num_strips)
            ==> n1 == n2,
        spec_direct_route(n1, num_led, num_strips) == (
            n1 as int / (num_led as int / num_strips as int),
            n1 as int % (num_led as int / num_strips as int),
        ),
        spec_queued_route(n1, num_led, num_strips) == (
            n1 as int / (num_led as int / num_strips as int),
            n1 as int % (num_led as int / num_strips as int),
        ),
{
    let lps = leds_per_strip(num_led, num_strips);
    lemma_leds_per_strip_positive(num_led, num_strips);
    vstd::arithmetic::div_mod::lemma_fundamental_div_mod(n1 as int, lps);
    vstd::arithmetic::div_mod::lemma_fundamental_div_mod(n2 as int, lps);
    vstd::arithmetic::div_mod::lemma_mod_bound(n1 as int, lps);
    vstd::arithmetic::mul::lemma_mul_is_commutative(n1 as int / lps, lps);
    vstd::arithmetic::mul::lemma_mul_is_commutative(n2 as int / lps, lps);
    lemma_queued_and_direct_routes_agree(n1, num_led, num_strips);
}

} // verus!
