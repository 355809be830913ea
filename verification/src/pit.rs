//! Programmable interval timer: the arithmetic that turns a requested
//! period into the reload value and command byte the hardware side programs
//! into the timer's ports.

use vstd::prelude::*;

verus! {

/// Highest timer channel number.
pub const MAX_CHANNEL: u8 = 2;

/// Longest programmable period in microseconds: the 16-bit counter at the
/// base frequency wraps just above 54 milliseconds.
pub const MAX_INTERVAL_US: u64 = 54_000;

/// Port of the timer's mode/command register.
pub const COMMAND_PORT: u16 = 0x43;

/// Port of channel 0's data register; channel `n` sits at base + `n`.
pub const DATA_PORT_BASE: u16 = 0x40;

/// Bit position of the channel selector inside the command byte.
pub const CHANNEL_SHIFT: u8 = 6;

/// Lobyte/hibyte access, rate-generator mode, binary counting.
pub const MODE_RATE_GENERATOR: u8 = 0b0011_0100;

/// The timer's input clock in Hz.
pub const BASE_FREQUENCY_HZ: u32 = 1_193_182;

/// The reload value under which the timer fires every `interval_us`
/// microseconds: the number of input-clock cycles per period. Never zero,
/// and within the counter's 16 bits for every allowed period.
pub fn reload_for_micros(interval_us: u64) -> (r: u16)
    requires
        1 <= interval_us <= MAX_INTERVAL_US,
    ensures
        r == BASE_FREQUENCY_HZ * interval_us / 1_000_000,
        1 <= r,
{
    let product = (BASE_FREQUENCY_HZ as u64) * interval_us;
    proof {
        assert(1_193_182 * interval_us <= 1_193_182 * 54_000) by (nonlinear_arith)
            requires
                interval_us <= 54_000,
        ;
        assert(1_193_182 * 1 <= 1_193_182 * interval_us) by (nonlinear_arith)
            requires
                1 <= interval_us,
        ;
    }
    let divisor = product / 1_000_000;
    divisor as u16
}

/// The command byte that selects `channel`, lobyte/hibyte access and
/// rate-generator mode.
pub fn command_byte(channel: u8) -> (r: u8)
    requires
        channel <= MAX_CHANNEL,
    ensures
        r == (channel << CHANNEL_SHIFT) | MODE_RATE_GENERATOR,
        channel == 0 ==> r == 0x34,
        channel == 1 ==> r == 0x74,
        channel == 2 ==> r == 0xB4,
{
    proof {
        assert((0u8 << 6) | 0x34u8 == 0x34u8 && (1u8 << 6) | 0x34u8 == 0x74u8 && (2u8 << 6)
            | 0x34u8 == 0xB4u8) by (bit_vector);
    }
    (channel << CHANNEL_SHIFT) | MODE_RATE_GENERATOR
}

/// The low and high byte of a reload value, in the order the data port
/// takes them.
pub fn divisor_bytes(divisor: u16) -> (r: (u8, u8))
    ensures
        r.0 == divisor & 0xFF,
        r.1 == divisor >> 8,
        r.0 == divisor % 256,
        r.1 == divisor / 256,
{
    proof {
        assert(divisor & 0xFF == divisor % 256 && divisor >> 8 == divisor / 256) by (bit_vector);
    }
    ((divisor & 0xFF) as u8, (divisor >> 8) as u8)
}

} // verus!
