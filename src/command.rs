//! What the driver asks of the one-shot countdown timer.
use vstd::prelude::*;

verus! {

/// The largest value of a 64-bit countdown load.
pub const LOAD_MAX: u64 = 0xffff_ffff_ffff_ffff;

/// Width of each of the two register halves that a load is split into.
pub const HALF_RANGE: u64 = 0x1_0000_0000;

/// One step of hardware programming requested by the driver.
#[derive(Clone, Copy, Debug, PartialEq, Eq, Structural)]
pub enum TimerCommand {
    /// Leave the countdown timer as it is.
    Keep,
    /// Load the countdown with `upper * 2^32 + lower`, start it, and route its
    /// interrupt to core `hart`.
    Load { upper: u32, lower: u32, hart: usize },
    /// Stop the countdown timer.
    Stop,
}

/// Countdown units for `interval` clock ticks, at `ratio` units per tick,
/// saturated at the register's range.
pub open spec fn load_of(interval: nat, ratio: nat) -> nat {
    if interval * ratio > LOAD_MAX as nat {
        LOAD_MAX as nat
    } else {
        interval * ratio
    }
}

/// The command that makes the timer expire `interval` clock ticks from now and
/// interrupt core `hart`.
pub open spec fn load_command_of(interval: nat, ratio: nat, hart: usize) -> TimerCommand {
    TimerCommand::Load {
        upper: (load_of(interval, ratio) / HALF_RANGE as nat) as u32,
        lower: (load_of(interval, ratio) % HALF_RANGE as nat) as u32,
        hart,
    }
}

/// Builds the command that counts down `interval` clock ticks, converted to
/// countdown units by `ratio` and split into the two 32-bit register halves.
pub fn load_command(interval: u64, ratio: u64, hart: usize) -> (r: TimerCommand)
    ensures
        r == load_command_of(interval as nat, ratio as nat, hart),
{
    let counter: u64 = match interval.checked_mul(ratio) {
        Some(c) => c,
        None => LOAD_MAX,
    };
    assert(counter as nat == load_of(interval as nat, ratio as nat));
    let high: u64 = counter >> 32u64;
    let low: u64 = counter & 0xffff_ffffu64;
    assert(high == counter / 0x1_0000_0000u64 && high < 0x1_0000_0000u64) by (bit_vector)
        requires
            high == counter >> 32u64,
    ;
    assert(low == counter % 0x1_0000_0000u64) by (bit_vector)
        requires
            low == counter & 0xffff_ffffu64,
    ;
    TimerCommand::Load { upper: high as u32, lower: low as u32, hart }
}

} // verus!
