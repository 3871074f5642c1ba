//! Timers and alarms.

use vstd::prelude::*;

verus! {

/// The frequency of a clock, in ticks per second.
pub trait Frequency {
    /// The frequency this clock runs at.
    spec fn hz() -> u32;

    fn frequency() -> (r: u32)
        ensures
            r == Self::hz(),
    ;
}

/// A 16 MHz clock.
pub struct Freq16MHz;

/// A 32 kHz clock.
pub struct Freq32KHz;

/// A 16 kHz clock.
pub struct Freq16KHz;

/// A 1 kHz clock.
pub struct Freq1KHz;

impl Frequency for Freq16MHz {
    open spec fn hz() -> u32 {
        16000000
    }

    fn frequency() -> (r: u32) {
        16000000
    }
}

impl Frequency for Freq32KHz {
    open spec fn hz() -> u32 {
        32768
    }

    fn frequency() -> (r: u32) {
        32768
    }
}

impl Frequency for Freq16KHz {
    open spec fn hz() -> u32 {
        16000
    }

    fn frequency() -> (r: u32) {
        16000
    }
}

impl Frequency for Freq1KHz {
    open spec fn hz() -> u32 {
        1000
    }

    fn frequency() -> (r: u32) {
        1000
    }
}

/// A free-running clock.
pub trait Time {
    type Frequency: Frequency;

    /// The tick count the clock gave when it was last read.
    spec fn last_reading(&self) -> Option<u32>;

    /// Reads the current tick count.
    fn now(&mut self) -> (r: u32)
        ensures
            final(self).last_reading() == Some(r),
    ;
}

/// A clock that can raise an alarm at a tick count.
pub trait Alarm: Time {
    /// The tick count the alarm is armed for.
    spec fn armed(&self) -> Option<u32>;

    /// Arms the alarm to fire when the clock reaches `tics`.
    fn set_alarm(&mut self, tics: u32)
        ensures
            final(self).armed() == Some(tics),
            final(self).last_reading() == old(self).last_reading(),
    ;
}

/// Receives alarms.
pub trait Client {
    /// Whether `after` is what handling an alarm leaves of this client.
    spec fn alarm_handled(&self, after: &Self) -> bool;

    fn fired(&mut self)
        ensures
            old(self).alarm_handled(final(self)),
    ;
}

} // verus!
