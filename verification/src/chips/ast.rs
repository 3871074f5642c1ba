//! The sam4l AST timer: its clock sources, the alarm value it can reliably
//! fire at, and its interrupt.

use vstd::prelude::*;
use crate::hil::time::Client;

verus! {

/// The fewest ticks ahead of the counter an alarm can be set: a closer alarm
/// value may pass before it reaches the register.
pub const ALARM0_SYNC_TICS: u32 = 8;

/// The clock sources of the AST.
#[derive(Copy, Clone, Debug, PartialEq, Eq, Structural)]
pub enum Clock {
    ClockRCSys,
    ClockOsc32,
    ClockAPB,
    ClockGclk2,
    Clock1K,
}

/// The value that selects a clock source.
pub open spec fn clock_number(clock: Clock) -> u32 {
    match clock {
        Clock::ClockRCSys => 0,
        Clock::ClockOsc32 => 1,
        Clock::ClockAPB => 2,
        Clock::ClockGclk2 => 3,
        Clock::Clock1K => 4,
    }
}

impl Clock {
    /// The value that selects this clock source.
    pub fn number(&self) -> (r: u32)
        ensures
            r == clock_number(*self),
    {
        match self {
            Clock::ClockRCSys => 0,
            Clock::ClockOsc32 => 1,
            Clock::ClockAPB => 2,
            Clock::ClockGclk2 => 3,
            Clock::Clock1K => 4,
        }
    }
}

/// The alarm register value for an alarm at `tics` when the counter reads
/// `now`: `tics` itself, unless it is at most `ALARM0_SYNC_TICS` ahead (or
/// passed), then `ALARM0_SYNC_TICS` ahead of `now`.
pub open spec fn alarm_value(now: u32, tics: u32) -> u32 {
    if (tics - now) % 0x1_0000_0000 <= ALARM0_SYNC_TICS {
        ((now + ALARM0_SYNC_TICS) % 0x1_0000_0000) as u32
    } else {
        tics
    }
}

/// The alarm register value for an alarm at `tics` when the counter reads
/// `now`.
pub fn compute_alarm(now: u32, tics: u32) -> (r: u32)
    ensures
        r == alarm_value(now, tics),
{
    if tics.wrapping_sub(now) <= ALARM0_SYNC_TICS {
        now.wrapping_add(ALARM0_SYNC_TICS)
    } else {
        tics
    }
}

/// The AST and the client its alarm goes to.
pub struct Ast<C: Client> {
    pub callback: Option<C>,
}

impl<C: Client> Ast<C> {
    /// An AST without a client.
    pub fn new() -> (r: Self)
        ensures
            r.callback is None,
    {
        Ast { callback: None }
    }

    pub fn set_client(&mut self, client: C)
        ensures
            final(self).callback == Some(client),
    {
        self.callback = Some(client);
    }

    /// The alarm fired (its status bit already cleared): the client is told,
    /// and is left as its handling of the alarm leaves it.
    pub fn handle_interrupt(&mut self)
        ensures
            match old(self).callback {
                Some(c) => final(self).callback matches Some(c2) && c.alarm_handled(&c2),
                None => final(self).callback is None,
            },
    {
        match &mut self.callback {
            Some(cb) => {
                cb.fired();
            },
            None => {},
        }
    }
}

} // verus!
