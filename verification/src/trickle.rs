//! The Trickle algorithm (RFC 6206): a node transmits at a random point in
//! the second half of each interval unless it has heard enough consistent
//! transmissions; intervals double up to a maximum and shrink back to the
//! minimum on inconsistency.

use vstd::prelude::*;
use crate::hil::time::{Alarm, Frequency};

verus! {

/// Minimum interval size, in ms.
pub const I_MIN: usize = 10000;

/// Number of doublings of the minimum interval that give the maximum.
pub const I_MAX: usize = 7;

/// Redundancy constant.
pub const K: usize = 4;

/// The fixed value used in place of a random number when choosing the
/// transmission time in an interval.
pub const RANDOM_BYTES: usize = 0x15;

/// Transmits the data Trickle disseminates. The client keeps the data and
/// filters out packets not meant for this node.
pub trait TrickleClient {
    /// Whether `after` is this client once it transmitted.
    spec fn transmitted(&self, after: &Self) -> bool;

    fn transmit(&mut self)
        ensures
            old(self).transmitted(final(self)),
    ;
}

/// The operations of a Trickle timer.
pub trait Trickle {
    fn set_default_parameters(&mut self, i_max: usize, i_min: usize, k: usize);

    fn initialize(&mut self);

    fn received_transmission(&mut self, is_consistent: bool);
}

/// `base` doubled `n` times.
pub open spec fn doubled(base: int, n: nat) -> int
    decreases n,
{
    if n == 0 {
        base
    } else {
        2 * doubled(base, (n - 1) as nat)
    }
}

/// The transmission time chosen in an interval of `i_cur` ms: in its
/// second half.
pub open spec fn transmit_time(i_cur: usize) -> usize {
    (RANDOM_BYTES % (i_cur / 2) + i_cur / 2) as usize
}

/// Whether a timer of `time` ms can be converted to ticks of clock `A`
/// without overflow.
pub open spec fn timer_fits<A: Alarm>(time: usize) -> bool {
    (time as u32) as int * A::Frequency::hz() as int <= u32::MAX
}

/// The alarm tick count `time` ms after `now`, at `freq` ticks per ms.
pub fn alarm_tics(now: u32, time: usize, freq: u32) -> (r: u32)
    requires
        (time as u32) as int * freq as int <= u32::MAX,
    ensures
        r == (now as int + (time as u32) as int * freq as int) % 0x1_0000_0000,
{
    let d: u32 = (time as u32) * freq;
    let r = now.wrapping_add(d);
    r
}

/// The alarm time `time` ms after the clock read `now`, for a clock of
/// `hz` ticks per second, wrapping around.
pub open spec fn tics_after(now: u32, time: usize, hz: u32) -> u32 {
    ((now as int + (time as u32) as int * hz as int) % 0x1_0000_0000) as u32
}

/// Whether `clock` is armed `time` ms after its last reading.
pub open spec fn armed_after<A: Alarm>(clock: A, time: usize) -> bool {
    &&& clock.last_reading() is Some
    &&& clock.armed() == Some(tics_after(clock.last_reading()->0, time, A::Frequency::hz()))
}

/// The state of a Trickle timer.
pub struct TrickleData<C: TrickleClient, A: Alarm> {
    /// Maximum interval size, in doublings of the minimum.
    pub i_max: usize,
    /// Maximum interval size in ms, computed from `i_max` and `i_min`.
    pub i_max_val: usize,
    /// Minimum interval size in ms.
    pub i_min: usize,
    /// Redundancy constant.
    pub k: usize,
    /// Current interval size.
    pub i_cur: usize,
    /// Time to transmit in the current interval.
    pub t: usize,
    /// Number of consistent transmissions heard in the current interval.
    pub c: usize,
    /// Whether the transmission timer has fired in the current interval.
    pub t_fired: bool,
    pub client: C,
    pub clock: A,
}

impl<C: TrickleClient, A: Alarm> TrickleData<C, A> {
    /// A timer with the default parameters, not yet started.
    pub fn new(client: C, clock: A) -> (r: TrickleData<C, A>)
        ensures
            r.i_max == I_MAX,
            r.i_max_val == doubled(I_MIN as int, I_MAX as nat),
            r.i_max_val == 1280000,
            r.i_min == I_MIN,
            r.k == K,
            r.i_cur == 0,
            r.t == 0,
            r.c == 0,
            !r.t_fired,
            r.client == client,
            r.clock == clock,
    {
        let mut i_max_val = I_MIN;
        let mut i: usize = 0;
        while i < I_MAX
            invariant
                i <= I_MAX,
                i_max_val == doubled(I_MIN as int, i as nat),
                i_max_val <= 10000 * 128,
            decreases I_MAX - i,
        {
            proof {
                reveal_with_fuel(doubled, 8);
            }
            assert(i_max_val == 10000 * 1 || i_max_val == 10000 * 2 || i_max_val == 10000 * 4
                || i_max_val == 10000 * 8 || i_max_val == 10000 * 16 || i_max_val == 10000 * 32
                || i_max_val == 10000 * 64);
            i_max_val = i_max_val * 2;
            i = i + 1;
        }
        proof {
            reveal_with_fuel(doubled, 8);
        }
        TrickleData {
            i_max: I_MAX,
            i_max_val: i_max_val,
            i_min: I_MIN,
            k: K,
            i_cur: 0,
            t: 0,
            c: 0,
            t_fired: false,
            client: client,
            clock: clock,
        }
    }

    /// Starts a new interval: resets the counter and arms the transmission
    /// timer at a time in the second half of the interval.
    pub fn start_next_interval(&mut self)
        requires
            old(self).i_cur >= 2,
            timer_fits::<A>(transmit_time(old(self).i_cur)),
        ensures
            *final(self) == (TrickleData {
                c: 0,
                t: transmit_time(old(self).i_cur),
                t_fired: false,
                clock: final(self).clock,
                ..*old(self)
            }),
            old(self).i_cur / 2 <= final(self).t < old(self).i_cur,
            armed_after(final(self).clock, transmit_time(old(self).i_cur)),
    {
        // Reset the counter
        self.c = 0;
        let random_bytes: usize = RANDOM_BYTES;
        // A time in the second half of the interval
        let interval_offset = (random_bytes % (self.i_cur / 2)) + self.i_cur / 2;
        self.t = interval_offset;
        self.t_fired = false;
        // Set the transmission timer
        self.set_timer(interval_offset);
    }

    /// The transmission timer fired: arms the timer for the end of the
    /// interval, and transmits unless enough consistent transmissions were
    /// heard.
    pub fn transmission_timer_fired(&mut self)
        requires
            old(self).t <= old(self).i_cur,
            timer_fits::<A>((old(self).i_cur - old(self).t) as usize),
        ensures
            *final(self) == (TrickleData {
                t_fired: true,
                client: final(self).client,
                clock: final(self).clock,
                ..*old(self)
            }),
            armed_after(final(self).clock, (old(self).i_cur - old(self).t) as usize),
            old(self).c < old(self).k ==> old(self).client.transmitted(&final(self).client),
            old(self).c >= old(self).k ==> final(self).client == old(self).client,
    {
        self.t_fired = true;
        // About i_cur - t is left in the interval
        let time_left = self.i_cur - self.t;
        self.set_timer(time_left);
        if self.c < self.k {
            self.client.transmit();
        }
    }

    /// The interval ended: doubles the interval, up to the maximum, and
    /// starts the next one.
    pub fn interval_timer_fired(&mut self)
        requires
            old(self).i_cur >= 2,
            old(self).i_cur < old(self).i_max_val ==> old(self).i_cur * 2 <= usize::MAX,
            timer_fits::<A>(
                transmit_time(
                    if old(self).i_cur < old(self).i_max_val {
                        if old(self).i_cur * 2 < old(self).i_max_val {
                            (old(self).i_cur * 2) as usize
                        } else {
                            old(self).i_max_val
                        }
                    } else {
                        old(self).i_cur
                    },
                ),
            ),
        ensures
            final(self).i_cur == (if old(self).i_cur < old(self).i_max_val {
                if old(self).i_cur * 2 < old(self).i_max_val {
                    (old(self).i_cur * 2) as usize
                } else {
                    old(self).i_max_val
                }
            } else {
                old(self).i_cur
            }),
            *final(self) == (TrickleData {
                i_cur: final(self).i_cur,
                c: 0,
                t: transmit_time(final(self).i_cur),
                t_fired: false,
                clock: final(self).clock,
                ..*old(self)
            }),
            armed_after(final(self).clock, transmit_time(final(self).i_cur)),
    {
        // Double the interval size
        if self.i_cur < self.i_max_val {
            let doubled_cur = self.i_cur * 2;
            self.i_cur = if doubled_cur < self.i_max_val {
                doubled_cur
            } else {
                self.i_max_val
            };
        }
        self.start_next_interval();
    }

    /// Arms the alarm `time` ms from now.
    pub fn set_timer(&mut self, time: usize)
        requires
            timer_fits::<A>(time),
        ensures
            *final(self) == (TrickleData { clock: final(self).clock, ..*old(self) }),
            armed_after(final(self).clock, time),
    {
        let now = self.clock.now();
        let tics = alarm_tics(now, time, A::Frequency::frequency());
        self.clock.set_alarm(tics);
    }

    /// Sets the parameters: the maximum interval is `i_min` doubled `i_max`
    /// times.
    pub fn set_default_parameters(&mut self, i_max: usize, i_min: usize, k: usize)
        requires
            doubled(i_min as int, i_max as nat) <= usize::MAX,
        ensures
            *final(self) == (TrickleData {
                i_max: i_max,
                i_min: i_min,
                i_max_val: doubled(i_min as int, i_max as nat) as usize,
                k: k,
                ..*old(self)
            }),
    {
        self.i_max = i_max;
        self.i_min = i_min;
        let mut i_max_val = i_min;
        let mut i: usize = 0;
        while i < i_max
            invariant
                i <= i_max,
                i_max_val == doubled(i_min as int, i as nat),
                doubled(i_min as int, i_max as nat) <= usize::MAX,
            decreases i_max - i,
        {
            proof {
                lemma_doubled_monotonic(i_min as int, (i + 1) as nat, i_max as nat);
            }
            i_max_val = i_max_val * 2;
            i = i + 1;
        }
        self.i_max_val = i_max_val;
        self.k = k;
    }

    /// Starts the first interval, of the minimum size.
    pub fn initialize(&mut self)
        requires
            old(self).i_min >= 2,
            timer_fits::<A>(transmit_time(old(self).i_min)),
        ensures
            *final(self) == (TrickleData {
                i_cur: old(self).i_min,
                c: 0,
                t: transmit_time(old(self).i_min),
                t_fired: false,
                clock: final(self).clock,
                ..*old(self)
            }),
            armed_after(final(self).clock, transmit_time(old(self).i_min)),
    {
        self.i_cur = self.i_min;
        self.start_next_interval();
    }

    /// A transmission was heard: a consistent one is counted; an
    /// inconsistent one resets the interval to the minimum, unless it is
    /// already there.
    pub fn received_transmission(&mut self, is_consistent: bool)
        requires
            is_consistent ==> old(self).c < usize::MAX,
            !is_consistent && old(self).i_cur > old(self).i_min ==> old(self).i_min >= 2
                && timer_fits::<A>(transmit_time(old(self).i_min)),
        ensures
            is_consistent ==> *final(self) == (TrickleData { c: (old(self).c + 1) as usize, ..*old(self) }),
            !is_consistent && old(self).i_cur > old(self).i_min ==> *final(self) == (TrickleData {
                i_cur: old(self).i_min,
                c: 0,
                t: transmit_time(old(self).i_min),
                t_fired: false,
                clock: final(self).clock,
                ..*old(self)
            }) && armed_after(final(self).clock, transmit_time(old(self).i_min)),
            !is_consistent && old(self).i_cur <= old(self).i_min ==> *final(self) == *old(self),
    {
        if is_consistent {
            // Count the consistent transmission
            self.c = self.c + 1;
        } else {
            // Reset the interval only if it is above the minimum
            if self.i_cur > self.i_min {
                self.i_cur = self.i_min;
                self.start_next_interval();
            }
        }
    }

    /// The alarm fired: the end of the interval if the transmission timer
    /// already fired in it, else the transmission timer.
    pub fn fired(&mut self)
        requires
            old(self).t_fired ==> old(self).i_cur >= 2 && (old(self).i_cur < old(self).i_max_val
                ==> old(self).i_cur * 2 <= usize::MAX) && timer_fits::<A>(
                transmit_time(
                    if old(self).i_cur < old(self).i_max_val {
                        if old(self).i_cur * 2 < old(self).i_max_val {
                            (old(self).i_cur * 2) as usize
                        } else {
                            old(self).i_max_val
                        }
                    } else {
                        old(self).i_cur
                    },
                ),
            ),
            !old(self).t_fired ==> old(self).t <= old(self).i_cur && timer_fits::<A>(
                (old(self).i_cur - old(self).t) as usize,
            ),
        ensures
            !old(self).t_fired ==> *final(self) == (TrickleData {
                t_fired: true,
                client: final(self).client,
                clock: final(self).clock,
                ..*old(self)
            }) && armed_after(final(self).clock, (old(self).i_cur - old(self).t) as usize),
            !old(self).t_fired && old(self).c < old(self).k ==> old(self).client.transmitted(&final(self).client),
            !old(self).t_fired && old(self).c >= old(self).k ==> final(self).client == old(self).client,
            old(self).t_fired ==> !final(self).t_fired && final(self).c == 0 && final(self).t
                == transmit_time(final(self).i_cur) && armed_after(final(self).clock, transmit_time(final(self).i_cur)),
    {
        if self.t_fired {
            self.interval_timer_fired();
        } else {
            self.transmission_timer_fired();
        }
    }
}

/// Doubling is monotonic in the number of doublings.
pub proof fn lemma_doubled_monotonic(base: int, m: nat, n: nat)
    requires
        base >= 0,
        m <= n,
    ensures
        doubled(base, m) <= doubled(base, n),
        doubled(base, m) >= 0,
    decreases n,
{
    if n > m {
        lemma_doubled_monotonic(base, m, (n - 1) as nat);
    } else if m > 0 {
        lemma_doubled_monotonic(base, (m - 1) as nat, (m - 1) as nat);
    }
}

/// The transmission time lies in the second half of the interval.
pub proof fn lemma_transmit_time_in_second_half(i_cur: usize)
    requires
        i_cur >= 2,
    ensures
        i_cur / 2 <= transmit_time(i_cur) < i_cur,
{
}

/// Doubling an interval never takes it past the maximum: an interval at
/// most the maximum stays at most the maximum.
pub proof fn lemma_interval_bounded(i_cur: usize, i_max_val: usize)
    requires
        i_cur <= i_max_val,
        i_cur * 2 <= usize::MAX,
    ensures
        (if i_cur < i_max_val {
            if i_cur * 2 < i_max_val {
                (i_cur * 2) as usize
            } else {
                i_max_val
            }
        } else {
            i_cur
        }) <= i_max_val,
{
}

} // verus!
