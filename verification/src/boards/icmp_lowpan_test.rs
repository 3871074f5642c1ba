//! A test application that sends an ICMP echo request to a fixed
//! destination every few seconds, for a fixed number of tests.

use vstd::prelude::*;
use crate::returncode::ReturnCode;
use crate::net::ip6::Address;
use crate::hil::time::{Alarm, Frequency, Time};

verus! {

/// The source address of the test packets: 00:01:..:0f.
pub fn src_addr() -> (r: Address)
    ensures
        forall|i: int| 0 <= i < 16 ==> r.0@[i] == i,
{
    let r = Address([0x00, 0x01, 0x02, 0x03, 0x04, 0x05, 0x06, 0x07, 0x08, 0x09, 0x0a, 0x0b, 0x0c, 0x0d, 0x0e, 0x0f]);
    assert(forall|i: int| 0 <= i < 16 ==> r.0@[i] == i);
    r
}

/// The destination address of the test packets: 20:21:..:2f.
pub fn dst_addr() -> (r: Address)
    ensures
        forall|i: int| 0 <= i < 16 ==> r.0@[i] == 0x20 + i,
{
    let r = Address([0x20, 0x21, 0x22, 0x23, 0x24, 0x25, 0x26, 0x27, 0x28, 0x29, 0x2a, 0x2b, 0x2c, 0x2d, 0x2e, 0x2f]);
    assert(forall|i: int| 0 <= i < 16 ==> r.0@[i] == 0x20 + i);
    r
}

/// The time between tests, in milliseconds.
pub const TEST_DELAY_MS: u32 = 10000;

/// Whether the tests start over after the last one.
pub const TEST_LOOP: bool = false;

/// What a test asks of the ICMP layer.
#[derive(Copy, Clone, Debug, PartialEq, Eq, Structural)]
pub enum IcmpTestAction {
    /// Send an echo request to the destination address.
    SendEchoRequest,
    /// Nothing: there is no such test.
    NoTest,
}

/// The number of clock ticks in the delay between tests, for a clock of
/// `hz` ticks per second.
pub open spec fn test_delay_tics(hz: u32) -> int {
    (hz * TEST_DELAY_MS) / 1000
}

/// The alarm time `delay` ticks after `now`, wrapping around.
pub open spec fn alarm_after(now: u32, delay: int) -> u32 {
    ((now + delay) % 0x1_0000_0000) as u32
}

/// Whether `alarm` is armed for the next test: `TEST_DELAY_MS` after its
/// last reading.
pub open spec fn test_scheduled<A: Alarm>(alarm: A) -> bool {
    &&& alarm.last_reading() is Some
    &&& alarm.armed() == Some(alarm_after(alarm.last_reading()->0, test_delay_tics(<A as Time>::Frequency::hz())))
}

/// The test application's state: its alarm and the number of the next test.
pub struct LowpanICMPTest<A: Alarm> {
    pub alarm: A,
    pub test_counter: usize,
}

impl<A: Alarm> LowpanICMPTest<A> {
    pub fn new(alarm: A) -> (r: Self)
        ensures
            r.alarm == alarm,
            r.test_counter == 0,
    {
        LowpanICMPTest { alarm: alarm, test_counter: 0 }
    }

    /// Schedules the first test.
    pub fn start(&mut self)
        requires
            <A as Time>::Frequency::hz() * TEST_DELAY_MS <= u32::MAX,
        ensures
            final(self).test_counter == old(self).test_counter,
            test_scheduled(final(self).alarm),
    {
        self.schedule_next();
    }

    /// The alarm time for the next test, `TEST_DELAY_MS` after `now`.
    pub fn next_alarm(now: u32) -> (r: u32)
        requires
            <A as Time>::Frequency::hz() * TEST_DELAY_MS <= u32::MAX,
        ensures
            r == alarm_after(now, test_delay_tics(<A as Time>::Frequency::hz())),
    {
        let delta = (<A as Time>::Frequency::frequency() * TEST_DELAY_MS) / 1000;
        now.wrapping_add(delta)
    }

    /// Arms the alarm for the next test.
    fn schedule_next(&mut self)
        requires
            <A as Time>::Frequency::hz() * TEST_DELAY_MS <= u32::MAX,
        ensures
            final(self).test_counter == old(self).test_counter,
            test_scheduled(final(self).alarm),
    {
        let now = self.alarm.now();
        let next = Self::next_alarm(now);
        self.alarm.set_alarm(next);
    }

    /// The number of tests.
    pub fn num_tests(&self) -> (r: usize)
        ensures
            r == 2,
    {
        2
    }

    /// What test `test_id` does.
    pub fn run_test(&self, test_id: usize) -> (r: IcmpTestAction)
        ensures
            r == (if test_id < 2 { IcmpTestAction::SendEchoRequest } else { IcmpTestAction::NoTest }),
    {
        match test_id {
            0 => IcmpTestAction::SendEchoRequest,
            1 => IcmpTestAction::SendEchoRequest,
            _ => IcmpTestAction::NoTest,
        }
    }

    /// Runs the current test and moves on to the next one.
    pub fn run_test_and_increment(&mut self) -> (r: IcmpTestAction)
        requires
            old(self).test_counter < usize::MAX,
        ensures
            r == (if old(self).test_counter < 2 {
                IcmpTestAction::SendEchoRequest
            } else {
                IcmpTestAction::NoTest
            }),
            final(self).test_counter == old(self).test_counter + 1,
            final(self).alarm == old(self).alarm,
    {
        let test_counter = self.test_counter;
        let action = self.run_test(test_counter);
        if TEST_LOOP {
            self.test_counter = (test_counter + 1) % self.num_tests();
        } else {
            self.test_counter = test_counter + 1;
        }
        action
    }

    /// An echo request was sent (or failed): on success the next test is
    /// scheduled. Gives whether the send succeeded.
    pub fn send_done(&mut self, result: ReturnCode) -> (r: bool)
        requires
            result == ReturnCode::SUCCESS ==> <A as Time>::Frequency::hz() * TEST_DELAY_MS <= u32::MAX,
        ensures
            r == (result == ReturnCode::SUCCESS),
            final(self).test_counter == old(self).test_counter,
            r ==> test_scheduled(final(self).alarm),
            !r ==> final(self).alarm == old(self).alarm,
    {
        match result {
            ReturnCode::SUCCESS => {
                self.schedule_next();
                true
            },
            _ => false,
        }
    }

    /// The alarm fired: the current test runs.
    pub fn fired(&mut self) -> (r: IcmpTestAction)
        requires
            old(self).test_counter < usize::MAX,
        ensures
            r == (if old(self).test_counter < 2 {
                IcmpTestAction::SendEchoRequest
            } else {
                IcmpTestAction::NoTest
            }),
            final(self).test_counter == old(self).test_counter + 1,
            final(self).alarm == old(self).alarm,
    {
        self.run_test_and_increment()
    }
}

} // verus!
