//! The cc26xx UART: its pin assignment and its baud rate divisors.

use vstd::prelude::*;

verus! {

/// The clock the UART divides down.
pub const MCU_CLOCK: u32 = 48_000_000;

/// A UART and the pins its lines are routed to.
pub struct UART {
    pub tx_pin: Option<u8>,
    pub rx_pin: Option<u8>,
}

/// The fractional baud rate divisor for `baud_rate`: 64 times the clock
/// over 16 times the baud rate, rounded.
pub open spec fn baud_divisor(baud_rate: u32) -> int {
    ((MCU_CLOCK * 8) / (baud_rate as int) + 1) / 2
}

impl UART {
    /// A UART with no pins assigned.
    pub fn new() -> (r: UART)
        ensures
            r.tx_pin is None,
            r.rx_pin is None,
    {
        UART { tx_pin: None, rx_pin: None }
    }

    /// Sets the pins of the transmit and receive lines. This must happen
    /// before the UART is initialized.
    pub fn set_pins(&mut self, tx_pin: u8, rx_pin: u8)
        ensures
            final(self).tx_pin == Some(tx_pin),
            final(self).rx_pin == Some(rx_pin),
    {
        self.tx_pin = Some(tx_pin);
        self.rx_pin = Some(rx_pin);
    }

    /// The pins to configure the UART on; both must have been set.
    pub fn configured_pins(&self) -> (r: (u8, u8))
        requires
            self.tx_pin is Some,
            self.rx_pin is Some,
        ensures
            r == (self.tx_pin->0, self.rx_pin->0),
    {
        let tx_pin = match self.tx_pin {
            Some(pin) => pin,
            None => 0,
        };
        let rx_pin = match self.rx_pin {
            Some(pin) => pin,
            None => 0,
        };
        (tx_pin, rx_pin)
    }

    /// The values of the integer divisor register (16 bits) and the
    /// fractional divisor register (6 bits) for `baud_rate`.
    pub fn baud_divisors(baud_rate: u32) -> (r: (u32, u32))
        requires
            baud_rate > 0,
        ensures
            r.0 == (baud_divisor(baud_rate) / 64) % 0x1_0000,
            r.1 == baud_divisor(baud_rate) % 64,
    {
        let div: u32 = (((MCU_CLOCK * 8) / baud_rate) + 1) / 2;
        let int_div: u32 = div / 64;
        let masked: u32 = int_div & 0xffff;
        assert(masked == int_div % 0x1_0000) by (bit_vector)
            requires
                masked == int_div & 0xffff,
        ;
        (masked, div % 64)
    }
}

} // verus!
