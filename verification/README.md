# lib

The verified core of a small embedded kernel and its 6LoWPAN / IPv6
networking stack, written in Verus. Every function under `src/` carries a
contract that Verus proves; `app/` holds the console output and the checks
that drivers make before they call into the library.

Layout of `src/`:

- `net/`: IPv6, UDP, ICMPv6 and TCP headers; 6LoWPAN header compression and
  decompression (with the round-trip laws); fragment headers and the
  reassembly bitmap; the Deluge over-the-air update protocol.
- `mac.rs`, `hil/`, `radio_loopback.rs`: the IEEE 802.15.4 MAC layer (frame
  security with CCM*, the transmit and receive state machines) and the
  hardware interfaces it is written against.
- `trickle.rs`, `deluge.rs`: the Trickle timer and Deluge's use of it.
- `process/`: Tock binary format (TBF) headers, loading applications into
  memory with position-independent-code fixup, and the process model
  (memory breaks, kernel allocations, task queue, stack frames).
- `common/`: a ring buffer and power-of-two arithmetic.
- `chips/`, `boards/`, `sensys.rs`: the computations of a few drivers and
  test applications.

The hardware and client interfaces (`hil/`, the MAC's and Deluge's client
traits) are traits whose spec functions describe what the library hands to
them: the frame last given to the radio, the buffer it receives into, the
tick count an alarm is armed for, the pages asked of the flash, what a
client was handed. The library's contracts are stated over those, so they
say what reaches each component; what the component then does is its
implementation's business.

`tests/` runs the library on concrete values.
