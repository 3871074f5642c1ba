//! Verified core of a 6LoWPAN / IPv6 networking stack for embedded devices,
//! together with the binary-update (Deluge/Trickle) logic and the Tock binary
//! format header parser that sit next to it.

pub mod returncode;
pub mod common;
pub mod callback;
pub mod syscall;
pub mod hil;
pub mod net;
pub mod trickle;
pub mod process;
pub mod deluge;
pub mod mac;
pub mod radio_loopback;
pub mod boards;
pub mod chips;
pub mod sensys;
