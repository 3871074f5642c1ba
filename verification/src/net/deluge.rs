//! The Deluge binary dissemination protocol: packets and the protocol state
//! machine, the program state that assembles pages, and the layers below.

pub mod deluge;
pub mod flash_layer;
pub mod program_state;
pub mod sync_rng;
pub mod transmit_layer;
pub mod trickle;
