//! P25 trunked radio protocol decoding: error-correcting codes, network
//! identifiers, trunking signaling blocks and voice data units, with
//! machine-checked contracts.

pub mod p25;
pub mod pipeline;
pub mod sdr;
pub mod util;
pub mod vocoder;

