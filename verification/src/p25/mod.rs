//! P25 protocol decoder layer.
//!
//! Handles the P25 protocol logic from data dibits to structured messages:
//! network identifiers, trellis-coded signaling blocks, voice frames and the
//! forward error correction codes that protect them.

pub mod bch;
pub mod bitwise;
pub mod channel;
pub mod coding;
pub mod consts;
pub mod crc;
pub mod error;
pub mod interleave;
pub mod nid;
pub mod receiver;
pub mod status;
pub mod text;
pub mod trellis;
pub mod tsbk;
pub mod types;
pub mod voice;
