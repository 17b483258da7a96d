//! Voice channel data types for P25 data units.
//!
//! Contains decoders for:
//! - Link Control (from LDU1 and TDULC)
//! - Crypto Control (from LDU2)
//! - Voice Header (from HDU)

pub mod pn;
pub mod descramble;
pub mod frame;
pub mod control;
pub mod crypto;
pub mod frame_group;
pub mod terminator;
pub mod header;
