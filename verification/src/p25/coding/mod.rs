//! Forward error correction codes used by P25.

pub mod bmcf;
pub mod cyclic;
pub mod galois;
pub mod golay;
pub mod hamming;
pub mod reed_solomon;
