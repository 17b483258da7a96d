//! Helpers shared across the protocol parsers.

pub mod bits;
