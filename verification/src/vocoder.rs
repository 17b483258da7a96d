//! IMBE vocoder for P25 voice decoding.
//!
//! Decodes IMBE voice frames (88-bit chunks from the P25 FEC layer) into
//! voice parameters. This part holds the vocoder's constants, the received
//! frame type that bridges the P25 layer into the vocoder, the frame
//! parameters, and the descrambling of a frame's chunks into its quantized
//! voice parameters by the scanning procedure.

pub mod consts;
pub mod descramble;
pub mod error;
pub mod frame;
pub mod params;
pub mod scan;
