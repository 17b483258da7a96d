//! SDR sample source support: the errors of reading IQ sample data, and
//! the decisions of the loop that reads sample chunks from a device.

pub mod error;
pub mod reader;
