//! Byte-size utilities: classify a byte count into a human-readable string
//! with the largest sensible decimal unit, and convert a magnitude given in
//! an explicit unit (B, KB, MB, GB) into an exact breakdown over all four
//! units. All arithmetic is exact: magnitudes are held in thousandths of a
//! unit and quantities in thousandths of a byte, with a factor of 1000
//! between adjacent units throughout.

pub mod classify;
pub mod convert;
pub mod decimal;
pub mod render;
pub mod units;
