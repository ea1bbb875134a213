//! Verified core of a periodic temperature-sampling pipeline.
//!
//! Raw 12-bit analog-to-digital counts are filtered by an outlier-trimmed
//! average, smoothed by a fixed-capacity first-in-first-out buffer,
//! converted to tenths of a degree Celsius and Fahrenheit, and published
//! as an untearable pair that a display loop snapshots and renders with a
//! fixed-width formatter.

pub mod buffer;
pub mod convert;
pub mod filter;
pub mod format;
pub mod pipeline;
pub mod state;
