//! Dhvani: audio buffers, channel-layout conversion and lock-free level metering.
//!
//! Samples are generic: the buffer and layout code never looks inside a sample,
//! and where samples are combined (down-mixing) the combination is handed in by
//! the caller, so the routing of every sample is fully specified here.

pub mod buffer;
pub mod error;
pub mod meter;

pub use buffer::AudioBuffer;
pub use error::NadaError;
