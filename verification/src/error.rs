//! Error type shared by the buffer and conversion code.

use vstd::prelude::*;

verus! {

/// Errors reported by buffer construction and format conversion.
#[derive(Debug, Clone)]
pub enum NadaError {
    /// The sample count is not a whole number of frames.
    LengthMismatch { expected: usize, actual: usize },
    /// The sample rate is zero or above the supported ceiling.
    InvalidSampleRate(u32),
    /// The channel count is not usable (zero).
    InvalidChannels(u32),
    /// A conversion could not be performed on the given layout.
    Conversion(String),
    /// A processing step failed.
    Dsp(String),
}

} // verus!
