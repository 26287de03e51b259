//! Interleaved audio buffer.

pub mod convert;

use vstd::prelude::*;

use crate::error::NadaError;

verus! {

/// Highest sample rate a buffer may be built with through `from_interleaved`.
pub const MAX_SAMPLE_RATE: u32 = 768_000;

/// Why `from_interleaved` refuses a sample vector of `len` samples, if it does.
///
/// The channel count is checked first, then the sample rate, then that the
/// samples form whole frames.
pub open spec fn interleaved_error(len: nat, channels: u32, sample_rate: u32) -> Option<NadaError> {
    if channels == 0 {
        Some(NadaError::InvalidChannels(0))
    } else if sample_rate == 0 || sample_rate > MAX_SAMPLE_RATE {
        Some(NadaError::InvalidSampleRate(sample_rate))
    } else if len % (channels as nat) != 0 {
        Some(
            NadaError::LengthMismatch {
                expected: (len - len % (channels as nat)) as usize,
                actual: len as usize,
            },
        )
    } else {
        None
    }
}

/// Interleaved sample buffer: frame `f`, channel `c` is sample `f * channels + c`.
pub struct AudioBuffer<S> {
    samples: Vec<S>,
    channels: u32,
    sample_rate: u32,
    frames: usize,
}

impl<S> AudioBuffer<S> {
    /// Every buffer has at least one channel and exactly `frames * channels` samples.
    #[verifier::type_invariant]
    spec fn well_formed(self) -> bool {
        &&& self.channels > 0
        &&& self.samples@.len() == self.frames * self.channels
    }

    /// The interleaved samples.
    pub closed spec fn spec_samples(&self) -> Seq<S> {
        self.samples@
    }

    pub closed spec fn spec_channels(&self) -> u32 {
        self.channels
    }

    pub closed spec fn spec_sample_rate(&self) -> u32 {
        self.sample_rate
    }

    pub closed spec fn spec_frames(&self) -> usize {
        self.frames
    }

    /// Build a buffer from interleaved samples.
    ///
    /// Fails with `InvalidChannels(0)` for zero channels, `InvalidSampleRate` for
    /// a rate of zero or above 768 kHz, and `LengthMismatch` when the sample count
    /// is not a multiple of the channel count.
    pub fn from_interleaved(samples: Vec<S>, channels: u32, sample_rate: u32) -> (res: Result<
        Self,
        NadaError,
    >)
        ensures
            match interleaved_error(samples@.len(), channels, sample_rate) {
                Some(e) => res == Err::<Self, NadaError>(e),
                None => res matches Ok(buf) && {
                    &&& buf.spec_samples() == samples@
                    &&& buf.spec_channels() == channels
                    &&& buf.spec_sample_rate() == sample_rate
                    &&& buf.spec_frames() == samples@.len() / (channels as nat)
                },
            },
    {
        if channels == 0 {
            return Err(NadaError::InvalidChannels(0));
        }
        if sample_rate == 0 || sample_rate > MAX_SAMPLE_RATE {
            return Err(NadaError::InvalidSampleRate(sample_rate));
        }
        let len = samples.len();
        let ch = channels as usize;
        proof {
            vstd::arithmetic::div_mod::lemma_mod_decreases(len as nat, ch as nat);
        }
        if len % ch != 0 {
            return Err(NadaError::LengthMismatch { expected: len - len % ch, actual: len });
        }
        let frames = len / ch;
        proof {
            vstd::arithmetic::div_mod::lemma_fundamental_div_mod(len as int, ch as int);
            vstd::arithmetic::mul::lemma_mul_is_commutative(ch as int, frames as int);
        }
        Ok(AudioBuffer { samples, channels, sample_rate, frames })
    }

    /// Number of channels.
    #[verifier::when_used_as_spec(spec_channels)]
    pub fn channels(&self) -> (r: u32)
        ensures
            r == self.spec_channels(),
            r > 0,
            self.spec_samples().len() == self.spec_frames() * r,
    {
        proof {
            use_type_invariant(self);
        }
        self.channels
    }

    /// Sample rate in Hz.
    #[verifier::when_used_as_spec(spec_sample_rate)]
    pub fn sample_rate(&self) -> (r: u32)
        ensures
            r == self.spec_sample_rate(),
    {
        self.sample_rate
    }

    /// Number of frames (samples per channel).
    #[verifier::when_used_as_spec(spec_frames)]
    pub fn frames(&self) -> (r: usize)
        ensures
            r == self.spec_frames(),
            self.spec_channels() > 0,
            self.spec_samples().len() == r * self.spec_channels(),
    {
        proof {
            use_type_invariant(self);
        }
        self.frames
    }

    /// The interleaved samples.
    pub fn samples(&self) -> (r: &[S])
        ensures
            r@ == self.spec_samples(),
    {
        self.samples.as_slice()
    }
}

impl<S: Copy> AudioBuffer<S> {
    /// Overwrite the sample at interleaved position `index`; the layout is unchanged.
    pub fn set_sample(&mut self, index: usize, value: S)
        requires
            index < old(self).spec_samples().len(),
        ensures
            final(self).spec_samples() == old(self).spec_samples().update(index as int, value),
            final(self).spec_channels() == old(self).spec_channels(),
            final(self).spec_sample_rate() == old(self).spec_sample_rate(),
            final(self).spec_frames() == old(self).spec_frames(),
    {
        proof {
            use_type_invariant(&*self);
        }
        let mut this = AudioBuffer {
            samples: Vec::new(),
            channels: 1,
            sample_rate: self.sample_rate,
            frames: 0,
        };
        std::mem::swap(self, &mut this);
        let AudioBuffer { mut samples, channels, sample_rate, frames } = this;
        samples.set(index, value);
        *self = AudioBuffer { samples, channels, sample_rate, frames };
    }

    /// A buffer of `frames` frames whose every sample is `silence`.
    pub fn filled(channels: u32, frames: usize, sample_rate: u32, silence: S) -> (buf: Self)
        requires
            channels > 0,
            sample_rate > 0,
            frames * channels <= usize::MAX,
        ensures
            buf.spec_channels() == channels,
            buf.spec_frames() == frames,
            buf.spec_sample_rate() == sample_rate,
            buf.spec_samples() == Seq::new((frames * channels) as nat, |i: int| silence),
    {
        let n = frames * (channels as usize);
        let mut samples: Vec<S> = Vec::with_capacity(n);
        let mut i: usize = 0;
        while i < n
            invariant
                i <= n,
                samples@ == Seq::new(i as nat, |j: int| silence),
            decreases n - i,
        {
            samples.push(silence);
            i = i + 1;
        }
        AudioBuffer { samples, channels, sample_rate, frames }
    }
}

} // verus!
