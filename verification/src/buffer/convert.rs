//! Channel-layout conversion: interleaved and planar forms, mono/stereo, 5.1 down-mix.
//!
//! Nothing here inspects a sample. Where output samples are combinations of
//! input samples, the combination is a function handed in by the caller, and
//! the contracts say exactly which input samples reach each call.

use vstd::prelude::*;

use crate::buffer::{AudioBuffer, interleaved_error, MAX_SAMPLE_RATE};
use crate::error::NadaError;

verus! {

/// A sample rate that `AudioBuffer::from_interleaved` accepts.
pub open spec fn valid_sample_rate(rate: u32) -> bool {
    0 < rate <= MAX_SAMPLE_RATE
}

/// Planar view of interleaved samples: plane `c`, frame `f` is sample `f * channels + c`.
pub open spec fn deinterleave<S>(samples: Seq<S>, channels: nat) -> Seq<Seq<S>> {
    Seq::new(
        channels,
        |c: int| Seq::new(samples.len() / channels, |f: int| samples[f * channels + c]),
    )
}

/// Interleaved view of `frames` frames of planes: sample `i` is frame `i / n`
/// of plane `i % n`, with `n` planes.
pub open spec fn interleave<S>(planes: Seq<Seq<S>>, frames: nat) -> Seq<S> {
    Seq::new(
        frames * planes.len(),
        |i: int| planes[i % (planes.len() as int)][i / (planes.len() as int)],
    )
}

/// The sample sequences held by a vector of planes.
pub open spec fn plane_views<S>(planes: Seq<Vec<S>>) -> Seq<Seq<S>> {
    planes.map_values(|p: Vec<S>| p@)
}

/// Every sample of a mono sequence, written twice in a row.
pub open spec fn duplicate_each<S>(samples: Seq<S>) -> Seq<S> {
    Seq::new(2 * samples.len(), |i: int| samples[i / 2])
}

/// The decimal digit character for `d` (below 10).
pub open spec fn digit_char(d: nat) -> char {
    (48 + d) as char
}

/// Decimal text of a natural number, most significant digit first, without
/// leading zeros.
pub open spec fn decimal(n: nat) -> Seq<char>
    decreases n,
{
    if n < 10 {
        seq![digit_char(n)]
    } else {
        decimal(n / 10) + seq![digit_char(n % 10)]
    }
}

/// Text of the error for a buffer that does not have the expected layout:
/// `expected <layout>, got <channel count>`.
pub open spec fn layout_mismatch_message(expected: Seq<char>, got: u32) -> Seq<char> {
    "expected "@ + expected + ", got "@ + decimal(got as nat)
}

/// Text of the error for a plane whose length differs from the first plane's:
/// `channel <index> has <len> frames, expected <expected>`.
pub open spec fn plane_length_message(index: usize, len: usize, expected: usize) -> Seq<char> {
    "channel "@ + decimal(index as nat) + " has "@ + decimal(len as nat) + " frames, expected "@
        + decimal(expected as nat)
}

/// `format!("expected {}, got {}", ..)`: a string slice is written as it is,
/// and a `u32` in decimal without leading zeros.
#[verifier::external_body]
fn layout_mismatch(expected: &str, got: u32) -> (m: String)
    ensures
        m@ == layout_mismatch_message(expected@, got),
{
    format!("expected {}, got {}", expected, got)
}

/// `format!("channel {} has {} frames, expected {}", ..)`: each `usize` is
/// written in decimal without leading zeros.
#[verifier::external_body]
fn plane_length_mismatch(index: usize, len: usize, expected: usize) -> (m: String)
    ensures
        m@ == plane_length_message(index, len, expected),
{
    format!("channel {} has {} frames, expected {}", index, len, expected)
}

/// Position `f * ch + c` of channel `c` in frame `f` lies inside the buffer and
/// splits back into `f` and `c`.
pub proof fn lemma_frame_index(f: int, c: int, ch: int, frames: int)
    requires
        0 <= f < frames,
        0 <= c < ch,
    ensures
        0 <= f * ch + c < frames * ch,
        (f * ch + c) / ch == f,
        (f * ch + c) % ch == c,
{
    assert(0 <= f * ch) by (nonlinear_arith)
        requires
            0 <= f,
            0 <= ch,
    ;
    assert((f + 1) * ch <= frames * ch) by (nonlinear_arith)
        requires
            f + 1 <= frames,
            0 <= ch,
    ;
    assert((f + 1) * ch == f * ch + ch) by (nonlinear_arith);
    vstd::arithmetic::div_mod::lemma_fundamental_div_mod_converse(f * ch + c, ch, f, c);
}

/// `frames * ch` samples make exactly `frames` frames of `ch` channels.
pub proof fn lemma_whole_frames(frames: int, ch: int)
    requires
        0 <= frames,
        0 < ch,
    ensures
        (frames * ch) / ch == frames,
        (frames * ch) % ch == 0,
{
    vstd::arithmetic::div_mod::lemma_fundamental_div_mod_converse(frames * ch, ch, frames, 0);
}

/// Split an interleaved buffer into one sample vector per channel.
pub fn interleaved_to_planar<S: Copy>(buf: &AudioBuffer<S>) -> (planes: Vec<Vec<S>>)
    ensures
        plane_views(planes@) == deinterleave(buf.spec_samples(), buf.spec_channels() as nat),
{
    let ch = buf.channels() as usize;
    let frames = buf.frames();
    let samples = buf.samples();
    let total = samples.len();
    proof {
        lemma_whole_frames(frames as int, ch as int);
    }
    let ghost target = deinterleave(samples@, ch as nat);
    let mut planes: Vec<Vec<S>> = Vec::with_capacity(ch);
    for c in 0..ch
        invariant
            ch == buf.spec_channels(),
            samples@ == buf.spec_samples(),
            samples@.len() == frames * ch,
            frames * ch == total,
            samples@.len() / (ch as nat) == frames,
            target == deinterleave(samples@, ch as nat),
            planes@.len() == c,
            forall|k: int| 0 <= k < c ==> (#[trigger] planes@[k])@ == target[k],
    {
        let mut plane: Vec<S> = Vec::with_capacity(frames);
        for frame in 0..frames
            invariant
                0 <= c < ch,
                samples@.len() == frames * ch,
                frames * ch <= usize::MAX,
                plane@.len() == frame,
                forall|g: int| 0 <= g < frame ==> #[trigger] plane@[g] == samples@[g * ch + c],
        {
            proof {
                lemma_frame_index(frame as int, c as int, ch as int, frames as int);
            }
            plane.push(samples[frame * ch + c]);
        }
        assert(plane@ == target[c as int]);
        planes.push(plane);
    }
    assert(plane_views(planes@) == target);
    planes
}

/// Whether every plane holds as many samples as the first.
pub open spec fn planes_same_length<S>(planes: Seq<Vec<S>>) -> bool {
    forall|i: int| 0 <= i < planes.len() ==> (#[trigger] planes[i])@.len() == planes[0]@.len()
}

/// Join planes (one sample vector per channel, all of the same length) into an
/// interleaved buffer.
///
/// No planes gives `InvalidChannels(0)`; a plane whose length differs from the
/// first plane's gives `Conversion`, naming the first such plane; otherwise the
/// result is what `AudioBuffer::from_interleaved` makes of the interleaved
/// samples, with the plane count taken as a `u32`.
pub fn planar_to_interleaved<S: Copy>(channels: &[Vec<S>], sample_rate: u32) -> (res: Result<
    AudioBuffer<S>,
    NadaError,
>)
    requires
        channels@.len() > 0 && planes_same_length(channels@) ==> channels@[0]@.len()
            * channels@.len() <= usize::MAX,
    ensures
        channels@.len() == 0 ==> res == Err::<AudioBuffer<S>, NadaError>(
            NadaError::InvalidChannels(0),
        ),
        channels@.len() > 0 && !planes_same_length(channels@) ==> exists|i: int|
            {
                &&& 0 < i < channels@.len()
                &&& (#[trigger] channels@[i])@.len() != channels@[0]@.len()
                &&& forall|j: int|
                    0 <= j < i ==> (#[trigger] channels@[j])@.len() == channels@[0]@.len()
                &&& res matches Err(NadaError::Conversion(m)) && m@ == plane_length_message(
                    i as usize,
                    channels@[i]@.len() as usize,
                    channels@[0]@.len() as usize,
                )
            },
        channels@.len() > 0 && planes_same_length(channels@) ==> {
            let frames = channels@[0]@.len();
            let n = channels@.len();
            match interleaved_error(frames * n, n as u32, sample_rate) {
                Some(e) => res == Err::<AudioBuffer<S>, NadaError>(e),
                None => res matches Ok(buf) && {
                    &&& buf.spec_samples() == interleave(plane_views(channels@), frames)
                    &&& buf.spec_channels() == n as u32
                    &&& buf.spec_sample_rate() == sample_rate
                    &&& buf.spec_frames() == (frames * n) / ((n as u32) as nat)
                },
            }
        },
{
    if channels.len() == 0 {
        return Err(NadaError::InvalidChannels(0));
    }
    let frames = channels[0].len();
    let ch_count = channels.len();
    for i in 0..ch_count
        invariant
            ch_count == channels@.len(),
            frames == channels@[0]@.len(),
            forall|j: int| 0 <= j < i ==> (#[trigger] channels@[j])@.len() == frames,
    {
        if channels[i].len() != frames {
            let msg = plane_length_mismatch(i, channels[i].len(), frames);
            return Err(NadaError::Conversion(msg));
        }
    }
    let ghost views = plane_views(channels@);
    assert(planes_same_length(channels@));
    let total = frames * ch_count;
    let mut samples: Vec<S> = Vec::with_capacity(total);
    assert(samples@.len() == 0 * ch_count);
    for frame in 0..frames
        invariant
            ch_count == channels@.len(),
            ch_count > 0,
            frames == channels@[0]@.len(),
            total == frames * ch_count,
            views == plane_views(channels@),
            planes_same_length(channels@),
            samples@.len() == frame * ch_count,
            forall|k: int| 0 <= k < frame * ch_count ==> #[trigger] samples@[k] == views[k
                % (ch_count as int)][k / (ch_count as int)],
    {
        for c in 0..ch_count
            invariant
                ch_count == channels@.len(),
                ch_count > 0,
                frames == channels@[0]@.len(),
                0 <= frame < frames,
                views == plane_views(channels@),
                planes_same_length(channels@),
                samples@.len() == frame * ch_count + c,
                forall|k: int| 0 <= k < frame * ch_count + c ==> #[trigger] samples@[k] == views[k
                    % (ch_count as int)][k / (ch_count as int)],
        {
            proof {
                lemma_frame_index(frame as int, c as int, ch_count as int, frames as int);
            }
            assert(channels@[c as int]@.len() == frames);
            samples.push(channels[c][frame]);
        }
        assert((frame + 1) * ch_count == frame * ch_count + ch_count) by (nonlinear_arith);
    }
    assert(samples@ == interleave(views, frames as nat));
    proof {
        lemma_whole_frames(frames as int, ch_count as int);
    }
    #[verifier::truncate]
    let n = ch_count as u32;
    AudioBuffer::from_interleaved(samples, n, sample_rate)
}

/// Duplicate a mono buffer to stereo: both channels of frame `f` are sample `f`.
///
/// A buffer that is not mono gives `Conversion`; a mono buffer whose sample rate
/// `from_interleaved` refuses gives `InvalidSampleRate`.
pub fn mono_to_stereo<S: Copy>(buf: &AudioBuffer<S>) -> (res: Result<AudioBuffer<S>, NadaError>)
    requires
        buf.spec_channels() == 1 ==> 2 * buf.spec_frames() <= usize::MAX,
    ensures
        buf.spec_channels() != 1 ==> (res matches Err(NadaError::Conversion(m)) && m@
            == layout_mismatch_message("mono (1 channel)"@, buf.spec_channels())),
        buf.spec_channels() == 1 && !valid_sample_rate(buf.spec_sample_rate()) ==> res == Err::<
            AudioBuffer<S>,
            NadaError,
        >(NadaError::InvalidSampleRate(buf.spec_sample_rate())),
        buf.spec_channels() == 1 && valid_sample_rate(buf.spec_sample_rate()) ==> (res matches Ok(
            out,
        ) && {
            &&& out.spec_channels() == 2
            &&& out.spec_frames() == buf.spec_frames()
            &&& out.spec_sample_rate() == buf.spec_sample_rate()
            &&& out.spec_samples() == duplicate_each(buf.spec_samples())
        }),
{
    let channels = buf.channels();
    if channels != 1 {
        let msg = layout_mismatch("mono (1 channel)", channels);
        return Err(NadaError::Conversion(msg));
    }
    let frames = buf.frames();
    let input = buf.samples();
    let mut samples: Vec<S> = Vec::with_capacity(frames * 2);
    for i in 0..frames
        invariant
            input@ == buf.spec_samples(),
            input@.len() == frames,
            2 * frames <= usize::MAX,
            samples@.len() == 2 * i,
            forall|k: int| 0 <= k < 2 * i ==> #[trigger] samples@[k] == input@[k / 2],
    {
        let s = input[i];
        samples.push(s);
        samples.push(s);
    }
    assert(samples@ == duplicate_each(input@));
    proof {
        lemma_whole_frames(frames as int, 2);
    }
    AudioBuffer::from_interleaved(samples, 2, buf.sample_rate())
}

/// Mix a stereo buffer down to mono: output frame `f` is `average(L, R)` of input frame `f`.
///
/// A buffer that is not stereo gives `Conversion`; a stereo buffer whose sample
/// rate `from_interleaved` refuses gives `InvalidSampleRate`.
pub fn stereo_to_mono<S: Copy, F: Fn(S, S) -> S>(buf: &AudioBuffer<S>, average: F) -> (res:
    Result<AudioBuffer<S>, NadaError>)
    requires
        forall|l: S, r: S| average.requires((l, r)),
    ensures
        buf.spec_channels() != 2 ==> (res matches Err(NadaError::Conversion(m)) && m@
            == layout_mismatch_message("stereo (2 channels)"@, buf.spec_channels())),
        buf.spec_channels() == 2 && !valid_sample_rate(buf.spec_sample_rate()) ==> res == Err::<
            AudioBuffer<S>,
            NadaError,
        >(NadaError::InvalidSampleRate(buf.spec_sample_rate())),
        buf.spec_channels() == 2 && valid_sample_rate(buf.spec_sample_rate()) ==> (res matches Ok(
            out,
        ) && {
            &&& out.spec_channels() == 1
            &&& out.spec_frames() == buf.spec_frames()
            &&& out.spec_sample_rate() == buf.spec_sample_rate()
            &&& out.spec_samples().len() == buf.spec_frames()
            &&& forall|f: int|
                0 <= f < buf.spec_frames() ==> average.ensures(
                    (buf.spec_samples()[2 * f], buf.spec_samples()[2 * f + 1]),
                    #[trigger] out.spec_samples()[f],
                )
        }),
{
    let channels = buf.channels();
    if channels != 2 {
        let msg = layout_mismatch("stereo (2 channels)", channels);
        return Err(NadaError::Conversion(msg));
    }
    let frames = buf.frames();
    let input = buf.samples();
    let total = input.len();
    let mut samples: Vec<S> = Vec::with_capacity(frames);
    for frame in 0..frames
        invariant
            input@ == buf.spec_samples(),
            input@.len() == frames * 2,
            frames * 2 == total,
            forall|l: S, r: S| average.requires((l, r)),
            samples@.len() == frame,
            forall|g: int|
                0 <= g < frame ==> average.ensures(
                    (input@[2 * g], input@[2 * g + 1]),
                    #[trigger] samples@[g],
                ),
    {
        let l = input[2 * frame];
        let r = input[2 * frame + 1];
        let m = average(l, r);
        samples.push(m);
    }
    proof {
        lemma_whole_frames(frames as int, 1);
    }
    AudioBuffer::from_interleaved(samples, 1, buf.sample_rate())
}

/// Down-mix 5.1 (channel order L, R, C, LFE, Ls, Rs) to stereo.
///
/// Left output of frame `f` is `mix(L, C, Ls)` and right output is
/// `mix(R, C, Rs)`; the LFE channel is discarded. With the ITU-R BS.775 law,
/// `mix(front, centre, surround) = front + k * centre + k * surround` for
/// `k = 1/sqrt(2)`.
///
/// A buffer without 6 channels gives `Conversion`; a 6-channel buffer whose
/// sample rate `from_interleaved` refuses gives `InvalidSampleRate`.
pub fn downmix_5_1_to_stereo<S: Copy, F: Fn(S, S, S) -> S>(buf: &AudioBuffer<S>, mix: F) -> (res:
    Result<AudioBuffer<S>, NadaError>)
    requires
        forall|front: S, centre: S, surround: S| mix.requires((front, centre, surround)),
    ensures
        buf.spec_channels() != 6 ==> (res matches Err(NadaError::Conversion(m)) && m@
            == layout_mismatch_message("5.1 (6 channels)"@, buf.spec_channels())),
        buf.spec_channels() == 6 && !valid_sample_rate(buf.spec_sample_rate()) ==> res == Err::<
            AudioBuffer<S>,
            NadaError,
        >(NadaError::InvalidSampleRate(buf.spec_sample_rate())),
        buf.spec_channels() == 6 && valid_sample_rate(buf.spec_sample_rate()) ==> (res matches Ok(
            out,
        ) && {
            &&& out.spec_channels() == 2
            &&& out.spec_frames() == buf.spec_frames()
            &&& out.spec_sample_rate() == buf.spec_sample_rate()
            &&& out.spec_samples().len() == 2 * buf.spec_frames()
            &&& forall|f: int|
                0 <= f < buf.spec_frames() ==> mix.ensures(
                    (
                        buf.spec_samples()[6 * f],
                        buf.spec_samples()[6 * f + 2],
                        buf.spec_samples()[6 * f + 4],
                    ),
                    #[trigger] out.spec_samples()[2 * f],
                )
            &&& forall|f: int|
                0 <= f < buf.spec_frames() ==> mix.ensures(
                    (
                        buf.spec_samples()[6 * f + 1],
                        buf.spec_samples()[6 * f + 2],
                        buf.spec_samples()[6 * f + 5],
                    ),
                    #[trigger] out.spec_samples()[2 * f + 1],
                )
        }),
{
    let channels = buf.channels();
    if channels != 6 {
        let msg = layout_mismatch("5.1 (6 channels)", channels);
        return Err(NadaError::Conversion(msg));
    }
    let frames = buf.frames();
    let input = buf.samples();
    let total = input.len();
    assert(input@.len() == frames * 6);
    let mut samples: Vec<S> = Vec::with_capacity(2 * frames);
    for frame in 0..frames
        invariant
            input@ == buf.spec_samples(),
            input@.len() == frames * 6,
            frames * 6 == total,
            forall|front: S, centre: S, surround: S| mix.requires((front, centre, surround)),
            samples@.len() == 2 * frame,
            forall|g: int|
                0 <= g < frame ==> mix.ensures(
                    (input@[6 * g], input@[6 * g + 2], input@[6 * g + 4]),
                    #[trigger] samples@[2 * g],
                ),
            forall|g: int|
                0 <= g < frame ==> mix.ensures(
                    (input@[6 * g + 1], input@[6 * g + 2], input@[6 * g + 5]),
                    #[trigger] samples@[2 * g + 1],
                ),
    {
        let base = 6 * frame;
        let l = input[base];
        let r = input[base + 1];
        let c = input[base + 2];
        let ls = input[base + 4];
        let rs = input[base + 5];
        let left = mix(l, c, ls);
        let right = mix(r, c, rs);
        let ghost prev = samples@;
        samples.push(left);
        samples.push(right);
        assert forall|g: int| 0 <= g < frame + 1 implies mix.ensures(
            (input@[6 * g], input@[6 * g + 2], input@[6 * g + 4]),
            #[trigger] samples@[2 * g],
        ) by {
            if g < frame {
                assert(samples@[2 * g] == prev[2 * g]);
            }
        }
        assert forall|g: int| 0 <= g < frame + 1 implies mix.ensures(
            (input@[6 * g + 1], input@[6 * g + 2], input@[6 * g + 5]),
            #[trigger] samples@[2 * g + 1],
        ) by {
            if g < frame {
                assert(samples@[2 * g + 1] == prev[2 * g + 1]);
            }
        }
    }
    proof {
        lemma_whole_frames(frames as int, 2);
    }
    AudioBuffer::from_interleaved(samples, 2, buf.sample_rate())
}

/// Splitting interleaved samples into planes and interleaving the planes again
/// gives back the samples; every plane holds one sample per frame.
pub proof fn law_planar_of_interleaved_roundtrip<S>(samples: Seq<S>, channels: nat)
    requires
        channels > 0,
        samples.len() % channels == 0,
    ensures
        forall|c: int|
            0 <= c < channels ==> (#[trigger] deinterleave(samples, channels)[c]).len()
                == samples.len() / channels,
        interleave(deinterleave(samples, channels), samples.len() / channels) == samples,
{
    let frames = samples.len() / channels;
    let planes = deinterleave(samples, channels);
    vstd::arithmetic::div_mod::lemma_fundamental_div_mod(samples.len() as int, channels as int);
    assert(frames * channels == samples.len()) by (nonlinear_arith)
        requires
            samples.len() == channels * (samples.len() / channels) + samples.len() % channels,
            samples.len() % channels == 0,
            frames == samples.len() / channels,
    ;
    let back = interleave(planes, frames);
    assert forall|i: int| 0 <= i < samples.len() implies back[i] == samples[i] by {
        let f = i / (channels as int);
        let c = i % (channels as int);
        vstd::arithmetic::div_mod::lemma_fundamental_div_mod(i, channels as int);
        vstd::arithmetic::div_mod::lemma_mod_bound(i, channels as int);
        vstd::arithmetic::div_mod::lemma_div_pos_is_pos(i, channels as int);
        assert(f < frames) by (nonlinear_arith)
            requires
                i == channels * f + c,
                0 <= c,
                i < frames * channels,
                channels > 0,
        ;
        assert(f * channels + c == i) by (nonlinear_arith)
            requires
                i == channels * f + c,
        ;
    }
    assert(back =~= samples);
}

/// The planes `interleaved_to_planar` returns for a buffer are accepted by
/// `planar_to_interleaved` and interleave back to the buffer's samples, with as
/// many planes as the buffer has channels.
pub proof fn law_planar_planes_rebuild_buffer<S>(samples: Seq<S>, channels: u32, planes: Seq<Vec<S>>)
    requires
        channels > 0,
        samples.len() % (channels as nat) == 0,
        plane_views(planes) == deinterleave(samples, channels as nat),
    ensures
        planes.len() == channels,
        planes_same_length(planes),
        planes[0]@.len() * planes.len() == samples.len(),
        interleave(plane_views(planes), planes[0]@.len()) == samples,
{
    law_planar_of_interleaved_roundtrip(samples, channels as nat);
    let frames = samples.len() / (channels as nat);
    assert(planes.len() == channels);
    assert forall|i: int| 0 <= i < planes.len() implies (#[trigger] planes[i])@.len() == planes[0]@.len() by {
        assert(plane_views(planes)[i] == planes[i]@);
        assert(plane_views(planes)[0] == planes[0]@);
    }
    assert(plane_views(planes)[0] == planes[0]@);
    assert(planes[0]@.len() == frames);
    vstd::arithmetic::div_mod::lemma_fundamental_div_mod(samples.len() as int, channels as int);
    assert(frames * channels == samples.len()) by (nonlinear_arith)
        requires
            samples.len() == channels * (samples.len() / (channels as nat)) + samples.len() % (channels as nat),
            samples.len() % (channels as nat) == 0,
            frames == samples.len() / (channels as nat),
    ;
}

/// Interleaving planes of equal length and splitting the result again gives
/// back the planes.
pub proof fn law_interleaved_of_planar_roundtrip<S>(planes: Seq<Seq<S>>, frames: nat)
    requires
        planes.len() > 0,
        forall|c: int| 0 <= c < planes.len() ==> (#[trigger] planes[c]).len() == frames,
    ensures
        deinterleave(interleave(planes, frames), planes.len()) == planes,
{
    let n = planes.len();
    let samples = interleave(planes, frames);
    lemma_whole_frames(frames as int, n as int);
    let back = deinterleave(samples, n);
    assert forall|c: int| 0 <= c < n implies back[c] =~= planes[c] by {
        assert forall|f: int| 0 <= f < frames implies back[c][f] == planes[c][f] by {
            lemma_frame_index(f, c, n as int, frames as int);
        }
    }
    assert(back =~= planes);
}

/// Mixing a duplicated mono signal back down to mono gives the mono signal,
/// whenever the average of a sample with itself is that sample.
///
/// `stereo` is what `mono_to_stereo` makes of `mono`, and `back` is what
/// `stereo_to_mono` makes of `stereo` with `average`.
pub proof fn law_stereo_to_mono_undoes_mono_to_stereo<S, F: Fn(S, S) -> S>(
    mono: Seq<S>,
    stereo: Seq<S>,
    back: Seq<S>,
    average: F,
)
    requires
        forall|x: S, o: S| #[trigger] average.ensures((x, x), o) ==> o == x,
        stereo == duplicate_each(mono),
        back.len() == mono.len(),
        forall|f: int|
            0 <= f < back.len() ==> average.ensures((stereo[2 * f], stereo[2 * f + 1]), #[trigger] back[f]),
    ensures
        back == mono,
{
    assert forall|f: int| 0 <= f < back.len() implies back[f] == mono[f] by {
        assert(stereo[2 * f] == mono[f]);
        assert(stereo[2 * f + 1] == mono[f]);
        assert(average.ensures((mono[f], mono[f]), back[f]));
    }
    assert(back =~= mono);
}

/// A three-input mix whose result is decided by its inputs.
pub open spec fn mix_is_deterministic<S, F: Fn(S, S, S) -> S>(mix: F) -> bool {
    forall|a: S, b: S, c: S, o1: S, o2: S|
        #[trigger] mix.ensures((a, b, c), o1) && #[trigger] mix.ensures((a, b, c), o2) ==> o1 == o2
}

/// `output` is what `downmix_5_1_to_stereo` makes of `frames` frames of 5.1
/// `input` with `mix`: left is `mix(L, C, Ls)`, right is `mix(R, C, Rs)`.
pub open spec fn is_downmix<S, F: Fn(S, S, S) -> S>(
    mix: F,
    input: Seq<S>,
    frames: nat,
    output: Seq<S>,
) -> bool {
    &&& input.len() == 6 * frames
    &&& output.len() == 2 * frames
    &&& forall|f: int|
        0 <= f < frames ==> mix.ensures(
            (input[6 * f], input[6 * f + 2], input[6 * f + 4]),
            #[trigger] output[2 * f],
        )
    &&& forall|f: int|
        0 <= f < frames ==> mix.ensures(
            (input[6 * f + 1], input[6 * f + 2], input[6 * f + 5]),
            #[trigger] output[2 * f + 1],
        )
}

/// The LFE channel never reaches the down-mix: two 5.1 inputs that differ
/// only in their LFE samples down-mix to the same stereo output, for a mix
/// decided by its inputs.
pub proof fn law_downmix_ignores_lfe<S, F: Fn(S, S, S) -> S>(
    mix: F,
    frames: nat,
    input: Seq<S>,
    other: Seq<S>,
    output: Seq<S>,
    other_output: Seq<S>,
)
    requires
        mix_is_deterministic(mix),
        is_downmix(mix, input, frames, output),
        is_downmix(mix, other, frames, other_output),
        forall|f: int, k: int|
            0 <= f < frames && 0 <= k < 6 && k != 3 ==> #[trigger] input[6 * f + k] == other[6
                * f + k],
    ensures
        output == other_output,
{
    assert forall|i: int| 0 <= i < output.len() implies output[i] == other_output[i] by {
        let f = i / 2;
        assert(0 <= f < frames);
        if i % 2 == 0 {
            assert(i == 2 * f);
            assert(input[6 * f + 0] == other[6 * f + 0]);
            assert(input[6 * f + 2] == other[6 * f + 2]);
            assert(input[6 * f + 4] == other[6 * f + 4]);
            assert(mix.ensures((input[6 * f], input[6 * f + 2], input[6 * f + 4]), output[2 * f]));
            assert(mix.ensures(
                (other[6 * f], other[6 * f + 2], other[6 * f + 4]),
                other_output[2 * f],
            ));
        } else {
            assert(i == 2 * f + 1);
            assert(input[6 * f + 1] == other[6 * f + 1]);
            assert(input[6 * f + 2] == other[6 * f + 2]);
            assert(input[6 * f + 5] == other[6 * f + 5]);
            assert(mix.ensures(
                (input[6 * f + 1], input[6 * f + 2], input[6 * f + 5]),
                output[2 * f + 1],
            ));
            assert(mix.ensures(
                (other[6 * f + 1], other[6 * f + 2], other[6 * f + 5]),
                other_output[2 * f + 1],
            ));
        }
    }
    assert(output =~= other_output);
}

/// Mirroring a 5.1 input (L with R, Ls with Rs; C kept) mirrors the stereo
/// down-mix: each frame's left and right outputs trade places, for a mix
/// decided by its inputs.
pub proof fn law_downmix_mirrors<S, F: Fn(S, S, S) -> S>(
    mix: F,
    frames: nat,
    input: Seq<S>,
    mirrored: Seq<S>,
    output: Seq<S>,
    mirrored_output: Seq<S>,
)
    requires
        mix_is_deterministic(mix),
        is_downmix(mix, input, frames, output),
        is_downmix(mix, mirrored, frames, mirrored_output),
        forall|f: int|
            0 <= f < frames ==> {
                &&& #[trigger] mirrored[6 * f] == input[6 * f + 1]
                &&& mirrored[6 * f + 1] == input[6 * f]
                &&& mirrored[6 * f + 2] == input[6 * f + 2]
                &&& mirrored[6 * f + 4] == input[6 * f + 5]
                &&& mirrored[6 * f + 5] == input[6 * f + 4]
            },
    ensures
        forall|f: int|
            0 <= f < frames ==> #[trigger] mirrored_output[2 * f] == output[2 * f + 1]
                && mirrored_output[2 * f + 1] == output[2 * f],
{
    assert forall|f: int| 0 <= f < frames implies #[trigger] mirrored_output[2 * f] == output[2
        * f + 1] && mirrored_output[2 * f + 1] == output[2 * f] by {
        assert(mirrored[6 * f] == input[6 * f + 1]);
        assert(mix.ensures(
            (mirrored[6 * f], mirrored[6 * f + 2], mirrored[6 * f + 4]),
            mirrored_output[2 * f],
        ));
        assert(mix.ensures(
            (input[6 * f + 1], input[6 * f + 2], input[6 * f + 5]),
            output[2 * f + 1],
        ));
        assert(mix.ensures(
            (mirrored[6 * f + 1], mirrored[6 * f + 2], mirrored[6 * f + 5]),
            mirrored_output[2 * f + 1],
        ));
        assert(mix.ensures((input[6 * f], input[6 * f + 2], input[6 * f + 4]), output[2 * f]));
    }
}

} // verus!
