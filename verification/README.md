# dhvani

Audio buffers, channel-layout conversion and lock-free level metering, verified
with Verus.

- `src/` — the verified library, generic over the sample type:
  - `buffer` — `AudioBuffer<S>` (interleaved, at least one channel, whole
    frames) and its constructors;
  - `buffer::convert` — interleaved/planar conversion, mono/stereo, 5.1
    down-mix, with the round-trip laws;
  - `meter` — `PeakMeter` / `MeterBank`, stereo levels held as atomic bit
    patterns;
  - `error` — `NadaError`.
- `app/` — the `f32` front end: sample-format conversion, the `f32` mixing
  laws (mean, ITU-R BS.775), dynamics analysis, the de-esser, `f32` meter
  access and voice rendering through `svara`.
- `tests/` — tests of the library on concrete values.
