use dhvani::buffer::convert::{
    downmix_5_1_to_stereo, interleaved_to_planar, mono_to_stereo, planar_to_interleaved,
    stereo_to_mono,
};
use dhvani::{AudioBuffer, NadaError};

/// Stereo-to-mono mixing law: the mean of left and right.
fn average(l: f32, r: f32) -> f32 {
    (l + r) * 0.5
}

/// The ITU-R BS.775 5.1 down-mix law: front + 0.707 * centre + 0.707 * surround.
fn itu_downmix(front: f32, centre: f32, surround: f32) -> f32 {
    let coeff: f32 = std::f32::consts::FRAC_1_SQRT_2;
    front + coeff * centre + coeff * surround
}

#[test]
fn interleaved_planar_roundtrip() {
    let buf = AudioBuffer::from_interleaved(vec![1.0f32, 2.0, 3.0, 4.0], 2, 44100).unwrap();
    let planes = interleaved_to_planar(&buf);
    assert_eq!(planes.len(), 2);
    assert_eq!(planes[0], vec![1.0, 3.0]); // L
    assert_eq!(planes[1], vec![2.0, 4.0]); // R

    let back = planar_to_interleaved(&planes, 44100).unwrap();
    assert_eq!(back.samples().to_vec(), vec![1.0, 2.0, 3.0, 4.0]);
    assert_eq!(back.channels(), 2);
}

#[test]
fn planar_rejects_mismatched_lengths() {
    let planes = vec![vec![1.0f32, 2.0], vec![3.0]];
    assert!(planar_to_interleaved(&planes, 44100).is_err());
}

#[test]
fn planar_rejects_empty() {
    let planes: Vec<Vec<f32>> = vec![];
    assert!(planar_to_interleaved(&planes, 44100).is_err());
}

#[test]
fn mono_to_stereo_duplicates() {
    let buf = AudioBuffer::from_interleaved(vec![0.5f32, -0.5], 1, 44100).unwrap();
    let stereo = mono_to_stereo(&buf).unwrap();
    assert_eq!(stereo.channels(), 2);
    assert_eq!(stereo.frames(), 2);
    assert_eq!(stereo.samples().to_vec(), vec![0.5, 0.5, -0.5, -0.5]);
}

#[test]
fn mono_to_stereo_rejects_non_mono() {
    let buf = AudioBuffer::from_interleaved(vec![0.5f32, -0.5], 2, 44100).unwrap();
    assert!(mono_to_stereo(&buf).is_err());
}

#[test]
fn stereo_to_mono_averages() {
    let buf = AudioBuffer::from_interleaved(vec![1.0f32, 0.0, 0.0, 1.0], 2, 44100).unwrap();
    let mono = stereo_to_mono(&buf, average).unwrap();
    assert_eq!(mono.channels(), 1);
    assert_eq!(mono.frames(), 2);
    assert!((mono.samples()[0] - 0.5).abs() < f32::EPSILON);
    assert!((mono.samples()[1] - 0.5).abs() < f32::EPSILON);
}

#[test]
fn stereo_to_mono_rejects_non_stereo() {
    let buf = AudioBuffer::from_interleaved(vec![0.5f32], 1, 44100).unwrap();
    assert!(stereo_to_mono(&buf, average).is_err());
}

#[test]
fn downmix_5_1_basic() {
    // All channels at 1.0 — check coefficient application
    let samples = vec![1.0f32; 6 * 2]; // 2 frames of 6 channels
    let buf = AudioBuffer::from_interleaved(samples, 6, 48000).unwrap();
    let stereo = downmix_5_1_to_stereo(&buf, itu_downmix).unwrap();
    assert_eq!(stereo.channels(), 2);
    assert_eq!(stereo.frames(), 2);
    let coeff = std::f32::consts::FRAC_1_SQRT_2;
    let expected = 1.0 + coeff + coeff; // L + 0.707*C + 0.707*Ls
    assert!((stereo.samples()[0] - expected).abs() < 0.001);
}

#[test]
fn downmix_5_1_rejects_non_6ch() {
    let buf = AudioBuffer::from_interleaved(vec![0.0f32; 4], 2, 44100).unwrap();
    assert!(downmix_5_1_to_stereo(&buf, itu_downmix).is_err());
}

// ── Further cases ───────────────────────────────────────────────────

#[test]
fn planar_mismatch_names_first_short_plane() {
    let planes = vec![vec![1i32, 2, 3], vec![4, 5, 6], vec![7], vec![8, 9]];
    match planar_to_interleaved(&planes, 44100) {
        Err(NadaError::Conversion(m)) => assert_eq!(m, "channel 2 has 1 frames, expected 3"),
        _ => panic!("expected a conversion error"),
    }
}

#[test]
fn planar_empty_is_invalid_channels() {
    let planes: Vec<Vec<i32>> = vec![];
    assert!(matches!(planar_to_interleaved(&planes, 44100), Err(NadaError::InvalidChannels(0))));
}

#[test]
fn planar_bad_rate_is_invalid_sample_rate() {
    let planes = vec![vec![1i32, 2], vec![3, 4]];
    assert!(matches!(planar_to_interleaved(&planes, 0), Err(NadaError::InvalidSampleRate(0))));
    assert!(matches!(
        planar_to_interleaved(&planes, 768_001),
        Err(NadaError::InvalidSampleRate(768_001))
    ));
}

#[test]
fn planar_three_channels_interleave_order() {
    let planes = vec![vec![1i32, 4], vec![2, 5], vec![3, 6]];
    let buf = planar_to_interleaved(&planes, 48000).unwrap();
    assert_eq!(buf.samples().to_vec(), vec![1, 2, 3, 4, 5, 6]);
    assert_eq!(buf.channels(), 3);
    assert_eq!(buf.frames(), 2);
    assert_eq!(buf.sample_rate(), 48000);
    assert_eq!(interleaved_to_planar(&buf), planes);
}

#[test]
fn planar_of_zero_frames() {
    let planes: Vec<Vec<i32>> = vec![vec![], vec![]];
    let buf = planar_to_interleaved(&planes, 44100).unwrap();
    assert_eq!(buf.frames(), 0);
    assert_eq!(buf.channels(), 2);
    assert_eq!(interleaved_to_planar(&buf), planes);
}

#[test]
fn mono_to_stereo_message_names_channel_count() {
    let buf = AudioBuffer::from_interleaved(vec![0i16; 6], 3, 44100).unwrap();
    match mono_to_stereo(&buf) {
        Err(NadaError::Conversion(m)) => assert_eq!(m, "expected mono (1 channel), got 3"),
        _ => panic!("expected a conversion error"),
    }
}

#[test]
fn stereo_to_mono_message_names_channel_count() {
    let buf = AudioBuffer::from_interleaved(vec![0.25f32], 1, 44100).unwrap();
    match stereo_to_mono(&buf, average) {
        Err(NadaError::Conversion(m)) => assert_eq!(m, "expected stereo (2 channels), got 1"),
        _ => panic!("expected a conversion error"),
    }
}

#[test]
fn downmix_message_names_channel_count() {
    let buf = AudioBuffer::from_interleaved(vec![0.0f32; 4], 2, 44100).unwrap();
    match downmix_5_1_to_stereo(&buf, itu_downmix) {
        Err(NadaError::Conversion(m)) => assert_eq!(m, "expected 5.1 (6 channels), got 2"),
        _ => panic!("expected a conversion error"),
    }
}

#[test]
fn mono_to_stereo_keeps_bad_rate_error() {
    let buf = AudioBuffer::filled(1, 3, 1_000_000, 0.0f32);
    assert!(matches!(mono_to_stereo(&buf), Err(NadaError::InvalidSampleRate(1_000_000))));
}

#[test]
fn stereo_to_mono_undoes_mono_to_stereo() {
    let samples = vec![0.25f32, -1.0, 0.75, 0.0, 0.5];
    let buf = AudioBuffer::from_interleaved(samples.clone(), 1, 44100).unwrap();
    let stereo = mono_to_stereo(&buf).unwrap();
    let back = stereo_to_mono(&stereo, average).unwrap();
    assert_eq!(back.samples().to_vec(), samples);
    assert_eq!(back.channels(), 1);
    assert_eq!(back.sample_rate(), 44100);
}

#[test]
fn stereo_to_mono_exact_means() {
    let buf = AudioBuffer::from_interleaved(vec![0.5f32, 0.25, -1.0, 1.0, 0.75, 0.75], 2, 22050)
        .unwrap();
    let mono = stereo_to_mono(&buf, average).unwrap();
    assert_eq!(mono.samples().to_vec(), vec![0.375, 0.0, 0.75]);
    assert_eq!(mono.sample_rate(), 22050);
}

#[test]
fn downmix_routes_channels_and_drops_lfe() {
    // One frame: L, R, C, LFE, Ls, Rs as distinct markers, summed as integers.
    let buf = AudioBuffer::from_interleaved(vec![1i64, 10, 100, 1000, 10000, 100000], 6, 48000)
        .unwrap();
    let stereo = downmix_5_1_to_stereo(&buf, |f: i64, c: i64, s: i64| f + c + s).unwrap();
    assert_eq!(stereo.samples().to_vec(), vec![10101, 100110]);
}

#[test]
fn downmix_itu_exact_value() {
    let frame = vec![0.5f32, -0.25, 0.5, 0.9, 0.25, 1.0];
    let buf = AudioBuffer::from_interleaved(frame, 6, 48000).unwrap();
    let stereo = downmix_5_1_to_stereo(&buf, itu_downmix).unwrap();
    let k = std::f32::consts::FRAC_1_SQRT_2;
    assert_eq!(stereo.samples()[0], 0.5 + k * 0.5 + k * 0.25);
    assert_eq!(stereo.samples()[1], -0.25 + k * 0.5 + k * 1.0);
}

#[test]
fn downmix_ignores_lfe() {
    let a = vec![0.1f32, 0.2, 0.3, 0.4, 0.5, 0.6, -0.1, -0.2, -0.3, -0.4, -0.5, -0.6];
    let mut b = a.clone();
    b[3] = 0.9;
    b[9] = -0.9;
    let ba = AudioBuffer::from_interleaved(a, 6, 48000).unwrap();
    let bb = AudioBuffer::from_interleaved(b, 6, 48000).unwrap();
    let oa = downmix_5_1_to_stereo(&ba, itu_downmix).unwrap();
    let ob = downmix_5_1_to_stereo(&bb, itu_downmix).unwrap();
    assert_eq!(oa.samples().to_vec(), ob.samples().to_vec());
}

#[test]
fn downmix_mirrors_left_and_right() {
    let a = vec![0.1f32, 0.2, 0.3, 0.4, 0.5, 0.6];
    let mirrored = vec![0.2f32, 0.1, 0.3, 0.4, 0.6, 0.5];
    let ba = AudioBuffer::from_interleaved(a, 6, 48000).unwrap();
    let bm = AudioBuffer::from_interleaved(mirrored, 6, 48000).unwrap();
    let oa = downmix_5_1_to_stereo(&ba, itu_downmix).unwrap();
    let om = downmix_5_1_to_stereo(&bm, itu_downmix).unwrap();
    assert_eq!(om.samples()[0], oa.samples()[1]);
    assert_eq!(om.samples()[1], oa.samples()[0]);
}

#[test]
fn planar_message_with_multi_digit_numbers() {
    let mut planes = vec![vec![0u8; 120]; 12];
    planes[11] = vec![0u8; 7];
    match planar_to_interleaved(&planes, 44100) {
        Err(NadaError::Conversion(m)) => assert_eq!(m, "channel 11 has 7 frames, expected 120"),
        _ => panic!("expected a conversion error"),
    }
}
