use dhvani::{AudioBuffer, NadaError};

#[test]
fn from_interleaved_counts_frames() {
    let buf = AudioBuffer::from_interleaved(vec![0u8; 12], 3, 48000).unwrap();
    assert_eq!(buf.frames(), 4);
    assert_eq!(buf.channels(), 3);
    assert_eq!(buf.sample_rate(), 48000);
}

#[test]
fn from_interleaved_rejects_zero_channels() {
    assert!(matches!(
        AudioBuffer::from_interleaved(vec![0u8; 4], 0, 48000),
        Err(NadaError::InvalidChannels(0))
    ));
}

#[test]
fn from_interleaved_rejects_bad_sample_rate() {
    assert!(matches!(
        AudioBuffer::from_interleaved(vec![0u8; 4], 2, 0),
        Err(NadaError::InvalidSampleRate(0))
    ));
    assert!(matches!(
        AudioBuffer::from_interleaved(vec![0u8; 4], 2, 768_001),
        Err(NadaError::InvalidSampleRate(768_001))
    ));
    assert!(AudioBuffer::from_interleaved(vec![0u8; 4], 2, 768_000).is_ok());
}

#[test]
fn from_interleaved_rejects_partial_frame() {
    assert!(matches!(
        AudioBuffer::from_interleaved(vec![0u8; 7], 3, 44100),
        Err(NadaError::LengthMismatch { expected: 6, actual: 7 })
    ));
}

#[test]
fn filled_buffer_holds_the_fill_value() {
    let buf = AudioBuffer::filled(2, 3, 44100, 0.0f32);
    assert_eq!(buf.frames(), 3);
    assert_eq!(buf.channels(), 2);
    assert_eq!(buf.samples().to_vec(), vec![0.0f32; 6]);
}
