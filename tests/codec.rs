use whisperbar::codec::{
    decode_mono, encode_frame, levels_to_pcm_bytes, mix_to_mono, resample_to_output_rate,
    AudioBuffer, SampleFormat, LEVEL_LIMIT,
};

fn f32_bytes(values: &[f32]) -> Vec<u8> {
    let mut out = Vec::new();
    for v in values {
        out.extend_from_slice(&v.to_le_bytes());
    }
    out
}

fn i16_bytes(values: &[i16]) -> Vec<u8> {
    let mut out = Vec::new();
    for v in values {
        out.extend_from_slice(&v.to_le_bytes());
    }
    out
}

fn mono_f32(values: &[f32]) -> AudioBuffer {
    AudioBuffer { number_channels: 1, data: f32_bytes(values) }
}

#[test]
fn mixdown_of_opposite_buffers_is_silence() {
    let buffers = vec![mono_f32(&[1.0, 1.0]), mono_f32(&[-1.0, -1.0])];
    assert_eq!(mix_to_mono(&buffers, SampleFormat::Float32), vec![0, 0]);
}

#[test]
fn mixdown_truncates_to_shortest_buffer() {
    let buffers = vec![
        mono_f32(&[0.5, 0.5, 0.5, 0.5, 0.5]),
        mono_f32(&[0.25, 0.25, 0.25]),
    ];
    let mixed = mix_to_mono(&buffers, SampleFormat::Float32);
    assert_eq!(mixed.len(), 3);
    assert_eq!(mixed, vec![12288, 12288, 12288]);
}

#[test]
fn mixdown_of_one_buffer_is_that_buffer() {
    let buffers = vec![mono_f32(&[0.5, -0.25, 0.0])];
    assert_eq!(mix_to_mono(&buffers, SampleFormat::Float32), vec![16384, -8192, 0]);
}

#[test]
fn mixdown_of_no_buffers_is_empty() {
    let buffers: Vec<AudioBuffer> = Vec::new();
    assert!(mix_to_mono(&buffers, SampleFormat::Int16).is_empty());
}

#[test]
fn mixdown_with_an_empty_buffer_is_empty() {
    let buffers = vec![
        AudioBuffer { number_channels: 1, data: Vec::new() },
        AudioBuffer { number_channels: 1, data: i16_bytes(&[100, 200]) },
    ];
    assert!(mix_to_mono(&buffers, SampleFormat::Int16).is_empty());
}

#[test]
fn float_samples_decode_to_levels() {
    let bytes = f32_bytes(&[0.5, -0.25, f32::NAN, 1.0e10, -1.0e10, 1.0]);
    let levels = decode_mono(&bytes, SampleFormat::Float32, 1);
    assert_eq!(
        levels,
        vec![16384, -8192, 0, LEVEL_LIMIT as i32, -(LEVEL_LIMIT as i32), 32768]
    );
}

#[test]
fn interleaved_int16_frames_are_averaged() {
    let bytes = i16_bytes(&[100, 300, -100, -301, 7]);
    let levels = decode_mono(&bytes, SampleFormat::Int16, 2);
    // the trailing half frame is dropped; means round down
    assert_eq!(levels, vec![200, -201]);
}

#[test]
fn resample_at_output_rate_is_identity() {
    let input = vec![1, -2, 3, 40000, -32768];
    assert_eq!(resample_to_output_rate(&input, 16000), input);
}

#[test]
fn resample_length_follows_rate_ratio() {
    let input: Vec<i32> = (0..480).collect();
    assert_eq!(resample_to_output_rate(&input, 48000).len(), 160);
    let input: Vec<i32> = (0..441).collect();
    assert_eq!(resample_to_output_rate(&input, 44100).len(), 160);
    let input: Vec<i32> = (0..10).collect();
    assert_eq!(resample_to_output_rate(&input, 8000).len(), 20);
    let input: Vec<i32> = (0..1000).collect();
    assert_eq!(resample_to_output_rate(&input, 16001).len(), 999);
}

#[test]
fn upsampling_interpolates_linearly() {
    let input = vec![0, 100, 200, 300];
    assert_eq!(
        resample_to_output_rate(&input, 8000),
        vec![0, 50, 100, 150, 200, 250, 300, 300]
    );
}

#[test]
fn downsampling_picks_every_third_sample() {
    let input = vec![9, 1, 2, 8, 3, 4];
    assert_eq!(resample_to_output_rate(&input, 48000), vec![9, 8]);
}

#[test]
fn resample_of_empty_input_or_zero_rate_is_empty() {
    let empty: Vec<i32> = Vec::new();
    assert!(resample_to_output_rate(&empty, 48000).is_empty());
    assert!(resample_to_output_rate(&vec![1, 2, 3], 0).is_empty());
}

#[test]
fn quantization_applies_gain_clamp_and_rounding() {
    let bytes = levels_to_pcm_bytes(&vec![0, 32768, -32768, 16384, 100000, 1]);
    let values: Vec<i16> = bytes
        .chunks_exact(2)
        .map(|c| i16::from_le_bytes([c[0], c[1]]))
        .collect();
    // 0.5 * 1.25 * 32768 = 20480; 1/32768 * 1.25 * 32768 = 1.25; full scale clamps
    assert_eq!(values, vec![0, 32767, -32768, 20480, 32767, 1]);
}

#[test]
fn quantization_stays_within_half_a_step() {
    for level in (-26214..=26214).step_by(97).chain([26213, -26213, 26214, -26214]) {
        let bytes = levels_to_pcm_bytes(&vec![level]);
        let pcm = i16::from_le_bytes([bytes[0], bytes[1]]) as f64;
        let s = level as f64 / 32768.0;
        assert!((pcm / 32768.0 - 1.25 * s).abs() <= 1.0 / 32768.0);
    }
}

#[test]
fn quantization_of_nothing_is_no_bytes() {
    assert!(levels_to_pcm_bytes(&Vec::new()).is_empty());
}

#[test]
fn frame_encodes_to_pcm_at_output_rate() {
    let buffers = vec![AudioBuffer { number_channels: 2, data: i16_bytes(&[1000, 3000, -400, -400]) }];
    let bytes = encode_frame(&buffers, SampleFormat::Int16, 16000);
    // levels 2000 and -400, times 1.25
    assert_eq!(bytes, i16_bytes(&[2500, -500]));
}

#[test]
fn frame_with_no_samples_encodes_to_nothing() {
    let buffers = vec![AudioBuffer { number_channels: 2, data: vec![1, 2, 3] }];
    assert!(encode_frame(&buffers, SampleFormat::Int16, 48000).is_empty());
}
