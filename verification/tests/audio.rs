use echo_aec::config::SavedConfig;
use echo_aec::frames::{complete_frames, stereo_to_mono, CHANNELS, FRAME_SIZE, SAMPLE_RATE};
use echo_aec::playout::{OutputBuffer, MAX_BUFFER_SIZE};
use echo_aec::ring::SampleRing;

fn average(a: f32, b: f32) -> f32 {
    (a + b) * 0.5
}

#[test]
fn frame_constants() {
    assert_eq!(SAMPLE_RATE, 48000);
    assert_eq!(CHANNELS, 1);
    assert_eq!(FRAME_SIZE, 480);
    assert_eq!(FRAME_SIZE * 100, SAMPLE_RATE as usize);
    assert_eq!(MAX_BUFFER_SIZE, 96000);
}

#[test]
fn stereo_pairs_are_averaged() {
    let mono = stereo_to_mono(&[1.0f32, 3.0, 5.0, 7.0], average);
    assert_eq!(mono, vec![2.0, 6.0]);
}

#[test]
fn stereo_odd_tail_is_dropped() {
    let mono = stereo_to_mono(&[1.0f32, 0.0, 0.5, 0.5, 9.0], average);
    assert_eq!(mono, vec![0.5, 0.5]);
}

#[test]
fn stereo_shorter_than_a_pair_passes_through() {
    assert_eq!(stereo_to_mono(&[0.25f32], average), vec![0.25]);
    assert!(stereo_to_mono(&[] as &[f32], average).is_empty());
}

#[test]
fn frames_drop_the_partial_tail() {
    let samples: Vec<u32> = (0..1000).collect();
    let frames = complete_frames(&samples, FRAME_SIZE);
    assert_eq!(frames.len(), 2);
    assert_eq!(frames[0], (0..480).collect::<Vec<u32>>());
    assert_eq!(frames[1], (480..960).collect::<Vec<u32>>());
    assert!(complete_frames(&samples[..479], FRAME_SIZE).is_empty());
    assert_eq!(complete_frames(&samples[..960], FRAME_SIZE).len(), 2);
}

#[test]
fn buffer_plays_samples_on_every_channel_and_consumes_them() {
    let mut buf: OutputBuffer<f32> = OutputBuffer::new();
    buf.push_frame(&[0.1, 0.2, 0.3]);
    let mut out = [9.0f32; 4];
    buf.fill_output(&mut out, 2, 0.0);
    assert_eq!(out, [0.1, 0.1, 0.2, 0.2]);
    assert_eq!(buf.len(), 1);
    let mut out = [9.0f32; 6];
    buf.fill_output(&mut out, 2, 0.0);
    assert_eq!(out, [0.3, 0.3, 0.0, 0.0, 0.0, 0.0]);
    assert_eq!(buf.len(), 0);
}

#[test]
fn empty_buffer_plays_silence_everywhere() {
    let mut buf: OutputBuffer<f32> = OutputBuffer::new();
    let mut out = [7.0f32; 5];
    buf.fill_output(&mut out, 2, 0.0);
    assert_eq!(out, [0.0; 5]);
    assert_eq!(buf.len(), 0);
}

#[test]
fn partial_output_frame_keeps_its_content() {
    let mut buf: OutputBuffer<f32> = OutputBuffer::new();
    buf.push_frame(&[0.5, 0.75]);
    let mut out = [7.0f32; 5];
    buf.fill_output(&mut out, 2, 0.0);
    assert_eq!(out, [0.5, 0.5, 0.75, 0.75, 7.0]);
    assert_eq!(buf.len(), 0);
}

#[test]
fn buffer_keeps_only_the_newest_samples() {
    let mut buf: OutputBuffer<u32> = OutputBuffer::new();
    let first: Vec<u32> = (0..MAX_BUFFER_SIZE as u32).collect();
    buf.push_frame(&first);
    assert_eq!(buf.len(), MAX_BUFFER_SIZE);
    buf.push_frame(&[1_000_000, 1_000_001]);
    assert_eq!(buf.len(), MAX_BUFFER_SIZE);
    let mut out = [0u32; 3];
    buf.fill_output(&mut out, 1, 0);
    assert_eq!(out, [2, 3, 4]);
    let mut rest = vec![0u32; MAX_BUFFER_SIZE];
    buf.fill_output(&mut rest, 1, 0);
    assert_eq!(rest[MAX_BUFFER_SIZE - 5], 1_000_000);
    assert_eq!(rest[MAX_BUFFER_SIZE - 4], 1_000_001);
    assert_eq!(rest[MAX_BUFFER_SIZE - 3], 0);
}

#[test]
fn frame_roundtrip_through_the_buffer() {
    let mut buf: OutputBuffer<f32> = OutputBuffer::new();
    let frame: Vec<f32> = (0..FRAME_SIZE).map(|i| i as f32 / 1000.0).collect();
    buf.push_frame(&frame);
    let mut out = vec![1.0f32; FRAME_SIZE * 2];
    buf.fill_output(&mut out, 2, 0.0);
    for (i, s) in frame.iter().enumerate() {
        assert_eq!(out[2 * i], *s);
        assert_eq!(out[2 * i + 1], *s);
    }
    assert_eq!(buf.len(), 0);
}

#[test]
fn ring_queues_in_order_and_discards_overflow() {
    let mut ring = SampleRing::new(3);
    assert_eq!(ring.push_samples(&[10, 20, 30, 40, 50]), 3);
    let mut out = [99u32; 5];
    ring.pop_into(&mut out, 0);
    assert_eq!(out, [10, 20, 30, 0, 0]);
    assert_eq!(ring.push_samples(&[7]), 1);
    let mut out = [99u32; 1];
    ring.pop_into(&mut out, 0);
    assert_eq!(out, [7]);
}

#[test]
fn ring_carries_float_bit_patterns() {
    let mut ring = SampleRing::new(4);
    let samples = [0.5f32, -0.25, 1.0];
    let bits: Vec<u32> = samples.iter().map(|s| s.to_bits()).collect();
    assert_eq!(ring.push_samples(&bits), 3);
    let mut out = [0u32; 4];
    ring.pop_into(&mut out, 0.0f32.to_bits());
    let back: Vec<f32> = out.iter().map(|b| f32::from_bits(*b)).collect();
    assert_eq!(back, vec![0.5, -0.25, 1.0, 0.0]);
}

#[test]
fn ring_for_stream_holds_two_seconds() {
    let mut ring = SampleRing::for_stream(4, 2);
    let samples: Vec<u32> = (1..=20).collect();
    assert_eq!(ring.push_samples(&samples), 16);
    let mut out = [0u32; 17];
    ring.pop_into(&mut out, 0);
    assert_eq!(out[15], 16);
    assert_eq!(out[16], 0);
}

#[test]
fn ring_for_stream_at_48k_stereo() {
    let mut ring = SampleRing::for_stream(48000, 2);
    let samples = vec![1u32; 200_000];
    assert_eq!(ring.push_samples(&samples), 192_000);
}

#[test]
fn saved_config_defaults_to_no_devices() {
    let cfg = SavedConfig::default();
    assert_eq!(cfg.mic_device, "");
    assert_eq!(cfg.loopback_device, "");
    assert_eq!(cfg.virtual_mic_device, "");
    let cfg = SavedConfig::new("m".to_string(), "l".to_string(), "v".to_string());
    assert_eq!((cfg.mic_device.as_str(), cfg.loopback_device.as_str(), cfg.virtual_mic_device.as_str()), ("m", "l", "v"));
}
