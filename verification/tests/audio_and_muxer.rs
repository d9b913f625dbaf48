use monora::audio::{
    audio_devices_from, capture_block_bytes, channels, mark_default_device, mix_block_samples, sample_rate,
    take_full_blocks,
};
use monora::models::Quality;
use monora::muxer::{
    audio_sample_duration, audio_stream_config, audio_target, check_video_frame, frame_size_attribute, pack_u32_pair,
    ratio_attribute, video_sample_duration, video_stream_config,
};

#[test]
fn mixer_format() {
    assert_eq!(sample_rate(), 48_000);
    assert_eq!(channels(), 2);
    assert_eq!(mix_block_samples(), 1920);
    assert_eq!(capture_block_bytes(8), 7680);
}

#[test]
fn whole_blocks_are_taken() {
    let mut pending: Vec<u8> = (0..10).collect();
    let blocks = take_full_blocks(&mut pending, 4);
    assert_eq!(blocks, vec![vec![0, 1, 2, 3], vec![4, 5, 6, 7]]);
    assert_eq!(pending, vec![8, 9]);
    let mut short = vec![1u8, 2];
    assert!(take_full_blocks(&mut short, 4).is_empty());
    assert_eq!(short, vec![1, 2]);
}

#[test]
fn default_device_is_marked() {
    let found = vec![("id-1".to_string(), "Mic A".to_string()), ("id-2".to_string(), "Mic B".to_string())];
    let marked = mark_default_device(found, &"id-2".to_string());
    assert_eq!(marked[0], ("id-1".to_string(), "Mic A".to_string(), false));
    assert_eq!(marked[1], ("id-2".to_string(), "Mic B".to_string(), true));
    let infos = audio_devices_from(marked);
    assert_eq!(infos.len(), 2);
    assert_eq!(infos[1].id, "id-2");
    assert_eq!(infos[1].name, "Mic B");
    assert!(infos[1].is_default && !infos[0].is_default);
}

#[test]
fn packed_attributes() {
    assert_eq!(pack_u32_pair(1, 2), (1u64 << 32) | 2);
    assert_eq!(frame_size_attribute(1920, 1080), (1080u64 << 32) | 1920);
    assert_eq!(ratio_attribute(30, 1), (1u64 << 32) | 30);
    assert_eq!(pack_u32_pair(u32::MAX, u32::MAX), u64::MAX);
}

#[test]
fn stream_configs() {
    let v = video_stream_config(1920, 1080, 60, Quality::VeryHigh);
    assert_eq!(v.frame_size, (1080u64 << 32) | 1920);
    assert_eq!(v.frame_rate, (1u64 << 32) | 60);
    assert_eq!(v.pixel_aspect_ratio, (1u64 << 32) | 1);
    assert_eq!(v.avg_bitrate, 1_036_800);
    let a = audio_stream_config(Quality::Balanced);
    assert_eq!(a.channels, 2);
    assert_eq!(a.samples_per_second, 48_000);
    assert_eq!(a.avg_bytes_per_second, 16_000);
    assert_eq!(a.input_bits_per_sample, 32);
    assert_eq!(a.input_block_alignment, 8);
}

#[test]
fn frame_buffer_check() {
    assert_eq!(check_video_frame(16, 2, 2), Ok(16));
    assert_eq!(check_video_frame(20, 2, 2), Ok(16));
    assert_eq!(check_video_frame(15, 2, 2), Err("Video frame buffer too small".to_string()));
}

#[test]
fn sample_durations() {
    assert_eq!(video_sample_duration(30), 333_333);
    assert_eq!(video_sample_duration(60), 166_666);
    assert_eq!(audio_sample_duration(1920), 200_000);
    assert_eq!(audio_sample_duration(0), 1);
    assert_eq!(audio_sample_duration(5), 520);
}

#[test]
fn audio_routing() {
    assert_eq!(audio_target(false, Some(1)), Ok(None));
    assert_eq!(audio_target(true, Some(1)), Ok(Some(1)));
    assert_eq!(audio_target(true, None), Err("No audio stream".to_string()));
}
