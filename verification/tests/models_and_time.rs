use monora::models::{AppSettings, MonitorInfo, Quality, RecordingMode, RecordingState};
use monora::text::decimal_string;
use monora::timestamps::{qpc_to_100ns, since_session_start};

#[test]
fn qpc_converts_counter_to_100ns_units() {
    assert_eq!(qpc_to_100ns(3, 10), 3_000_000);
    assert_eq!(qpc_to_100ns(10_000_000, 10_000_000), 10_000_000);
    assert_eq!(qpc_to_100ns(123_456_789, 3_579_545), 344_895_200);
}

#[test]
fn qpc_without_frequency_is_zero() {
    assert_eq!(qpc_to_100ns(12345, 0), 0);
    assert_eq!(qpc_to_100ns(12345, -5), 0);
}

#[test]
fn qpc_rounds_negative_counts_toward_zero() {
    assert_eq!(qpc_to_100ns(-3, 7), -4_285_714);
}

#[test]
fn session_relative_time() {
    assert_eq!(since_session_start(1_500, 1_000), 500);
    assert_eq!(since_session_start(1_000, 1_500), -500);
}

#[test]
fn video_bitrate_by_quality() {
    assert_eq!(Quality::Balanced.video_bitrate_bps(1920, 1080), 518_400);
    assert_eq!(Quality::High.video_bitrate_bps(1920, 1080), 777_600);
    assert_eq!(Quality::VeryHigh.video_bitrate_bps(1920, 1080), 1_036_800);
    assert_eq!(Quality::High.video_bitrate_bps(0, 1080), 0);
}

#[test]
fn video_bitrate_wraps_to_32_bits() {
    // 65536 * 65536 / 4 * 2 is 2^31, which fits; 131072 * 131072 / 4 * 2
    // is 2^33, of which the low 32 bits are all zero.
    assert_eq!(Quality::VeryHigh.video_bitrate_bps(65536, 65536), 1u32 << 31);
    assert_eq!(Quality::VeryHigh.video_bitrate_bps(131072, 131072), 0);
}

#[test]
fn audio_bitrate_by_quality() {
    assert_eq!(Quality::Balanced.audio_bitrate_bps(), 128_000);
    assert_eq!(Quality::High.audio_bitrate_bps(), 160_000);
    assert_eq!(Quality::VeryHigh.audio_bitrate_bps(), 192_000);
}

#[test]
fn state_classes() {
    assert!(RecordingState::Starting.is_active());
    assert!(RecordingState::Recording.is_active());
    assert!(!RecordingState::Stopping.is_active());
    assert!(RecordingState::Idle.is_startable());
    assert!(RecordingState::Completed.is_startable());
    assert!(RecordingState::Error.is_startable());
    assert!(!RecordingState::Stopping.is_startable());
    assert!(!RecordingState::Recording.is_startable());
}

#[test]
fn default_settings() {
    let s = AppSettings::defaults_in("C:\\Videos\\SimpleRecorder".to_string());
    assert!(s.selected_monitor_ids.is_empty());
    assert_eq!(s.recording_mode, RecordingMode::Combined);
    assert_eq!(s.fps, 30);
    assert_eq!(s.quality, Quality::High);
    assert!(s.system_audio_enabled);
    assert!(s.microphone_enabled);
    assert_eq!(s.selected_microphone_id, None);
    assert_eq!(s.output_directory, "C:\\Videos\\SimpleRecorder");
}

fn monitor(id: &str, index: usize, x: i32, y: i32, w: u32, h: u32) -> MonitorInfo {
    MonitorInfo {
        id: id.to_string(),
        name: format!("Monitor {index}"),
        index,
        x,
        y,
        width: w,
        height: h,
        refresh_rate_hz: None,
        is_primary: index == 1,
    }
}

#[test]
fn empty_selection_takes_every_monitor() {
    let s = AppSettings::defaults_in("out".to_string());
    let mons = vec![monitor("monitor:a", 1, 0, 0, 1920, 1080), monitor("monitor:b", 2, 1920, 0, 1280, 1024)];
    let s = s.select_all_if_none(&mons);
    assert_eq!(s.selected_monitor_ids, vec!["monitor:a".to_string(), "monitor:b".to_string()]);
    assert_eq!(s.fps, 30);
}

#[test]
fn existing_selection_is_kept() {
    let mut s = AppSettings::defaults_in("out".to_string());
    s.selected_monitor_ids = vec!["monitor:b".to_string()];
    let mons = vec![monitor("monitor:a", 1, 0, 0, 1920, 1080), monitor("monitor:b", 2, 1920, 0, 1280, 1024)];
    let s = s.select_all_if_none(&mons);
    assert_eq!(s.selected_monitor_ids, vec!["monitor:b".to_string()]);
}

#[test]
fn settings_clone_keeps_fields() {
    let mut s = AppSettings::defaults_in("out".to_string());
    s.selected_microphone_id = Some("mic-1".to_string());
    s.selected_monitor_ids = vec!["x".to_string()];
    let c = s.clone();
    assert_eq!(c.selected_microphone_id.as_deref(), Some("mic-1"));
    assert_eq!(c.selected_monitor_ids, vec!["x".to_string()]);
    assert_eq!(c.output_directory, "out");
}

#[test]
fn decimal_strings() {
    assert_eq!(decimal_string(0), "0");
    assert_eq!(decimal_string(7), "7");
    assert_eq!(decimal_string(10), "10");
    assert_eq!(decimal_string(12345), "12345");
    assert_eq!(decimal_string(u64::MAX), u64::MAX.to_string());
}
